//! What a call to the host came to.

use crate::ordered::Value;
use vstd::prelude::*;
use vstd::string::*;

verus! {

/// What a call to the host came to: it was done, or it failed for a reason.
#[derive(Debug, PartialEq, Eq)]
pub enum HostOutcome {
    Done,
    Failed(String),
}

/// The model of [`HostOutcome`].
pub enum OutcomeModel {
    Done,
    Failed(Seq<char>),
}

impl DeepView for HostOutcome {
    type V = OutcomeModel;

    open spec fn deep_view(&self) -> OutcomeModel {
        match self {
            HostOutcome::Done => OutcomeModel::Done,
            HostOutcome::Failed(error) => OutcomeModel::Failed(error@),
        }
    }
}

impl Value for HostOutcome {
    fn duplicate(&self) -> (r: Self) {
        match self {
            HostOutcome::Done => HostOutcome::Done,
            HostOutcome::Failed(error) => HostOutcome::Failed(error.duplicate()),
        }
    }

    fn same(&self, other: &Self) -> (r: bool) {
        match (self, other) {
            (HostOutcome::Done, HostOutcome::Done) => true,
            (HostOutcome::Failed(a), HostOutcome::Failed(b)) => a.same(b),
            _ => false,
        }
    }
}

impl Clone for HostOutcome {
    fn clone(&self) -> (r: Self)
        ensures
            r.deep_view() == self.deep_view(),
    {
        self.duplicate()
    }
}

/// True when an optional text is the given one.
pub open spec fn is_text(text: Option<Seq<char>>, wanted: Seq<char>) -> bool {
    text == Some(wanted)
}

/// Whether an optional text is the given one.
pub fn string_is(text: &Option<String>, wanted: &str) -> (r: bool)
    ensures
        r == is_text(text.deep_view(), wanted@),
{
    match text {
        Some(t) => crate::text::text_eq(t.as_str(), wanted),
        None => false,
    }
}

/// Borrows an optional text.
pub fn as_text(text: &Option<String>) -> (r: Option<&str>)
    ensures
        r.deep_view() == text.deep_view(),
{
    match text {
        Some(t) => Some(t.as_str()),
        None => None,
    }
}

} // verus!
