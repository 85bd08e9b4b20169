//! Selectors: the sets of networks that ACL rules match on, the tables that
//! name them, and the search for selectors that overlap.

use crate::acl_cidr::{AclIpv4Cidr, CidrModel};
use crate::ordered::{ascending, in_order, Key, OrderedMap, Value};
use vstd::prelude::*;

verus! {

/// The place of a selector in its table; the first place stands for any address.
#[derive(Clone, Copy, Debug, PartialEq, Eq, Structural)]
pub struct AclSelectorId(pub usize);

impl DeepView for AclSelectorId {
    type V = AclSelectorId;

    open spec fn deep_view(&self) -> AclSelectorId {
        *self
    }
}

impl Value for AclSelectorId {
    fn duplicate(&self) -> (r: Self) {
        *self
    }

    fn same(&self, other: &Self) -> (r: bool) {
        *self == *other
    }
}

impl AclSelectorId {
    /// The place that stands for any address.
    pub fn any() -> (r: AclSelectorId)
        ensures
            r == AclSelectorId(0),
    {
        AclSelectorId(0)
    }

    /// The number of a selector among those that name networks.
    pub fn group_ordinal(self) -> (r: usize)
        requires
            self.0 >= 1,
        ensures
            r == self.0 - 1,
    {
        self.0 - 1
    }
}

/// A rule with its texts parsed and its networks sorted.
#[derive(Debug, PartialEq, Eq)]
pub struct CanonicalAclRule {
    pub id: String,
    pub direction: String,
    pub priority: i64,
    pub directions: Vec<u8>,
    pub proto: u8,
    pub action: u8,
    pub src_cidrs: Vec<AclIpv4Cidr>,
    pub dst_cidrs: Vec<AclIpv4Cidr>,
    pub ports: Vec<(u16, u16)>,
}

/// The model of [`CanonicalAclRule`].
#[verifier::ext_equal]
pub struct CanonicalAclRuleModel {
    pub id: Seq<char>,
    pub direction: Seq<char>,
    pub priority: i64,
    pub directions: Seq<u8>,
    pub proto: u8,
    pub action: u8,
    pub src_cidrs: Seq<CidrModel>,
    pub dst_cidrs: Seq<CidrModel>,
    pub ports: Seq<(u16, u16)>,
}

impl DeepView for CanonicalAclRule {
    type V = CanonicalAclRuleModel;

    open spec fn deep_view(&self) -> CanonicalAclRuleModel {
        CanonicalAclRuleModel {
            id: self.id.deep_view(),
            direction: self.direction.deep_view(),
            priority: self.priority,
            directions: self.directions.deep_view(),
            proto: self.proto,
            action: self.action,
            src_cidrs: self.src_cidrs.deep_view(),
            dst_cidrs: self.dst_cidrs.deep_view(),
            ports: self.ports.deep_view(),
        }
    }
}

impl Value for CanonicalAclRule {
    fn duplicate(&self) -> (r: Self) {
        CanonicalAclRule {
            id: self.id.duplicate(),
            direction: self.direction.duplicate(),
            priority: self.priority,
            directions: self.directions.duplicate(),
            proto: self.proto,
            action: self.action,
            src_cidrs: self.src_cidrs.duplicate(),
            dst_cidrs: self.dst_cidrs.duplicate(),
            ports: self.ports.duplicate(),
        }
    }

    fn same(&self, other: &Self) -> (r: bool) {
        self.id.same(&other.id)
            && self.direction.same(&other.direction)
            && self.priority == other.priority
            && self.directions.same(&other.directions)
            && self.proto == other.proto
            && self.action == other.action
            && self.src_cidrs.same(&other.src_cidrs)
            && self.dst_cidrs.same(&other.dst_cidrs)
            && self.ports.same(&other.ports)
    }
}

impl Clone for CanonicalAclRule {
    fn clone(&self) -> (r: Self)
        ensures
            r.deep_view() == self.deep_view(),
    {
        self.duplicate()
    }
}

/// A rule whose networks are named by their place in the selector tables.
#[derive(Debug, PartialEq, Eq)]
pub struct NormalizedAclRule {
    pub id: String,
    pub direction: String,
    pub priority: i64,
    pub directions: Vec<u8>,
    pub proto: u8,
    pub action: u8,
    pub src_selector_id: AclSelectorId,
    pub dst_selector_id: AclSelectorId,
    pub ports: Vec<(u16, u16)>,
}

/// The model of [`NormalizedAclRule`].
#[verifier::ext_equal]
pub struct NormalizedAclRuleModel {
    pub id: Seq<char>,
    pub direction: Seq<char>,
    pub priority: i64,
    pub directions: Seq<u8>,
    pub proto: u8,
    pub action: u8,
    pub src_selector_id: AclSelectorId,
    pub dst_selector_id: AclSelectorId,
    pub ports: Seq<(u16, u16)>,
}

impl DeepView for NormalizedAclRule {
    type V = NormalizedAclRuleModel;

    open spec fn deep_view(&self) -> NormalizedAclRuleModel {
        NormalizedAclRuleModel {
            id: self.id.deep_view(),
            direction: self.direction.deep_view(),
            priority: self.priority,
            directions: self.directions.deep_view(),
            proto: self.proto,
            action: self.action,
            src_selector_id: self.src_selector_id.deep_view(),
            dst_selector_id: self.dst_selector_id.deep_view(),
            ports: self.ports.deep_view(),
        }
    }
}

impl Value for NormalizedAclRule {
    fn duplicate(&self) -> (r: Self) {
        NormalizedAclRule {
            id: self.id.duplicate(),
            direction: self.direction.duplicate(),
            priority: self.priority,
            directions: self.directions.duplicate(),
            proto: self.proto,
            action: self.action,
            src_selector_id: self.src_selector_id.duplicate(),
            dst_selector_id: self.dst_selector_id.duplicate(),
            ports: self.ports.duplicate(),
        }
    }

    fn same(&self, other: &Self) -> (r: bool) {
        self.id.same(&other.id)
            && self.direction.same(&other.direction)
            && self.priority == other.priority
            && self.directions.same(&other.directions)
            && self.proto == other.proto
            && self.action == other.action
            && self.src_selector_id.same(&other.src_selector_id)
            && self.dst_selector_id.same(&other.dst_selector_id)
            && self.ports.same(&other.ports)
    }
}

impl Clone for NormalizedAclRule {
    fn clone(&self) -> (r: Self)
        ensures
            r.deep_view() == self.deep_view(),
    {
        self.duplicate()
    }
}

/// How the addresses of two table places relate once overlaps are ruled out.
#[derive(Clone, Copy, Debug, PartialEq, Eq, Structural)]
pub enum AclSelectorRelation {
    Identical,
    Disjoint,
    Intersecting,
}

/// Relates two places of one table whose selectors do not overlap.
pub open spec fn selector_relation(
    left: AclSelectorId,
    right: AclSelectorId,
) -> AclSelectorRelation {
    if left == right {
        AclSelectorRelation::Identical
    } else if left.0 == 0 || right.0 == 0 {
        AclSelectorRelation::Intersecting
    } else {
        AclSelectorRelation::Disjoint
    }
}

/// Relates two places of one table whose selectors do not overlap.
pub fn acl_selector_relation(left: AclSelectorId, right: AclSelectorId) -> (r: AclSelectorRelation)
    ensures
        r == selector_relation(left, right),
{
    if left == right {
        AclSelectorRelation::Identical
    } else if left.0 == 0 || right.0 == 0 {
        AclSelectorRelation::Intersecting
    } else {
        AclSelectorRelation::Disjoint
    }
}

/// True when an address lies in one of the networks of a selector.
pub open spec fn selector_covers(selector: Seq<CidrModel>, address: int) -> bool {
    exists|i: int| 0 <= i < selector.len() && (#[trigger] selector[i]).covers(address)
}

/// True when one network of a selector holds an address and the next one.
pub open spec fn selector_joins(selector: Seq<CidrModel>, address: int) -> bool {
    exists|i: int|
        0 <= i < selector.len() && (#[trigger] selector[i]).covers(address) && selector[i].covers(
            address + 1,
        )
}

/// True when an address lies in one of a list of intervals.
pub open spec fn interval_covers(intervals: Seq<(u32, u32)>, address: int) -> bool {
    exists|i: int|
        0 <= i < intervals.len() && (#[trigger] intervals[i]).0 <= address <= intervals[i].1
}

/// True when one interval of a list holds an address and the next one.
pub open spec fn interval_joins(intervals: Seq<(u32, u32)>, address: int) -> bool {
    exists|i: int|
        0 <= i < intervals.len() && (#[trigger] intervals[i]).0 <= address && address + 1
            <= intervals[i].1
}

/// True when the intervals are in ascending order without common addresses.
pub open spec fn intervals_apart(intervals: Seq<(u32, u32)>) -> bool {
    &&& forall|i: int| 0 <= i < intervals.len() ==> (#[trigger] intervals[i]).0 <= intervals[i].1
    &&& forall|i: int, j: int|
        0 <= i < j < intervals.len() ==> (#[trigger] intervals[i]).1 < (#[trigger] intervals[j]).0
}

type Span = (u32, u32, usize);

spec fn spans_sorted(spans: Seq<Span>) -> bool {
    forall|i: int, j: int|
        0 <= i < j < spans.len() ==> (#[trigger] spans[i]).0 <= (#[trigger] spans[j]).0
}

/// Merges two runs of spans that are sorted by their first address.
fn merge_spans(left: Vec<Span>, right: Vec<Span>) -> (r: Vec<Span>)
    requires
        spans_sorted(left@),
        spans_sorted(right@),
    ensures
        spans_sorted(r@),
        forall|s: Span| #[trigger] r@.contains(s) <==> (left@.contains(s) || right@.contains(s)),
{
    let mut r: Vec<Span> = Vec::new();
    let mut i: usize = 0;
    let mut j: usize = 0;
    while i < left.len() || j < right.len()
        invariant
            i <= left.len(),
            j <= right.len(),
            spans_sorted(left@),
            spans_sorted(right@),
            spans_sorted(r@),
            forall|k: int, m: int|
                0 <= k < r@.len() && i <= m < left.len() ==> (#[trigger] r@[k]).0 <= (
                #[trigger] left@[m]).0,
            forall|k: int, m: int|
                0 <= k < r@.len() && j <= m < right.len() ==> (#[trigger] r@[k]).0 <= (
                #[trigger] right@[m]).0,
            forall|k: int|
                0 <= k < r@.len() ==> left@.contains(#[trigger] r@[k]) || right@.contains(r@[k]),
            forall|m: int| 0 <= m < i ==> r@.contains(#[trigger] left@[m]),
            forall|m: int| 0 <= m < j ==> r@.contains(#[trigger] right@[m]),
        decreases left.len() - i + (right.len() - j),
    {
        let ghost before = r@;
        if j >= right.len() || (i < left.len() && left[i].0 <= right[j].0) {
            r.push(left[i]);
            assert(left@.contains(left@[i as int]));
            assert(r@[before.len() as int] == left@[i as int]);
            i += 1;
        } else {
            r.push(right[j]);
            assert(right@.contains(right@[j as int]));
            assert(r@[before.len() as int] == right@[j as int]);
            j += 1;
        }
        proof {
            assert forall|s: Span| before.contains(s) implies #[trigger] r@.contains(s) by {
                let k = before.index_of(s);
                assert(r@[k] == s);
            }
        }
    }
    proof {
        assert forall|s: Span| #[trigger] r@.contains(s) <==> (left@.contains(s)
            || right@.contains(s)) by {
            if r@.contains(s) {
                let k = r@.index_of(s);
                assert(r@[k] == s);
            }
            if left@.contains(s) {
                let k = left@.index_of(s);
                assert(left@[k] == s);
            }
            if right@.contains(s) {
                let k = right@.index_of(s);
                assert(right@[k] == s);
            }
        }
    }
    r
}

/// Sorts a run of spans by their first address.
fn sort_span_run(spans: &Vec<Span>, from: usize, to: usize) -> (r: Vec<Span>)
    requires
        from <= to <= spans.len(),
    ensures
        spans_sorted(r@),
        forall|s: Span| #[trigger]
            r@.contains(s) <==> spans@.subrange(from as int, to as int).contains(s),
    decreases to - from,
{
    let ghost run = spans@.subrange(from as int, to as int);
    if to - from <= 1 {
        let mut r: Vec<Span> = Vec::new();
        if from < to {
            r.push(spans[from]);
        }
        assert(r@ =~= run);
        return r;
    }
    let middle: usize = from + (to - from) / 2;
    let left = sort_span_run(spans, from, middle);
    let right = sort_span_run(spans, middle, to);
    let r = merge_spans(left, right);
    proof {
        let a = spans@.subrange(from as int, middle as int);
        let b = spans@.subrange(middle as int, to as int);
        assert(run =~= a + b);
        assert forall|s: Span| #[trigger] r@.contains(s) <==> run.contains(s) by {
            if a.contains(s) {
                assert(left@.contains(s));
                assert(run[a.index_of(s)] == s);
            }
            if b.contains(s) {
                assert(right@.contains(s));
                assert(run[a.len() + b.index_of(s)] == s);
            }
            if run.contains(s) {
                let k = run.index_of(s);
                if k < a.len() {
                    assert(a[k] == s);
                } else {
                    assert(b[k - a.len()] == s);
                }
                assert(left@.contains(s) || right@.contains(s));
            }
        }
    }
    r
}

fn sort_spans(spans: &Vec<Span>) -> (r: Vec<Span>)
    ensures
        spans_sorted(r@),
        forall|s: Span| #[trigger] r@.contains(s) <==> spans@.contains(s),
{
    assert(spans@.subrange(0, spans@.len() as int) =~= spans@);
    sort_span_run(spans, 0, spans.len())
}

/// The stretches of addresses that the networks of a selector connect.
#[verifier::rlimit(40)]
pub fn acl_selector_intervals(selector: &[AclIpv4Cidr]) -> (r: Vec<(u32, u32)>)
    ensures
        intervals_apart(r@),
        forall|x: int| #[trigger] interval_covers(r@, x) <==> selector_covers(
            selector.deep_view(),
            x,
        ),
        forall|x: int| #[trigger] interval_joins(r@, x) <==> selector_joins(selector.deep_view(), x),
{
    let ghost models = selector.deep_view();
    let mut spans: Vec<Span> = Vec::new();
    let mut i: usize = 0;
    while i < selector.len()
        invariant
            i <= selector.len(),
            models == selector.deep_view(),
            spans.len() == i,
            forall|k: int|
                0 <= k < i ==> (#[trigger] spans@[k]).0 == models[k].network && spans@[k].1
                    == models[k].end() && spans@[k].2 == 0 && models[k].valid(),
        decreases selector.len() - i,
    {
        let cidr = selector[i];
        assert(models[i as int] == cidr.deep_view());
        spans.push((cidr.network(), cidr.end(), 0));
        i += 1;
    }
    let sorted = sort_spans(&spans);
    proof {
        assert forall|k: int| 0 <= k < sorted@.len() implies exists|m: int|
            0 <= m < models.len() && (#[trigger] sorted@[k]).0 == (#[trigger] models[m]).network
                && sorted@[k].1 == models[m].end() && models[m].valid() by {
            assert(sorted@.contains(sorted@[k]));
            let m = spans@.index_of(sorted@[k]);
            assert(spans@[m] == sorted@[k]);
            assert(models[m].valid());
        }
        assert forall|m: int| 0 <= m < models.len() implies exists|k: int|
            0 <= k < sorted@.len() && (#[trigger] sorted@[k]).0 == (#[trigger] models[m]).network
                && sorted@[k].1 == models[m].end() by {
            assert(spans@.contains(spans@[m]));
            assert(sorted@.contains(spans@[m]));
            let k = sorted@.index_of(spans@[m]);
            assert(sorted@[k] == spans@[m]);
        }
        assert forall|k: int| 0 <= k < sorted@.len() implies (#[trigger] sorted@[k]).0
            <= sorted@[k].1 by {
            let m = choose|m: int|
                0 <= m < models.len() && sorted@[k].0 == (#[trigger] models[m]).network
                    && sorted@[k].1 == models[m].end() && models[m].valid();
            crate::acl_cidr::lemma_block_positive((32 - models[m].prefix) as nat);
        }
    }
    let r = connect_spans(&sorted);
    proof {
        assert forall|x: int| #[trigger] interval_covers(r@, x) <==> selector_covers(models, x) by {
            assert(interval_covers(r@, x) <==> span_covers(sorted@, x));
            if span_covers(sorted@, x) {
                let k = choose|k: int|
                    0 <= k < sorted@.len() && (#[trigger] sorted@[k]).0 <= x <= sorted@[k].1;
                let m = choose|m: int|
                    0 <= m < models.len() && sorted@[k].0 == (#[trigger] models[m]).network
                        && sorted@[k].1 == models[m].end();
                assert(models[m].covers(x));
            }
            if selector_covers(models, x) {
                let m = choose|m: int|
                    0 <= m < models.len() && (#[trigger] models[m]).covers(x);
                let k = choose|k: int|
                    0 <= k < sorted@.len() && (#[trigger] sorted@[k]).0 == models[m].network
                        && sorted@[k].1 == models[m].end();
                assert(sorted@[k].0 <= x <= sorted@[k].1);
            }
        }
        assert forall|x: int| #[trigger] interval_joins(r@, x) <==> selector_joins(models, x) by {
            assert(interval_joins(r@, x) <==> span_joins(sorted@, x));
            if span_joins(sorted@, x) {
                let k = choose|k: int|
                    0 <= k < sorted@.len() && (#[trigger] sorted@[k]).0 <= x && x + 1
                        <= sorted@[k].1;
                let m = choose|m: int|
                    0 <= m < models.len() && sorted@[k].0 == (#[trigger] models[m]).network
                        && sorted@[k].1 == models[m].end();
                assert(models[m].covers(x) && models[m].covers(x + 1));
            }
            if selector_joins(models, x) {
                let m = choose|m: int|
                    0 <= m < models.len() && (#[trigger] models[m]).covers(x) && models[m].covers(
                        x + 1,
                    );
                let k = choose|k: int|
                    0 <= k < sorted@.len() && (#[trigger] sorted@[k]).0 == models[m].network
                        && sorted@[k].1 == models[m].end();
                assert(sorted@[k].0 <= x && x + 1 <= sorted@[k].1);
            }
        }
    }
    r
}

spec fn span_covers(spans: Seq<Span>, address: int) -> bool {
    exists|i: int| 0 <= i < spans.len() && (#[trigger] spans[i]).0 <= address <= spans[i].1
}

spec fn span_joins(spans: Seq<Span>, address: int) -> bool {
    exists|i: int|
        0 <= i < spans.len() && (#[trigger] spans[i]).0 <= address && address + 1 <= spans[i].1
}

/// Connects sorted spans that have addresses in common.
fn connect_spans(sorted: &Vec<Span>) -> (r: Vec<(u32, u32)>)
    requires
        spans_sorted(sorted@),
        forall|k: int| 0 <= k < sorted@.len() ==> (#[trigger] sorted@[k]).0 <= sorted@[k].1,
    ensures
        intervals_apart(r@),
        forall|x: int| #[trigger] interval_covers(r@, x) <==> span_covers(sorted@, x),
        forall|x: int| #[trigger] interval_joins(r@, x) <==> span_joins(sorted@, x),
{
    let mut r: Vec<(u32, u32)> = Vec::new();
    let mut i: usize = 0;
    while i < sorted.len()
        invariant
            i <= sorted.len(),
            spans_sorted(sorted@),
            forall|k: int| 0 <= k < sorted@.len() ==> (#[trigger] sorted@[k]).0 <= sorted@[k].1,
            intervals_apart(r@),
            i == 0 <==> r@.len() == 0,
            forall|k: int, m: int|
                0 <= k < r@.len() && i <= m < sorted@.len() ==> (#[trigger] r@[k]).0 <= (
                #[trigger] sorted@[m]).0,
            forall|x: int| #[trigger]
                interval_covers(r@, x) <==> span_covers(sorted@.take(i as int), x),
            forall|x: int| #[trigger]
                interval_joins(r@, x) <==> span_joins(sorted@.take(i as int), x),
        decreases sorted.len() - i,
    {
        let start: u32 = sorted[i].0;
        let end: u32 = sorted[i].1;
        let ghost before = r@;
        let ghost done = sorted@.take(i as int);
        let ghost next = sorted@.take(i + 1);
        proof {
            assert(next =~= done.push(sorted@[i as int]));
        }
        let n: usize = r.len();
        if n > 0 && start <= r[n - 1].1 {
            let previous = r[n - 1];
            if end > previous.1 {
                r[n - 1] = (previous.0, end);
            }
            let ghost last = n - 1;
            proof {
                assert(r@.len() == before.len());
                assert(r@[last].0 == before[last].0);
                assert(before[last].0 <= start);
                assert forall|x: int| #[trigger] interval_covers(r@, x) <==> span_covers(next, x) by {
                    assert(interval_covers(before, x) <==> span_covers(done, x));
                    lemma_span_push(done, sorted@[i as int], x);
                    if interval_covers(r@, x) {
                        let k = choose|k: int|
                            0 <= k < r@.len() && (#[trigger] r@[k]).0 <= x <= r@[k].1;
                        if k == last && x > before[last].1 {
                            assert(start <= x <= end);
                        } else {
                            assert(before[k].0 <= x <= before[k].1);
                        }
                    }
                    if interval_covers(before, x) {
                        let k = choose|k: int|
                            0 <= k < before.len() && (#[trigger] before[k]).0 <= x <= before[k].1;
                        assert(r@[k].0 <= x <= r@[k].1);
                    }
                    if start <= x <= end {
                        assert(r@[last].0 <= x <= r@[last].1);
                    }
                }
                assert forall|x: int| #[trigger] interval_joins(r@, x) <==> span_joins(next, x) by {
                    assert(interval_joins(before, x) <==> span_joins(done, x));
                    lemma_span_push(done, sorted@[i as int], x);
                    if interval_joins(r@, x) {
                        let k = choose|k: int|
                            0 <= k < r@.len() && (#[trigger] r@[k]).0 <= x && x + 1 <= r@[k].1;
                        if k == last && x + 1 > before[last].1 {
                            assert(start <= x && x + 1 <= end);
                        } else {
                            assert(before[k].0 <= x && x + 1 <= before[k].1);
                        }
                    }
                    if interval_joins(before, x) {
                        let k = choose|k: int|
                            0 <= k < before.len() && (#[trigger] before[k]).0 <= x && x + 1
                                <= before[k].1;
                        assert(r@[k].0 <= x && x + 1 <= r@[k].1);
                    }
                    if start <= x && x + 1 <= end {
                        assert(r@[last].0 <= x && x + 1 <= r@[last].1);
                    }
                }
            }
        } else {
            r.push((start, end));
            proof {
                let last = before.len() as int;
                assert(r@[last] == (start, end));
                assert(forall|k: int| 0 <= k < last ==> r@[k] == before[k]);
                assert forall|x: int| #[trigger] interval_covers(r@, x) <==> span_covers(next, x) by {
                    assert(interval_covers(before, x) <==> span_covers(done, x));
                    lemma_span_push(done, sorted@[i as int], x);
                    if interval_covers(r@, x) {
                        let k = choose|k: int|
                            0 <= k < r@.len() && (#[trigger] r@[k]).0 <= x <= r@[k].1;
                        if k < last {
                            assert(before[k].0 <= x <= before[k].1);
                        }
                    }
                    if interval_covers(before, x) {
                        let k = choose|k: int|
                            0 <= k < before.len() && (#[trigger] before[k]).0 <= x <= before[k].1;
                        assert(r@[k].0 <= x <= r@[k].1);
                    }
                    if start <= x <= end {
                        assert(r@[last].0 <= x <= r@[last].1);
                    }
                }
                assert forall|x: int| #[trigger] interval_joins(r@, x) <==> span_joins(next, x) by {
                    assert(interval_joins(before, x) <==> span_joins(done, x));
                    lemma_span_push(done, sorted@[i as int], x);
                    if interval_joins(r@, x) {
                        let k = choose|k: int|
                            0 <= k < r@.len() && (#[trigger] r@[k]).0 <= x && x + 1 <= r@[k].1;
                        if k < last {
                            assert(before[k].0 <= x && x + 1 <= before[k].1);
                        }
                    }
                    if interval_joins(before, x) {
                        let k = choose|k: int|
                            0 <= k < before.len() && (#[trigger] before[k]).0 <= x && x + 1
                                <= before[k].1;
                        assert(r@[k].0 <= x && x + 1 <= r@[k].1);
                    }
                    if start <= x && x + 1 <= end {
                        assert(r@[last].0 <= x && x + 1 <= r@[last].1);
                    }
                }
            }
        }
        i += 1;
    }
    assert(sorted@.take(i as int) =~= sorted@);
    r
}

proof fn lemma_span_push(spans: Seq<Span>, span: Span, x: int)
    ensures
        span_covers(spans.push(span), x) <==> (span_covers(spans, x) || span.0 <= x <= span.1),
        span_joins(spans.push(span), x) <==> (span_joins(spans, x) || (span.0 <= x && x + 1
            <= span.1)),
{
    let more = spans.push(span);
    assert(more[spans.len() as int] == span);
    if span_covers(spans, x) {
        let k = choose|k: int| 0 <= k < spans.len() && (#[trigger] spans[k]).0 <= x <= spans[k].1;
        assert(more[k].0 <= x <= more[k].1);
    }
    if span_covers(more, x) {
        let k = choose|k: int| 0 <= k < more.len() && (#[trigger] more[k]).0 <= x <= more[k].1;
        if k < spans.len() {
            assert(spans[k].0 <= x <= spans[k].1);
        }
    }
    if span_joins(spans, x) {
        let k = choose|k: int|
            0 <= k < spans.len() && (#[trigger] spans[k]).0 <= x && x + 1 <= spans[k].1;
        assert(more[k].0 <= x && x + 1 <= more[k].1);
    }
    if span_joins(more, x) {
        let k = choose|k: int|
            0 <= k < more.len() && (#[trigger] more[k]).0 <= x && x + 1 <= more[k].1;
        if k < spans.len() {
            assert(spans[k].0 <= x && x + 1 <= spans[k].1);
        }
    }
}

/// True when a selector names networks and some rule uses it.
pub open spec fn selector_used(
    selectors: Seq<Seq<CidrModel>>,
    first_rules: Seq<Option<usize>>,
    id: int,
) -> bool {
    1 <= id < selectors.len() && id < first_rules.len() && first_rules[id] is Some
}

/// True when two different selectors in use have an address in common.
pub open spec fn selectors_overlap(
    selectors: Seq<Seq<CidrModel>>,
    first_rules: Seq<Option<usize>>,
    i: int,
    j: int,
) -> bool {
    &&& i != j
    &&& selector_used(selectors, first_rules, i)
    &&& selector_used(selectors, first_rules, j)
    &&& exists|x: int| #[trigger]
        selector_covers(selectors[i], x) && selector_covers(selectors[j], x)
}

/// The first rules of two selectors, the earlier one first.
pub open spec fn rule_pair(first_rules: Seq<Option<usize>>, i: int, j: int) -> (usize, usize) {
    let a = first_rules[i]->0;
    let b = first_rules[j]->0;
    if a < b {
        (a, b)
    } else {
        (b, a)
    }
}

/// True when one pair of rules comes strictly before another.
pub open spec fn pair_before(a: (usize, usize), b: (usize, usize)) -> bool {
    a.0 < b.0 || (a.0 == b.0 && a.1 < b.1)
}

/// True when no overlap has an earlier pair of rules than `pair`, and one has it.
pub open spec fn is_best_overlap(
    selectors: Seq<Seq<CidrModel>>,
    first_rules: Seq<Option<usize>>,
    pair: (usize, usize),
) -> bool {
    &&& exists|i: int, j: int| #[trigger]
        selectors_overlap(selectors, first_rules, i, j) && rule_pair(first_rules, i, j) == pair
    &&& forall|i: int, j: int| #[trigger]
        selectors_overlap(selectors, first_rules, i, j) ==> !pair_before(
            rule_pair(first_rules, i, j),
            pair,
        )
}

/// The earliest pair of rules whose different selectors have an address in common.
pub open spec fn best_overlap(
    selectors: Seq<Seq<CidrModel>>,
    first_rules: Seq<Option<usize>>,
) -> Option<(usize, usize)> {
    if exists|i: int, j: int| #[trigger] selectors_overlap(selectors, first_rules, i, j) {
        Some(choose|pair: (usize, usize)| is_best_overlap(selectors, first_rules, pair))
    } else {
        None
    }
}

/// Two best pairs are the same pair.
proof fn lemma_best_is(
    selectors: Seq<Seq<CidrModel>>,
    first_rules: Seq<Option<usize>>,
    pair: (usize, usize),
)
    requires
        is_best_overlap(selectors, first_rules, pair),
    ensures
        best_overlap(selectors, first_rules) == Some(pair),
{
    let other = choose|pair: (usize, usize)| is_best_overlap(selectors, first_rules, pair);
    assert(is_best_overlap(selectors, first_rules, other));
    let (i, j) = choose|i: int, j: int| #[trigger]
        selectors_overlap(selectors, first_rules, i, j) && rule_pair(first_rules, i, j) == pair;
    let (k, m) = choose|k: int, m: int| #[trigger]
        selectors_overlap(selectors, first_rules, k, m) && rule_pair(first_rules, k, m) == other;
    assert(!pair_before(rule_pair(first_rules, i, j), other));
    assert(!pair_before(rule_pair(first_rules, k, m), pair));
}

/// True when spans carry the addresses of the selectors in use below `upto`.
spec fn spans_of(
    spans: Seq<Span>,
    selectors: Seq<Seq<CidrModel>>,
    first_rules: Seq<Option<usize>>,
    upto: int,
) -> bool {
    &&& forall|k: int|
        0 <= k < spans.len() ==> (#[trigger] spans[k]).0 <= spans[k].1 && spans[k].2 < upto
            && selector_used(selectors, first_rules, spans[k].2 as int)
    &&& forall|k: int, x: int|
        0 <= k < spans.len() && (#[trigger] spans[k]).0 <= x <= spans[k].1
            ==> #[trigger] selector_covers(selectors[spans[k].2 as int], x)
    &&& forall|id: int, x: int|
        0 <= id < upto && selector_used(selectors, first_rules, id) && #[trigger] selector_covers(
            selectors[id],
            x,
        ) ==> spanned(spans, id, x)
}

spec fn spanned(spans: Seq<Span>, id: int, x: int) -> bool {
    exists|k: int|
        0 <= k < spans.len() && (#[trigger] spans[k]).2 == id && spans[k].0 <= x <= spans[k].1
}

/// The spans of every selector in use.
fn collect_spans(selectors: &[Vec<AclIpv4Cidr>], first_rules: &[Option<usize>]) -> (r: Vec<Span>)
    ensures
        spans_of(r@, selectors.deep_view(), first_rules@, selectors.deep_view().len() as int),
{
    let ghost models = selectors.deep_view();
    let mut spans: Vec<Span> = Vec::new();
    let mut id: usize = 1;
    if selectors.len() == 0 {
        return spans;
    }
    while id < selectors.len()
        invariant
            1 <= id <= selectors.len(),
            models == selectors.deep_view(),
            models.len() == selectors.len(),
            spans_of(spans@, models, first_rules@, id as int),
        decreases selectors.len() - id,
    {
        assert(models[id as int] == selectors@[id as int].deep_view());
        if id < first_rules.len() && first_rules[id].is_some() {
            let intervals = acl_selector_intervals(selectors[id].as_slice());
            let ghost before = spans@;
            let mut k: usize = 0;
            assert(selector_used(models, first_rules@, id as int));
            while k < intervals.len()
                invariant
                    k <= intervals.len(),
                    models == selectors.deep_view(),
                    id < models.len(),
                    selector_used(models, first_rules@, id as int),
                    intervals_apart(intervals@),
                    spans_of(before, models, first_rules@, id as int),
                    spans@.len() == before.len() + k,
                    forall|m: int| 0 <= m < before.len() ==> #[trigger] spans@[m] == before[m],
                    forall|m: int|
                        0 <= m < k ==> #[trigger] spans@[before.len() + m] == (
                            intervals@[m].0,
                            intervals@[m].1,
                            id,
                        ),
                decreases intervals.len() - k,
            {
                spans.push((intervals[k].0, intervals[k].1, id));
                k += 1;
            }
            proof {
                let n = before.len() as int;
                assert forall|m: int| 0 <= m < spans@.len() implies (#[trigger] spans@[m]).0
                    <= spans@[m].1 && spans@[m].2 < id + 1 && selector_used(
                    models,
                    first_rules@,
                    spans@[m].2 as int,
                ) by {
                    if m < n {
                        assert(spans@[m] == before[m]);
                    } else {
                        assert(spans@[n + (m - n)] == (intervals@[m - n].0, intervals@[m - n].1, id));
                    }
                }
                assert forall|m: int, x: int|
                    0 <= m < spans@.len() && (#[trigger] spans@[m]).0 <= x
                        <= spans@[m].1 implies #[trigger] selector_covers(
                    models[spans@[m].2 as int],
                    x,
                ) by {
                    if m < n {
                        assert(spans@[m] == before[m]);
                        assert(before[m].0 <= x <= before[m].1);
                    } else {
                        assert(spans@[n + (m - n)] == (intervals@[m - n].0, intervals@[m - n].1, id));
                        assert(intervals@[m - n].0 <= x <= intervals@[m - n].1);
                        assert(interval_covers(intervals@, x));
                    }
                }
                assert forall|i: int, x: int|
                    0 <= i < id + 1 && selector_used(models, first_rules@, i)
                        && #[trigger] selector_covers(models[i], x) implies spanned(
                    spans@,
                    i,
                    x,
                ) by {
                    if i < id {
                        assert(spanned(before, i, x));
                        let m = choose|m: int|
                            0 <= m < before.len() && (#[trigger] before[m]).2 == i && before[m].0
                                <= x <= before[m].1;
                        assert(spans@[m].2 == i);
                    } else {
                        assert(interval_covers(intervals@, x));
                        let m = choose|m: int|
                            0 <= m < intervals@.len() && (#[trigger] intervals@[m]).0 <= x
                                <= intervals@[m].1;
                        assert(spans@[n + m].2 == i);
                    }
                }
            }
        } else {
            proof {
                assert(!selector_used(models, first_rules@, id as int));
                assert forall|i: int, x: int|
                    0 <= i < id + 1 && selector_used(models, first_rules@, i)
                        && #[trigger] selector_covers(models[i], x) implies spanned(
                    spans@,
                    i,
                    x,
                ) by {}
            }
        }
        id += 1;
    }
    spans
}

/// The earliest first rule among active spans of other selectors.
fn earliest_other(active: &Vec<(u32, usize)>, first_rules: &[Option<usize>], id: usize) -> (r: Option<
    (usize, usize),
>)
    requires
        forall|k: int|
            0 <= k < active@.len() ==> (#[trigger] active@[k]).1 < first_rules@.len()
                && first_rules@[active@[k].1 as int] is Some,
    ensures
        match r {
            Some((first, place)) => place < active@.len() && active@[place as int].1 != id
                && first_rules@[active@[place as int].1 as int] == Some(first) && forall|k: int|
                0 <= k < active@.len() && (#[trigger] active@[k]).1 != id ==> first
                    <= first_rules@[active@[k].1 as int]->0,
            None => forall|k: int| 0 <= k < active@.len() ==> (#[trigger] active@[k]).1 == id,
        },
{
    let mut r: Option<(usize, usize)> = None;
    let mut i: usize = 0;
    while i < active.len()
        invariant
            i <= active.len(),
            forall|k: int|
                0 <= k < active@.len() ==> (#[trigger] active@[k]).1 < first_rules@.len()
                    && first_rules@[active@[k].1 as int] is Some,
            match r {
                Some((first, place)) => place < active@.len() && active@[place as int].1 != id
                    && first_rules@[active@[place as int].1 as int] == Some(first) && forall|k: int|
                    0 <= k < i && (#[trigger] active@[k]).1 != id ==> first
                        <= first_rules@[active@[k].1 as int]->0,
                None => forall|k: int| 0 <= k < i ==> (#[trigger] active@[k]).1 == id,
            },
        decreases active.len() - i,
    {
        let other: usize = active[i].1;
        if other != id {
            if let Some(first) = first_rules[other] {
                let earlier = match r {
                    Some((best, _)) => first < best,
                    None => true,
                };
                if earlier {
                    r = Some((first, i));
                }
            }
        }
        i += 1;
    }
    r
}

/// The spans that reach an address or go past it.
fn still_active(active: &Vec<(u32, usize)>, start: u32) -> (r: Vec<(u32, usize)>)
    ensures
        forall|k: int|
            0 <= k < r@.len() ==> active@.contains(#[trigger] r@[k]) && r@[k].0 >= start,
        forall|k: int|
            0 <= k < active@.len() && (#[trigger] active@[k]).0 >= start ==> r@.contains(active@[k]),
{
    let mut r: Vec<(u32, usize)> = Vec::new();
    let mut i: usize = 0;
    while i < active.len()
        invariant
            i <= active.len(),
            forall|k: int|
                0 <= k < r@.len() ==> active@.contains(#[trigger] r@[k]) && r@[k].0 >= start,
            forall|k: int|
                0 <= k < i && (#[trigger] active@[k]).0 >= start ==> r@.contains(active@[k]),
        decreases active.len() - i,
    {
        if active[i].0 >= start {
            let ghost before = r@;
            r.push(active[i]);
            proof {
                assert(r@[before.len() as int] == active@[i as int]);
                assert forall|k: int|
                    0 <= k < i && (#[trigger] active@[k]).0 >= start implies r@.contains(
                    active@[k],
                ) by {
                    let m = before.index_of(active@[k]);
                    assert(r@[m] == active@[k]);
                }
            }
        }
        i += 1;
    }
    r
}

/// True when the spans at two places of a sorted run have an address in common.
spec fn spans_meet(spans: Seq<Span>, m: int, n: int) -> bool {
    0 <= m < n < spans.len() && spans[m].2 != spans[n].2 && spans[n].0 <= spans[m].1
}

/// Finds the earliest pair of rules whose different selectors have an address
/// in common, by a sweep over the addresses.
pub fn acl_selector_best_overlap(
    selectors: &[Vec<AclIpv4Cidr>],
    first_rule_indexes: &[Option<usize>],
) -> (r: Option<(usize, usize)>)
    ensures
        r == best_overlap(selectors.deep_view(), first_rule_indexes@),
{
    let ghost models = selectors.deep_view();
    let ghost firsts = first_rule_indexes@;
    let collected = collect_spans(selectors, first_rule_indexes);
    let spans = sort_spans(&collected);
    proof {
        lemma_sorted_spans(collected@, spans@, models, firsts);
    }
    let mut active: Vec<(u32, usize)> = Vec::new();
    let mut best: Option<(usize, usize)> = None;
    let mut i: usize = 0;
    while i < spans.len()
        invariant
            i <= spans.len(),
            models == selectors.deep_view(),
            firsts == first_rule_indexes@,
            spans_sorted(spans@),
            spans_of(spans@, models, firsts, models.len() as int),
            forall|k: int|
                0 <= k < active@.len() ==> exists|m: int|
                    0 <= m < i && (#[trigger] spans@[m]).1 == (#[trigger] active@[k]).0
                        && spans@[m].2 == active@[k].1,
            forall|m: int|
                0 <= m < i && i < spans@.len() && (#[trigger] spans@[m]).1 >= spans@[i as int].0
                    ==> active@.contains((spans@[m].1, spans@[m].2)),
            best matches Some(pair) ==> exists|a: int, b: int| #[trigger]
                selectors_overlap(models, firsts, a, b) && rule_pair(firsts, a, b) == pair,
            forall|m: int, n: int| #[trigger]
                spans_meet(spans@, m, n) && n < i ==> best is Some && !pair_before(
                    rule_pair(firsts, spans@[m].2 as int, spans@[n].2 as int),
                    best->0,
                ),
        decreases spans.len() - i,
    {
        let start: u32 = spans[i].0;
        let end: u32 = spans[i].1;
        let id: usize = spans[i].2;
        let ghost old_active = active@;
        let ghost old_best = best;
        active = still_active(&active, start);
        proof {
            assert forall|k: int| 0 <= k < active@.len() implies exists|m: int|
                0 <= m < i && (#[trigger] spans@[m]).1 == (#[trigger] active@[k]).0
                    && spans@[m].2 == active@[k].1 by {
                let p = old_active.index_of(active@[k]);
                assert(old_active[p] == active@[k]);
            }
        }
        assert forall|k: int| 0 <= k < active@.len() implies (#[trigger] active@[k]).1
            < firsts.len() && firsts[active@[k].1 as int] is Some by {
            let m = choose|m: int|
                0 <= m < i && (#[trigger] spans@[m]).1 == active@[k].0 && spans@[m].2
                    == active@[k].1;
            assert(selector_used(models, firsts, spans@[m].2 as int));
        }
        assert(selector_used(models, firsts, spans@[i as int].2 as int));
        let other = earliest_other(&active, first_rule_indexes, id);
        if let Some((other_first, place)) = other {
            if let Some(first) = first_rule_indexes[id] {
                let candidate = if first < other_first {
                    (first, other_first)
                } else {
                    (other_first, first)
                };
                proof {
                    let m = choose|m: int|
                        0 <= m < i && (#[trigger] spans@[m]).1 == active@[place as int].0
                            && spans@[m].2 == active@[place as int].1;
                    let a = id as int;
                    let b = spans@[m].2 as int;
                    assert(spans@[m].0 <= spans@[i as int].0);
                    assert(spans@[m].0 <= start <= spans@[m].1);
                    assert(spans@[i as int].0 <= start <= spans@[i as int].1);
                    assert(selector_covers(models[a], start as int));
                    assert(selector_covers(models[b], start as int));
                    assert(selectors_overlap(models, firsts, a, b));
                    assert(rule_pair(firsts, a, b) == candidate);
                }
                let earlier = match best {
                    Some(current) => candidate.0 < current.0 || (candidate.0 == current.0
                        && candidate.1 < current.1),
                    None => true,
                };
                if earlier {
                    best = Some(candidate);
                }
            }
        }
        proof {
            assert forall|m: int, n: int| #[trigger]
                spans_meet(spans@, m, n) && n < i + 1 implies best is Some && !pair_before(
                rule_pair(firsts, spans@[m].2 as int, spans@[n].2 as int),
                best->0,
            ) by {
                if n == i {
                    assert(spans@[m].1 >= start);
                    assert(old_active.contains((spans@[m].1, spans@[m].2)));
                    let p = old_active.index_of((spans@[m].1, spans@[m].2));
                    assert(old_active[p].0 >= start);
                    assert(active@.contains(old_active[p]));
                    let q = active@.index_of(old_active[p]);
                    assert(active@[q].1 == spans@[m].2);
                    assert(active@[q].1 != id);
                }
            }
        }
        let ghost before_push = active@;
        active.push((end, id));
        proof {
            assert forall|k: int| 0 <= k < active@.len() implies exists|m: int|
                0 <= m < i + 1 && (#[trigger] spans@[m]).1 == (#[trigger] active@[k]).0
                    && spans@[m].2 == active@[k].1 by {
                if k < before_push.len() {
                    assert(active@[k] == before_push[k]);
                } else {
                    assert(spans@[i as int].1 == active@[k].0);
                }
            }
            assert forall|m: int|
                0 <= m < i + 1 && i + 1 < spans@.len() && (#[trigger] spans@[m]).1 >= spans@[i
                    + 1].0 implies active@.contains((spans@[m].1, spans@[m].2)) by {
                assert(spans@[i as int].0 <= spans@[i + 1].0);
                if m < i {
                    assert(spans@[m].1 >= start);
                    assert(old_active.contains((spans@[m].1, spans@[m].2)));
                    let p = old_active.index_of((spans@[m].1, spans@[m].2));
                    assert(old_active[p].0 >= start);
                    assert(before_push.contains(old_active[p]));
                    let q = before_push.index_of(old_active[p]);
                    assert(active@[q] == (spans@[m].1, spans@[m].2));
                } else {
                    assert(active@[before_push.len() as int] == (spans@[m].1, spans@[m].2));
                }
            }
        }
        i += 1;
    }
    proof {
        assert forall|a: int, b: int| #[trigger] selectors_overlap(models, firsts, a, b) implies best
            is Some && !pair_before(rule_pair(firsts, a, b), best->0) by {
            let x = choose|x: int| #[trigger]
                selector_covers(models[a], x) && selector_covers(models[b], x);
            assert(spanned(spans@, a, x));
            assert(spanned(spans@, b, x));
            let m = choose|m: int|
                0 <= m < spans@.len() && (#[trigger] spans@[m]).2 == a && spans@[m].0 <= x
                    <= spans@[m].1;
            let n = choose|n: int|
                0 <= n < spans@.len() && (#[trigger] spans@[n]).2 == b && spans@[n].0 <= x
                    <= spans@[n].1;
            if m < n {
                assert(spans_meet(spans@, m, n));
            } else {
                assert(spans_meet(spans@, n, m));
            }
        }
        if best is Some {
            assert(is_best_overlap(models, firsts, best->0));
            lemma_best_is(models, firsts, best->0);
        }
    }
    best
}

proof fn lemma_sorted_spans(
    collected: Seq<Span>,
    sorted: Seq<Span>,
    selectors: Seq<Seq<CidrModel>>,
    first_rules: Seq<Option<usize>>,
)
    requires
        spans_of(collected, selectors, first_rules, selectors.len() as int),
        forall|s: Span| #[trigger] sorted.contains(s) <==> collected.contains(s),
    ensures
        spans_of(sorted, selectors, first_rules, selectors.len() as int),
{
    assert forall|k: int| 0 <= k < sorted.len() implies exists|m: int|
        0 <= m < collected.len() && #[trigger] collected[m] == #[trigger] sorted[k] by {
        assert(sorted.contains(sorted[k]));
        let m = collected.index_of(sorted[k]);
        assert(collected[m] == sorted[k]);
    }
    assert forall|id: int, x: int|
        0 <= id < selectors.len() && selector_used(selectors, first_rules, id)
            && #[trigger] selector_covers(selectors[id], x) implies spanned(sorted, id, x) by {
        assert(spanned(collected, id, x));
        let m = choose|m: int|
            0 <= m < collected.len() && (#[trigger] collected[m]).2 == id && collected[m].0 <= x
                <= collected[m].1;
        assert(sorted.contains(collected[m]));
        let k = sorted.index_of(collected[m]);
        assert(sorted[k].2 == id);
    }
}

/// The selectors with networks that rules use on one side.
pub open spec fn used_selectors(selectors: Seq<Seq<CidrModel>>) -> Set<Seq<CidrModel>> {
    Set::new(|s: Seq<CidrModel>| s.len() > 0 && selectors.contains(s))
}

/// The table of one side: the empty selector first, then those in use in order.
pub open spec fn selector_table(selectors: Seq<Seq<CidrModel>>) -> Seq<Seq<CidrModel>> {
    seq![Seq::<CidrModel>::empty()] + in_order::<Vec<AclIpv4Cidr>>(used_selectors(selectors))
}

/// The source selectors of rules.
pub open spec fn src_of(rules: Seq<CanonicalAclRuleModel>) -> Seq<Seq<CidrModel>> {
    rules.map_values(|rule: CanonicalAclRuleModel| rule.src_cidrs)
}

/// The destination selectors of rules.
pub open spec fn dst_of(rules: Seq<CanonicalAclRuleModel>) -> Seq<Seq<CidrModel>> {
    rules.map_values(|rule: CanonicalAclRuleModel| rule.dst_cidrs)
}

fn table_of(members: &OrderedMap<Vec<AclIpv4Cidr>, bool>) -> (r: Vec<Vec<AclIpv4Cidr>>)
    ensures
        r.deep_view() == seq![Seq::<CidrModel>::empty()] + in_order::<Vec<AclIpv4Cidr>>(
            members.deep_view().dom(),
        ),
{
    let mut r: Vec<Vec<AclIpv4Cidr>> = Vec::new();
    let first: Vec<AclIpv4Cidr> = Vec::new();
    assert(first.deep_view() =~= Seq::<CidrModel>::empty());
    r.push(first);
    let ghost keys = in_order::<Vec<AclIpv4Cidr>>(members.deep_view().dom());
    let n: usize = members.len();
    let mut i: usize = 0;
    assert(r.deep_view() =~= seq![Seq::<CidrModel>::empty()] + keys.take(0));
    while i < n
        invariant
            i <= n,
            n == keys.len(),
            keys == in_order::<Vec<AclIpv4Cidr>>(members.deep_view().dom()),
            r.deep_view() == seq![Seq::<CidrModel>::empty()] + keys.take(i as int),
        decreases n - i,
    {
        let ghost before = r.deep_view();
        let selector = members.key_at(i).duplicate();
        r.push(selector);
        assert(r.deep_view() =~= before.push(selector.deep_view()));
        assert(keys.take(i + 1) =~= keys.take(i as int).push(keys[i as int]));
        assert(r.deep_view() =~= seq![Seq::<CidrModel>::empty()] + keys.take(i + 1));
        i += 1;
    }
    assert(keys.take(i as int) =~= keys);
    r
}

/// Builds the source and the destination table of rules.
pub fn acl_selector_tables(rules: &[CanonicalAclRule]) -> (r: (
    Vec<Vec<AclIpv4Cidr>>,
    Vec<Vec<AclIpv4Cidr>>,
))
    ensures
        r.0.deep_view() == selector_table(src_of(rules.deep_view())),
        r.1.deep_view() == selector_table(dst_of(rules.deep_view())),
{
    let ghost models = rules.deep_view();
    let mut src: OrderedMap<Vec<AclIpv4Cidr>, bool> = OrderedMap::new();
    let mut dst: OrderedMap<Vec<AclIpv4Cidr>, bool> = OrderedMap::new();
    let mut i: usize = 0;
    assert(src.deep_view().dom() =~= used_selectors(src_of(models.take(0))));
    assert(dst.deep_view().dom() =~= used_selectors(dst_of(models.take(0))));
    while i < rules.len()
        invariant
            i <= rules.len(),
            models == rules.deep_view(),
            src.deep_view().dom() == used_selectors(src_of(models.take(i as int))),
            dst.deep_view().dom() == used_selectors(dst_of(models.take(i as int))),
        decreases rules.len() - i,
    {
        proof {
            assert(models[i as int] == rules@[i as int].deep_view());
            lemma_used_push(models, i as int);
        }
        if rules[i].src_cidrs.len() > 0 {
            src.insert(rules[i].src_cidrs.duplicate(), true);
        }
        if rules[i].dst_cidrs.len() > 0 {
            dst.insert(rules[i].dst_cidrs.duplicate(), true);
        }
        assert(src.deep_view().dom() =~= used_selectors(src_of(models.take(i + 1))));
        assert(dst.deep_view().dom() =~= used_selectors(dst_of(models.take(i + 1))));
        i += 1;
    }
    assert(models.take(i as int) =~= models);
    (table_of(&src), table_of(&dst))
}

proof fn lemma_used_push(models: Seq<CanonicalAclRuleModel>, i: int)
    requires
        0 <= i < models.len(),
    ensures
        forall|s: Seq<CidrModel>| #[trigger]
            used_selectors(src_of(models.take(i + 1))).contains(s) <==> (s.len() > 0 && (s
                == models[i].src_cidrs || used_selectors(src_of(models.take(i))).contains(s))),
        forall|s: Seq<CidrModel>| #[trigger]
            used_selectors(dst_of(models.take(i + 1))).contains(s) <==> (s.len() > 0 && (s
                == models[i].dst_cidrs || used_selectors(dst_of(models.take(i))).contains(s))),
{
    let a = src_of(models.take(i));
    let b = src_of(models.take(i + 1));
    assert(b =~= a.push(models[i].src_cidrs));
    let c = dst_of(models.take(i));
    let d = dst_of(models.take(i + 1));
    assert(d =~= c.push(models[i].dst_cidrs));
    assert forall|s: Seq<CidrModel>| b.contains(s) <==> (s == models[i].src_cidrs || a.contains(
        s,
    )) by {
        if a.contains(s) {
            assert(b[a.index_of(s)] == s);
        }
        assert(b[i] == models[i].src_cidrs);
    }
    assert forall|s: Seq<CidrModel>| d.contains(s) <==> (s == models[i].dst_cidrs || c.contains(
        s,
    )) by {
        if c.contains(s) {
            assert(d[c.index_of(s)] == s);
        }
        assert(d[i] == models[i].dst_cidrs);
    }
}

/// The place of a selector in its table, whose first place stands for any address.
pub open spec fn selector_place(
    selector: Seq<CidrModel>,
    table: Seq<Seq<CidrModel>>,
) -> AclSelectorId {
    if selector.len() == 0 {
        AclSelectorId(0)
    } else {
        AclSelectorId((table.skip(1).index_of(selector) + 1) as usize)
    }
}

/// True when no selector occurs twice in a table.
pub open spec fn table_distinct(table: Seq<Seq<CidrModel>>) -> bool {
    forall|i: int, j: int|
        0 <= i < j < table.len() ==> #[trigger] table[i] != #[trigger] table[j]
}

/// Finds the place of a selector in its table.
pub fn acl_selector_id(selector: &[AclIpv4Cidr], selectors: &[Vec<AclIpv4Cidr>]) -> (r: AclSelectorId)
    requires
        selector.deep_view().len() > 0 ==> {
            &&& selectors.deep_view().len() > 0
            &&& selectors.deep_view().skip(1).contains(selector.deep_view())
            &&& selectors.deep_view().skip(1).no_duplicates()
        },
    ensures
        r == selector_place(selector.deep_view(), selectors.deep_view()),
        r.0 < selectors.deep_view().len() || r.0 == 0,
        selector.deep_view().len() > 0 ==> r.0 >= 1 && selectors.deep_view()[r.0 as int]
            == selector.deep_view(),
{
    let ghost table = selectors.deep_view();
    let ghost target = selector.deep_view();
    if selector.len() == 0 {
        return AclSelectorId(0);
    }
    let mut wanted: Vec<AclIpv4Cidr> = Vec::new();
    let mut k: usize = 0;
    while k < selector.len()
        invariant
            k <= selector.len(),
            target == selector.deep_view(),
            wanted.deep_view() == target.take(k as int),
        decreases selector.len() - k,
    {
        let ghost before = wanted.deep_view();
        wanted.push(selector[k]);
        assert(wanted.deep_view() =~= before.push(target[k as int]));
        assert(target.take(k + 1) =~= target.take(k as int).push(target[k as int]));
        k += 1;
    }
    assert(target.take(k as int) =~= target);
    let ghost place = table.skip(1).index_of(target) + 1;
    assert(table[place] == target);
    let mut i: usize = 1;
    while i < selectors.len()
        invariant
            1 <= i,
            i <= place,
            table == selectors.deep_view(),
            table.skip(1).no_duplicates(),
            place == table.skip(1).index_of(target) + 1,
            1 <= place < table.len(),
            table[place] == target,
            target.len() > 0,
            target == selector.deep_view(),
            wanted.deep_view() == target,
        decreases selectors.len() - i,
    {
        assert(table[i as int] == selectors@[i as int].deep_view());
        assert(table.skip(1)[i - 1] == table[i as int]);
        if selectors[i].same(&wanted) {
            assert(table.skip(1)[place - 1] == target);
            return AclSelectorId(i);
        }
        i += 1;
    }
    AclSelectorId(0)
}

/// A rule with its networks named by their places in the two tables.
pub open spec fn interned_rule(
    rule: CanonicalAclRuleModel,
    src_table: Seq<Seq<CidrModel>>,
    dst_table: Seq<Seq<CidrModel>>,
) -> NormalizedAclRuleModel {
    NormalizedAclRuleModel {
        id: rule.id,
        direction: rule.direction,
        priority: rule.priority,
        directions: rule.directions,
        proto: rule.proto,
        action: rule.action,
        src_selector_id: selector_place(rule.src_cidrs, src_table),
        dst_selector_id: selector_place(rule.dst_cidrs, dst_table),
        ports: rule.ports,
    }
}

/// Rules with their networks named by their places in the two tables.
pub open spec fn interned_rules(rules: Seq<CanonicalAclRuleModel>) -> Seq<NormalizedAclRuleModel> {
    rules.map_values(
        |rule: CanonicalAclRuleModel|
            interned_rule(rule, selector_table(src_of(rules)), selector_table(dst_of(rules))),
    )
}

/// A table names each selector in use once, after the empty one.
pub proof fn lemma_table(selectors: Seq<Seq<CidrModel>>)
    ensures
        table_distinct(selector_table(selectors)),
        selector_table(selectors)[0].len() == 0,
        selector_table(selectors).len() >= 1,
        forall|s: Seq<CidrModel>|
            s.len() > 0 && selectors.contains(s) ==> #[trigger] selector_table(selectors).contains(
                s,
            ),
        forall|i: int|
            1 <= i < selector_table(selectors).len() ==> (#[trigger] selector_table(
                selectors,
            )[i]).len() > 0 && selectors.contains(selector_table(selectors)[i]),
{
    let members = used_selectors(selectors);
    assert(members.subset_of(selectors.to_set()));
    vstd::seq_lib::seq_to_set_is_finite(selectors);
    vstd::set_lib::lemma_set_subset_finite(selectors.to_set(), members);
    lemma_in_order_finite(members);
    let keys = in_order::<Vec<AclIpv4Cidr>>(members);
    let table = selector_table(selectors);
    assert forall|i: int| 1 <= i < table.len() implies (#[trigger] table[i]).len() > 0
        && selectors.contains(table[i]) by {
        assert(table[i] == keys[i - 1]);
        assert(keys.contains(keys[i - 1]));
    }
    assert forall|i: int, j: int| 0 <= i < j < table.len() implies #[trigger] table[i]
        != #[trigger] table[j] by {
        if i > 0 {
            assert(table[i] == keys[i - 1] && table[j] == keys[j - 1]);
            <Vec<AclIpv4Cidr> as Key>::irreflexive(keys[i - 1]);
        }
    }
    assert forall|s: Seq<CidrModel>|
        s.len() > 0 && selectors.contains(s) implies #[trigger] table.contains(s) by {
        assert(members.contains(s));
        assert(keys.contains(s));
        assert(table[keys.index_of(s) + 1] == s);
    }
}

proof fn lemma_place(table: Seq<Seq<CidrModel>>, selector: Seq<CidrModel>)
    requires
        table_distinct(table),
        table.contains(selector),
        selector.len() > 0,
        table[0].len() == 0,
    ensures
        table.len() > 0,
        table.skip(1).contains(selector),
        table.skip(1).no_duplicates(),
        1 <= table.skip(1).index_of(selector) + 1 < table.len(),
        table[table.skip(1).index_of(selector) + 1] == selector,
{
    let i = choose|i: int| 0 <= i < table.len() && table[i] == selector;
    assert(table.skip(1)[i - 1] == selector);
    let rest = table.skip(1);
    assert forall|i: int, j: int| 0 <= i < rest.len() && 0 <= j < rest.len() && i != j implies rest[i]
        != rest[j] by {
        if i < j {
            assert(table[i + 1] != table[j + 1]);
        } else {
            assert(table[j + 1] != table[i + 1]);
        }
    }
}

proof fn lemma_in_order_finite(members: Set<Seq<CidrModel>>)
    requires
        members.finite(),
    ensures
        ascending::<Vec<AclIpv4Cidr>>(in_order::<Vec<AclIpv4Cidr>>(members)),
        forall|k: Seq<CidrModel>| #[trigger]
            in_order::<Vec<AclIpv4Cidr>>(members).contains(k) <==> members.contains(k),
{
    crate::ordered::lemma_in_order::<Vec<AclIpv4Cidr>>(members);
}

/// Names the networks of rules by their places in the two tables.
pub fn intern_acl_rules(canonical_rules: Vec<CanonicalAclRule>) -> (r: (
    Vec<NormalizedAclRule>,
    Vec<Vec<AclIpv4Cidr>>,
    Vec<Vec<AclIpv4Cidr>>,
))
    ensures
        r.0.deep_view() == interned_rules(canonical_rules.deep_view()),
        r.1.deep_view() == selector_table(src_of(canonical_rules.deep_view())),
        r.2.deep_view() == selector_table(dst_of(canonical_rules.deep_view())),
{
    let ghost models = canonical_rules.deep_view();
    let rule_slice = canonical_rules.as_slice();
    assert(rule_slice.deep_view() =~= models);
    let (src_selectors, dst_selectors) = acl_selector_tables(rule_slice);
    let ghost src_table = selector_table(src_of(models));
    let ghost dst_table = selector_table(dst_of(models));
    proof {
        lemma_table(src_of(models));
        lemma_table(dst_of(models));
    }
    let mut rules: Vec<NormalizedAclRule> = Vec::new();
    let mut i: usize = 0;
    while i < canonical_rules.len()
        invariant
            i <= canonical_rules.len(),
            models == canonical_rules.deep_view(),
            src_table == selector_table(src_of(models)),
            dst_table == selector_table(dst_of(models)),
            src_selectors.deep_view() == src_table,
            dst_selectors.deep_view() == dst_table,
            table_distinct(src_table),
            table_distinct(dst_table),
            src_table.len() >= 1 && src_table[0].len() == 0,
            dst_table.len() >= 1 && dst_table[0].len() == 0,
            forall|s: Seq<CidrModel>|
                s.len() > 0 && src_of(models).contains(s) ==> #[trigger] src_table.contains(s),
            forall|s: Seq<CidrModel>|
                s.len() > 0 && dst_of(models).contains(s) ==> #[trigger] dst_table.contains(s),
            rules.deep_view() == interned_rules(models).take(i as int),
        decreases canonical_rules.len() - i,
    {
        let rule = &canonical_rules[i];
        proof {
            assert(models[i as int] == rule.deep_view());
            assert(src_of(models)[i as int] == rule.src_cidrs.deep_view());
            assert(dst_of(models)[i as int] == rule.dst_cidrs.deep_view());
            assert(src_of(models).contains(rule.src_cidrs.deep_view()));
            assert(dst_of(models).contains(rule.dst_cidrs.deep_view()));
            if rule.src_cidrs.deep_view().len() > 0 {
                lemma_place(src_table, rule.src_cidrs.deep_view());
            }
            if rule.dst_cidrs.deep_view().len() > 0 {
                lemma_place(dst_table, rule.dst_cidrs.deep_view());
            }
        }
        let src_slice = src_selectors.as_slice();
        let dst_slice = dst_selectors.as_slice();
        let src_cidrs = rule.src_cidrs.as_slice();
        let dst_cidrs = rule.dst_cidrs.as_slice();
        assert(src_slice.deep_view() =~= src_table);
        assert(dst_slice.deep_view() =~= dst_table);
        assert(src_cidrs.deep_view() =~= rule.src_cidrs.deep_view());
        assert(dst_cidrs.deep_view() =~= rule.dst_cidrs.deep_view());
        let interned = NormalizedAclRule {
            id: rule.id.duplicate(),
            direction: rule.direction.duplicate(),
            priority: rule.priority,
            directions: rule.directions.duplicate(),
            proto: rule.proto,
            action: rule.action,
            src_selector_id: acl_selector_id(src_cidrs, src_slice),
            dst_selector_id: acl_selector_id(dst_cidrs, dst_slice),
            ports: rule.ports.duplicate(),
        };
        let ghost before = rules.deep_view();
        rules.push(interned);
        proof {
            assert(rules.deep_view() =~= before.push(interned.deep_view()));
            assert(interned.deep_view() == interned_rules(models)[i as int]);
            assert(interned_rules(models).take(i + 1) =~= interned_rules(models).take(
                i as int,
            ).push(interned_rules(models)[i as int]));
        }
        i += 1;
    }
    assert(interned_rules(models).take(i as int) =~= interned_rules(models));
    (rules, src_selectors, dst_selectors)
}

/// The place of an interned selector leads back to the selector.
pub proof fn interned_selectors_resolve(rules: Seq<CanonicalAclRuleModel>, i: int)
    requires
        0 <= i < rules.len(),
    ensures
        interned_rules(rules)[i].src_selector_id.0 < selector_table(src_of(rules)).len(),
        interned_rules(rules)[i].dst_selector_id.0 < selector_table(dst_of(rules)).len(),
        selector_table(
            src_of(rules),
        ).len() <= usize::MAX ==> selector_table(src_of(rules))[interned_rules(
            rules,
        )[i].src_selector_id.0 as int] == rules[i].src_cidrs,
        selector_table(
            dst_of(rules),
        ).len() <= usize::MAX ==> selector_table(dst_of(rules))[interned_rules(
            rules,
        )[i].dst_selector_id.0 as int] == rules[i].dst_cidrs,
{
    lemma_table(src_of(rules));
    lemma_table(dst_of(rules));
    let src_table = selector_table(src_of(rules));
    let dst_table = selector_table(dst_of(rules));
    assert(src_of(rules)[i] == rules[i].src_cidrs);
    assert(dst_of(rules)[i] == rules[i].dst_cidrs);
    if rules[i].src_cidrs.len() > 0 {
        assert(src_table.contains(rules[i].src_cidrs));
        lemma_place(src_table, rules[i].src_cidrs);
    } else {
        assert(rules[i].src_cidrs =~= src_table[0]);
    }
    if rules[i].dst_cidrs.len() > 0 {
        assert(dst_table.contains(rules[i].dst_cidrs));
        lemma_place(dst_table, rules[i].dst_cidrs);
    } else {
        assert(rules[i].dst_cidrs =~= dst_table[0]);
    }
}

} // verus!
