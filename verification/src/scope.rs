//! The scope of a snapshot, and the checks made before anything else.

use crate::model::{NeutronSnapshotRequest, NeutronSnapshotRequestModel};
use crate::ordered::Value;
use crate::text::{decimal, text_eq, u64_text, usize_text};
use vstd::prelude::*;
use vstd::string::*;

verus! {

/// The oldest request schema that is understood.
pub const NEUTRON_UDS_SCHEMA_VERSION_MIN: u32 = 1;

/// The newest request schema that is understood.
pub const NEUTRON_UDS_SCHEMA_VERSION_MAX: u32 = 1;

/// What a snapshot is about: the whole host, or one port of it.
#[derive(Debug, PartialEq, Eq)]
pub enum ApplyScope {
    FullHost,
    SinglePort(String),
}

/// The model of [`ApplyScope`].
pub enum ScopeModel {
    FullHost,
    SinglePort(Seq<char>),
}

impl DeepView for ApplyScope {
    type V = ScopeModel;

    open spec fn deep_view(&self) -> ScopeModel {
        match self {
            ApplyScope::FullHost => ScopeModel::FullHost,
            ApplyScope::SinglePort(port_id) => ScopeModel::SinglePort(port_id@),
        }
    }
}

impl Value for ApplyScope {
    fn duplicate(&self) -> (r: Self) {
        match self {
            ApplyScope::FullHost => ApplyScope::FullHost,
            ApplyScope::SinglePort(port_id) => ApplyScope::SinglePort(port_id.duplicate()),
        }
    }

    fn same(&self, other: &Self) -> (r: bool) {
        match (self, other) {
            (ApplyScope::FullHost, ApplyScope::FullHost) => true,
            (ApplyScope::SinglePort(a), ApplyScope::SinglePort(b)) => a.same(b),
            _ => false,
        }
    }
}

impl Clone for ApplyScope {
    fn clone(&self) -> (r: Self)
        ensures
            r.deep_view() == self.deep_view(),
    {
        self.duplicate()
    }
}

impl ScopeModel {
    /// True when a port lies in the scope.
    pub open spec fn holds(self, port_id: Seq<char>) -> bool {
        match self {
            ScopeModel::FullHost => true,
            ScopeModel::SinglePort(target) => port_id == target,
        }
    }
}

impl ApplyScope {
    /// Whether a port lies in the scope.
    pub fn holds(&self, port_id: &str) -> (r: bool)
        ensures
            r == self.deep_view().holds(port_id@),
    {
        match self {
            ApplyScope::FullHost => true,
            ApplyScope::SinglePort(target) => text_eq(port_id, target.as_str()),
        }
    }
}

/// Names a scope.
pub fn apply_scope_name(scope: &ApplyScope) -> (r: &'static str)
    ensures
        r@ == (match scope.deep_view() {
            ScopeModel::FullHost => "full_host"@,
            ScopeModel::SinglePort(_) => "port"@,
        }),
{
    match scope {
        ApplyScope::FullHost => "full_host",
        ApplyScope::SinglePort(_) => "port",
    }
}

/// The port of a scope, if it is about one.
pub fn apply_scope_port_id(scope: &ApplyScope) -> (r: Option<&str>)
    ensures
        r.deep_view() == (match scope.deep_view() {
            ScopeModel::FullHost => None,
            ScopeModel::SinglePort(port_id) => Some(port_id),
        }),
{
    match scope {
        ApplyScope::FullHost => None,
        ApplyScope::SinglePort(port_id) => Some(port_id.as_str()),
    }
}

/// The kinds of reply that a request gets.
#[derive(Clone, Copy, Debug, PartialEq, Eq, Structural)]
pub enum ReplyStatus {
    Success,
    BadRequest,
    Conflict,
    InternalServerError,
    ServiceUnavailable,
}

/// Why a request was refused.
#[derive(Debug, PartialEq, Eq)]
pub struct SnapshotApplyError {
    pub status: ReplyStatus,
    pub code: &'static str,
    pub details: String,
}

/// The model of [`SnapshotApplyError`].
#[verifier::ext_equal]
pub struct SnapshotApplyErrorModel {
    pub status: ReplyStatus,
    pub code: Seq<char>,
    pub details: Seq<char>,
}

impl DeepView for SnapshotApplyError {
    type V = SnapshotApplyErrorModel;

    open spec fn deep_view(&self) -> SnapshotApplyErrorModel {
        SnapshotApplyErrorModel {
            status: self.status,
            code: self.code@,
            details: self.details@,
        }
    }
}

/// A refusal with its kind, code and details.
pub open spec fn refusal(
    status: ReplyStatus,
    code: Seq<char>,
    details: Seq<char>,
) -> SnapshotApplyErrorModel {
    SnapshotApplyErrorModel { status, code, details }
}

/// Refuses a request with a conflict.
pub fn conflict(code: &'static str, details: &str) -> (r: SnapshotApplyError)
    ensures
        r.deep_view() == refusal(ReplyStatus::Conflict, code@, details@),
{
    SnapshotApplyError { status: ReplyStatus::Conflict, code, details: details.to_owned() }
}

/// Refuses a request because of a fault on this side.
pub fn internal_error(code: &'static str, details: &str) -> (r: SnapshotApplyError)
    ensures
        r.deep_view() == refusal(ReplyStatus::InternalServerError, code@, details@),
{
    SnapshotApplyError {
        status: ReplyStatus::InternalServerError,
        code,
        details: details.to_owned(),
    }
}

/// Why the ports of a snapshot do not fit its scope.
#[allow(inconsistent_fields)]
#[derive(Debug, PartialEq, Eq)]
pub enum SnapshotScopeError {
    SinglePortBodyCount { actual: usize },
    SinglePortBodyMismatch { expected: String, actual: String },
    ScopeWidened { target: String, actual: String },
}

/// The model of [`SnapshotScopeError`].
#[allow(inconsistent_fields)]
pub enum ScopeErrorModel {
    SinglePortBodyCount { actual: nat },
    SinglePortBodyMismatch { expected: Seq<char>, actual: Seq<char> },
    ScopeWidened { target: Seq<char>, actual: Seq<char> },
}

impl DeepView for SnapshotScopeError {
    type V = ScopeErrorModel;

    open spec fn deep_view(&self) -> ScopeErrorModel {
        match self {
            SnapshotScopeError::SinglePortBodyCount { actual } => {
                ScopeErrorModel::SinglePortBodyCount { actual: *actual as nat }
            },
            SnapshotScopeError::SinglePortBodyMismatch { expected, actual } => {
                ScopeErrorModel::SinglePortBodyMismatch { expected: expected@, actual: actual@ }
            },
            SnapshotScopeError::ScopeWidened { target, actual } => {
                ScopeErrorModel::ScopeWidened { target: target@, actual: actual@ }
            },
        }
    }
}

/// The text of a scope error.
pub open spec fn scope_error_text(error: ScopeErrorModel) -> Seq<char> {
    match error {
        ScopeErrorModel::SinglePortBodyCount { actual } => {
            "single-port snapshot requires exactly one body port, got "@ + decimal(actual)
        },
        ScopeErrorModel::SinglePortBodyMismatch { expected, actual } => {
            "single-port snapshot path/body mismatch: expected "@ + expected + ", got "@ + actual
        },
        ScopeErrorModel::ScopeWidened { target, actual } => {
            "single-port snapshot plan widened scope: target "@ + target + ", affected "@ + actual
        },
    }
}

impl SnapshotScopeError {
    /// The code of a scope error.
    pub fn code(&self) -> (r: &'static str)
        ensures
            r@ == "PORT_SCOPE_MISMATCH"@,
    {
        "PORT_SCOPE_MISMATCH"
    }

    /// The text of a scope error.
    pub fn message(&self) -> (r: String)
        ensures
            r@ == scope_error_text(self.deep_view()),
    {
        match self {
            SnapshotScopeError::SinglePortBodyCount { actual } => {
                let mut r = "single-port snapshot requires exactly one body port, got ".to_owned();
                r.append(usize_text(*actual).as_str());
                r
            },
            SnapshotScopeError::SinglePortBodyMismatch { expected, actual } => {
                let mut r = "single-port snapshot path/body mismatch: expected ".to_owned();
                r.append(expected.as_str());
                r.append(", got ");
                r.append(actual.as_str());
                r
            },
            SnapshotScopeError::ScopeWidened { target, actual } => {
                let mut r = "single-port snapshot plan widened scope: target ".to_owned();
                r.append(target.as_str());
                r.append(", affected ");
                r.append(actual.as_str());
                r
            },
        }
    }
}

/// The refusal of a snapshot whose ports do not fit its scope.
pub open spec fn scope_refusal(error: ScopeErrorModel) -> SnapshotApplyErrorModel {
    refusal(ReplyStatus::BadRequest, "PORT_SCOPE_MISMATCH"@, scope_error_text(error))
}

/// Refuses a snapshot whose ports do not fit its scope.
pub fn snapshot_scope_apply_error(error: SnapshotScopeError) -> (r: SnapshotApplyError)
    ensures
        r.deep_view() == scope_refusal(error.deep_view()),
{
    SnapshotApplyError {
        status: ReplyStatus::BadRequest,
        code: error.code(),
        details: error.message(),
    }
}

/// True when a request schema is understood; a request need not name one.
pub open spec fn schema_supported(schema_version: Option<u32>) -> bool {
    match schema_version {
        None => true,
        Some(version) => NEUTRON_UDS_SCHEMA_VERSION_MIN <= version
            <= NEUTRON_UDS_SCHEMA_VERSION_MAX,
    }
}

/// Whether a request schema is understood.
pub fn snapshot_schema_supported(schema_version: Option<u32>) -> (r: bool)
    ensures
        r == schema_supported(schema_version),
{
    match schema_version {
        None => true,
        Some(version) => version >= NEUTRON_UDS_SCHEMA_VERSION_MIN && version
            <= NEUTRON_UDS_SCHEMA_VERSION_MAX,
    }
}

/// The notation of an optional version.
pub open spec fn version_text(version: Option<u32>) -> Seq<char> {
    match version {
        None => "None"@,
        Some(v) => "Some("@ + decimal(v as nat) + ")"@,
    }
}

/// The refusal of a snapshot in a schema that is not understood.
pub open spec fn schema_refusal(version: Option<u32>) -> SnapshotApplyErrorModel {
    refusal(
        ReplyStatus::BadRequest,
        "UDS_SCHEMA_MISMATCH"@,
        "unsupported schema_version "@ + version_text(version) + "; supported range is "@
            + decimal(NEUTRON_UDS_SCHEMA_VERSION_MIN as nat) + "-"@ + decimal(
            NEUTRON_UDS_SCHEMA_VERSION_MAX as nat,
        ),
    )
}

/// Refuses a snapshot in a schema that is not understood.
pub fn snapshot_schema_apply_error(schema_version: Option<u32>) -> (r: SnapshotApplyError)
    ensures
        r.deep_view() == schema_refusal(schema_version),
{
    let version = match schema_version {
        None => "None".to_owned(),
        Some(version) => {
            let mut text = "Some(".to_owned();
            text.append(u64_text(version as u64).as_str());
            text.append(")");
            text
        },
    };
    let mut details = "unsupported schema_version ".to_owned();
    details.append(version.as_str());
    details.append("; supported range is ");
    details.append(u64_text(NEUTRON_UDS_SCHEMA_VERSION_MIN as u64).as_str());
    details.append("-");
    details.append(u64_text(NEUTRON_UDS_SCHEMA_VERSION_MAX as u64).as_str());
    SnapshotApplyError { status: ReplyStatus::BadRequest, code: "UDS_SCHEMA_MISMATCH", details }
}

/// Why the ports of a snapshot do not fit its scope, if they do not.
pub open spec fn scope_fault(
    scope: ScopeModel,
    snapshot: NeutronSnapshotRequestModel,
) -> Option<ScopeErrorModel> {
    match scope {
        ScopeModel::FullHost => None,
        ScopeModel::SinglePort(target) => if snapshot.ports.len() != 1 {
            Some(ScopeErrorModel::SinglePortBodyCount { actual: snapshot.ports.len() })
        } else if snapshot.ports[0].port_id != target {
            Some(
                ScopeErrorModel::SinglePortBodyMismatch {
                    expected: target,
                    actual: snapshot.ports[0].port_id,
                },
            )
        } else {
            None
        },
    }
}

/// Checks that the ports of a snapshot fit its scope.
pub fn validate_snapshot_scope(scope: &ApplyScope, snapshot: &NeutronSnapshotRequest) -> (r: Result<
    (),
    SnapshotScopeError,
>)
    ensures
        match r {
            Ok(_) => scope_fault(scope.deep_view(), snapshot.deep_view()) is None,
            Err(error) => scope_fault(scope.deep_view(), snapshot.deep_view()) == Some(
                error.deep_view(),
            ),
        },
{
    match scope {
        ApplyScope::FullHost => Ok(()),
        ApplyScope::SinglePort(target) => {
            if snapshot.ports.len() != 1 {
                return Err(
                    SnapshotScopeError::SinglePortBodyCount { actual: snapshot.ports.len() },
                );
            }
            let actual = &snapshot.ports[0].port_id;
            assert(snapshot.ports.deep_view()[0] == snapshot.ports@[0].deep_view());
            if !actual.same(target) {
                return Err(
                    SnapshotScopeError::SinglePortBodyMismatch {
                        expected: target.duplicate(),
                        actual: actual.duplicate(),
                    },
                );
            }
            Ok(())
        },
    }
}

/// The refusal of a snapshot with the reserved generation.
pub open spec fn zero_generation_refusal() -> SnapshotApplyErrorModel {
    refusal(
        ReplyStatus::BadRequest,
        "INVALID_SNAPSHOT_GENERATION"@,
        "snapshot generation zero is reserved; submitted generations must start at one"@,
    )
}

/// Why a snapshot is refused before anything else is looked at, if it is.
pub open spec fn preflight_refusal(
    scope: ScopeModel,
    snapshot: NeutronSnapshotRequestModel,
) -> Option<SnapshotApplyErrorModel> {
    if !schema_supported(snapshot.schema_version) {
        Some(schema_refusal(snapshot.schema_version))
    } else if snapshot.generation == 0 {
        Some(zero_generation_refusal())
    } else {
        match scope_fault(scope, snapshot) {
            Some(error) => Some(scope_refusal(error)),
            None => None,
        }
    }
}

/// Checks a snapshot before anything else is looked at.
pub fn validate_snapshot_preflight(scope: &ApplyScope, snapshot: &NeutronSnapshotRequest) -> (r:
    Result<(), SnapshotApplyError>)
    ensures
        match r {
            Ok(_) => preflight_refusal(scope.deep_view(), snapshot.deep_view()) is None,
            Err(error) => preflight_refusal(scope.deep_view(), snapshot.deep_view()) == Some(
                error.deep_view(),
            ),
        },
{
    if !snapshot_schema_supported(snapshot.schema_version) {
        return Err(snapshot_schema_apply_error(snapshot.schema_version));
    }
    if snapshot.generation == 0 {
        return Err(
            SnapshotApplyError {
                status: ReplyStatus::BadRequest,
                code: "INVALID_SNAPSHOT_GENERATION",
                details: "snapshot generation zero is reserved; submitted generations must start at one".to_owned(),
            },
        );
    }
    match validate_snapshot_scope(scope, snapshot) {
        Ok(_) => Ok(()),
        Err(error) => Err(snapshot_scope_apply_error(error)),
    }
}

} // verus!
