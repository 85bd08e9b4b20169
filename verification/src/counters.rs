//! The counters of the managed ports.

use crate::acl_rules::first_from;
use crate::model::{ManagedNeutronPort, ManagedNeutronPortModel};
use crate::ordered::{
    in_order, lemma_filter_step, lemma_in_order, result_view, values_in_order, OrderedMap, Value,
};
use vstd::prelude::*;
use vstd::string::*;

verus! {

/// The version of the report.
pub const NEUTRON_COUNTERS_SCHEMA_VERSION: u32 = 1;

/// The most rows that are reported for one port.
pub const NEUTRON_MAX_COUNTER_BUCKET_ROWS_PER_PORT: usize = 512;

/// The traffic between two groups.
#[derive(Debug, PartialEq, Eq)]
pub struct NeutronCounterBucketV1 {
    pub src_id: u32,
    pub dst_id: u32,
    pub proto: u8,
    pub direction: u8,
    pub packets: u64,
    pub bytes: u64,
    pub dropped_packets: u64,
    pub dropped_bytes: u64,
}

/// The model of [`NeutronCounterBucketV1`].
#[verifier::ext_equal]
pub struct BucketModel {
    pub src_id: u32,
    pub dst_id: u32,
    pub proto: u8,
    pub direction: u8,
    pub packets: u64,
    pub bytes: u64,
    pub dropped_packets: u64,
    pub dropped_bytes: u64,
}

impl DeepView for NeutronCounterBucketV1 {
    type V = BucketModel;

    open spec fn deep_view(&self) -> BucketModel {
        BucketModel {
            src_id: self.src_id,
            dst_id: self.dst_id,
            proto: self.proto,
            direction: self.direction,
            packets: self.packets,
            bytes: self.bytes,
            dropped_packets: self.dropped_packets,
            dropped_bytes: self.dropped_bytes,
        }
    }
}

impl Value for NeutronCounterBucketV1 {
    fn duplicate(&self) -> (r: Self) {
        NeutronCounterBucketV1 {
            src_id: self.src_id,
            dst_id: self.dst_id,
            proto: self.proto,
            direction: self.direction,
            packets: self.packets,
            bytes: self.bytes,
            dropped_packets: self.dropped_packets,
            dropped_bytes: self.dropped_bytes,
        }
    }

    fn same(&self, other: &Self) -> (r: bool) {
        self.src_id == other.src_id
            && self.dst_id == other.dst_id
            && self.proto == other.proto
            && self.direction == other.direction
            && self.packets == other.packets
            && self.bytes == other.bytes
            && self.dropped_packets == other.dropped_packets
            && self.dropped_bytes == other.dropped_bytes
    }
}

impl Clone for NeutronCounterBucketV1 {
    fn clone(&self) -> (r: Self)
        ensures
            r.deep_view() == self.deep_view(),
    {
        self.duplicate()
    }
}

/// The traffic that was dropped for one reason.
#[derive(Debug, PartialEq, Eq)]
pub struct NeutronCounterReasonV1 {
    pub reason: u32,
    pub direction: u8,
    pub proto: u8,
    pub packets: u64,
    pub bytes: u64,
}

/// The model of [`NeutronCounterReasonV1`].
#[verifier::ext_equal]
pub struct ReasonModel {
    pub reason: u32,
    pub direction: u8,
    pub proto: u8,
    pub packets: u64,
    pub bytes: u64,
}

impl DeepView for NeutronCounterReasonV1 {
    type V = ReasonModel;

    open spec fn deep_view(&self) -> ReasonModel {
        ReasonModel {
            reason: self.reason,
            direction: self.direction,
            proto: self.proto,
            packets: self.packets,
            bytes: self.bytes,
        }
    }
}

impl Value for NeutronCounterReasonV1 {
    fn duplicate(&self) -> (r: Self) {
        NeutronCounterReasonV1 {
            reason: self.reason,
            direction: self.direction,
            proto: self.proto,
            packets: self.packets,
            bytes: self.bytes,
        }
    }

    fn same(&self, other: &Self) -> (r: bool) {
        self.reason == other.reason
            && self.direction == other.direction
            && self.proto == other.proto
            && self.packets == other.packets
            && self.bytes == other.bytes
    }
}

impl Clone for NeutronCounterReasonV1 {
    fn clone(&self) -> (r: Self)
        ensures
            r.deep_view() == self.deep_view(),
    {
        self.duplicate()
    }
}

/// The counters of one interface as they are read.
#[derive(Debug, PartialEq, Eq)]
pub struct PortCounterSummary {
    pub tap_id: u32,
    pub policy_packets: u64,
    pub policy_bytes: u64,
    pub policy_allow_packets: u64,
    pub policy_dropped_packets: u64,
    pub policy_dropped_bytes: u64,
    pub drop_packets: u64,
    pub drop_bytes: u64,
    pub truncated: bool,
    pub buckets: Vec<NeutronCounterBucketV1>,
    pub reasons: Vec<NeutronCounterReasonV1>,
}

/// The model of [`PortCounterSummary`].
#[verifier::ext_equal]
pub struct SummaryModel {
    pub tap_id: u32,
    pub policy_packets: u64,
    pub policy_bytes: u64,
    pub policy_allow_packets: u64,
    pub policy_dropped_packets: u64,
    pub policy_dropped_bytes: u64,
    pub drop_packets: u64,
    pub drop_bytes: u64,
    pub truncated: bool,
    pub buckets: Seq<BucketModel>,
    pub reasons: Seq<ReasonModel>,
}

impl DeepView for PortCounterSummary {
    type V = SummaryModel;

    open spec fn deep_view(&self) -> SummaryModel {
        SummaryModel {
            tap_id: self.tap_id,
            policy_packets: self.policy_packets,
            policy_bytes: self.policy_bytes,
            policy_allow_packets: self.policy_allow_packets,
            policy_dropped_packets: self.policy_dropped_packets,
            policy_dropped_bytes: self.policy_dropped_bytes,
            drop_packets: self.drop_packets,
            drop_bytes: self.drop_bytes,
            truncated: self.truncated,
            buckets: self.buckets.deep_view(),
            reasons: self.reasons.deep_view(),
        }
    }
}

impl Value for PortCounterSummary {
    fn duplicate(&self) -> (r: Self) {
        PortCounterSummary {
            tap_id: self.tap_id,
            policy_packets: self.policy_packets,
            policy_bytes: self.policy_bytes,
            policy_allow_packets: self.policy_allow_packets,
            policy_dropped_packets: self.policy_dropped_packets,
            policy_dropped_bytes: self.policy_dropped_bytes,
            drop_packets: self.drop_packets,
            drop_bytes: self.drop_bytes,
            truncated: self.truncated,
            buckets: self.buckets.duplicate(),
            reasons: self.reasons.duplicate(),
        }
    }

    fn same(&self, other: &Self) -> (r: bool) {
        self.tap_id == other.tap_id
            && self.policy_packets == other.policy_packets
            && self.policy_bytes == other.policy_bytes
            && self.policy_allow_packets == other.policy_allow_packets
            && self.policy_dropped_packets == other.policy_dropped_packets
            && self.policy_dropped_bytes == other.policy_dropped_bytes
            && self.drop_packets == other.drop_packets
            && self.drop_bytes == other.drop_bytes
            && self.truncated == other.truncated
            && self.buckets.same(&other.buckets)
            && self.reasons.same(&other.reasons)
    }
}

impl Clone for PortCounterSummary {
    fn clone(&self) -> (r: Self)
        ensures
            r.deep_view() == self.deep_view(),
    {
        self.duplicate()
    }
}

/// The counters of one port as they are reported.
#[derive(Debug, PartialEq, Eq)]
pub struct NeutronPortCountersV1 {
    pub port_id: String,
    pub tap_id: u32,
    pub policy_packets: u64,
    pub policy_bytes: u64,
    pub policy_allow_packets: u64,
    pub policy_dropped_packets: u64,
    pub policy_dropped_bytes: u64,
    pub drop_packets: u64,
    pub drop_bytes: u64,
    pub truncated: bool,
    pub buckets: Vec<NeutronCounterBucketV1>,
    pub reasons: Vec<NeutronCounterReasonV1>,
}

/// The model of [`NeutronPortCountersV1`].
#[verifier::ext_equal]
pub struct PortCountersModel {
    pub port_id: Seq<char>,
    pub tap_id: u32,
    pub policy_packets: u64,
    pub policy_bytes: u64,
    pub policy_allow_packets: u64,
    pub policy_dropped_packets: u64,
    pub policy_dropped_bytes: u64,
    pub drop_packets: u64,
    pub drop_bytes: u64,
    pub truncated: bool,
    pub buckets: Seq<BucketModel>,
    pub reasons: Seq<ReasonModel>,
}

impl DeepView for NeutronPortCountersV1 {
    type V = PortCountersModel;

    open spec fn deep_view(&self) -> PortCountersModel {
        PortCountersModel {
            port_id: self.port_id.deep_view(),
            tap_id: self.tap_id,
            policy_packets: self.policy_packets,
            policy_bytes: self.policy_bytes,
            policy_allow_packets: self.policy_allow_packets,
            policy_dropped_packets: self.policy_dropped_packets,
            policy_dropped_bytes: self.policy_dropped_bytes,
            drop_packets: self.drop_packets,
            drop_bytes: self.drop_bytes,
            truncated: self.truncated,
            buckets: self.buckets.deep_view(),
            reasons: self.reasons.deep_view(),
        }
    }
}

impl Value for NeutronPortCountersV1 {
    fn duplicate(&self) -> (r: Self) {
        NeutronPortCountersV1 {
            port_id: self.port_id.duplicate(),
            tap_id: self.tap_id,
            policy_packets: self.policy_packets,
            policy_bytes: self.policy_bytes,
            policy_allow_packets: self.policy_allow_packets,
            policy_dropped_packets: self.policy_dropped_packets,
            policy_dropped_bytes: self.policy_dropped_bytes,
            drop_packets: self.drop_packets,
            drop_bytes: self.drop_bytes,
            truncated: self.truncated,
            buckets: self.buckets.duplicate(),
            reasons: self.reasons.duplicate(),
        }
    }

    fn same(&self, other: &Self) -> (r: bool) {
        self.port_id.same(&other.port_id)
            && self.tap_id == other.tap_id
            && self.policy_packets == other.policy_packets
            && self.policy_bytes == other.policy_bytes
            && self.policy_allow_packets == other.policy_allow_packets
            && self.policy_dropped_packets == other.policy_dropped_packets
            && self.policy_dropped_bytes == other.policy_dropped_bytes
            && self.drop_packets == other.drop_packets
            && self.drop_bytes == other.drop_bytes
            && self.truncated == other.truncated
            && self.buckets.same(&other.buckets)
            && self.reasons.same(&other.reasons)
    }
}

impl Clone for NeutronPortCountersV1 {
    fn clone(&self) -> (r: Self)
        ensures
            r.deep_view() == self.deep_view(),
    {
        self.duplicate()
    }
}

/// The counters of all ports.
#[derive(Debug, PartialEq, Eq)]
pub struct NeutronStatusCountersV1 {
    pub counters_schema_version: u32,
    pub sampled_at_ms: u64,
    pub counters_error: Option<String>,
    pub ports: Vec<NeutronPortCountersV1>,
}

/// The model of [`NeutronStatusCountersV1`].
#[verifier::ext_equal]
pub struct CountersModel {
    pub counters_schema_version: u32,
    pub sampled_at_ms: u64,
    pub counters_error: Option<Seq<char>>,
    pub ports: Seq<PortCountersModel>,
}

impl DeepView for NeutronStatusCountersV1 {
    type V = CountersModel;

    open spec fn deep_view(&self) -> CountersModel {
        CountersModel {
            counters_schema_version: self.counters_schema_version,
            sampled_at_ms: self.sampled_at_ms,
            counters_error: self.counters_error.deep_view(),
            ports: self.ports.deep_view(),
        }
    }
}

impl Value for NeutronStatusCountersV1 {
    fn duplicate(&self) -> (r: Self) {
        NeutronStatusCountersV1 {
            counters_schema_version: self.counters_schema_version,
            sampled_at_ms: self.sampled_at_ms,
            counters_error: self.counters_error.duplicate(),
            ports: self.ports.duplicate(),
        }
    }

    fn same(&self, other: &Self) -> (r: bool) {
        self.counters_schema_version == other.counters_schema_version
            && self.sampled_at_ms == other.sampled_at_ms
            && self.counters_error.same(&other.counters_error)
            && self.ports.same(&other.ports)
    }
}

impl Clone for NeutronStatusCountersV1 {
    fn clone(&self) -> (r: Self)
        ensures
            r.deep_view() == self.deep_view(),
    {
        self.duplicate()
    }
}

/// The ports behind the interfaces of the first `n` managed ports; of two ports with one interface
/// the later counts.
pub open spec fn ports_by_tap(
    ports: Seq<ManagedNeutronPortModel>,
    tap_ids: Map<Seq<char>, u32>,
    n: int,
) -> Map<u32, Seq<char>>
    decreases n,
{
    if n <= 0 {
        Map::empty()
    } else {
        let before = ports_by_tap(ports, tap_ids, n - 1);
        if tap_ids.dom().contains(ports[n - 1].ifname) {
            before.insert(tap_ids[ports[n - 1].ifname], ports[n - 1].port_id)
        } else {
            before
        }
    }
}

/// The ports behind all interfaces that have a number.
pub open spec fn counted_ports(
    ports: Map<Seq<char>, ManagedNeutronPortModel>,
    tap_ids: Map<Seq<char>, u32>,
) -> Map<u32, Seq<char>> {
    let list = values_in_order::<String, ManagedNeutronPortModel>(ports);
    ports_by_tap(list, tap_ids, list.len() as int)
}

/// Finds the ports behind all interfaces that have a number.
pub fn counter_ports(
    ports: &OrderedMap<String, ManagedNeutronPort>,
    tap_ids: &OrderedMap<String, u32>,
) -> (r: OrderedMap<u32, String>)
    ensures
        r.deep_view() == counted_ports(ports.deep_view(), tap_ids.deep_view()),
{
    let list = ports.values();
    let ghost models = list.deep_view();
    let mut r: OrderedMap<u32, String> = OrderedMap::new();
    let mut i: usize = 0;
    while i < list.len()
        invariant
            i <= list.len(),
            models == list.deep_view(),
            r.deep_view() == ports_by_tap(models, tap_ids.deep_view(), i as int),
        decreases list.len() - i,
    {
        assert(models[i as int] == list@[i as int].deep_view());
        if let Some(tap_id) = tap_ids.get(&list[i].ifname) {
            r.insert(*tap_id, list[i].port_id.duplicate());
        }
        i += 1;
    }
    r
}

/// The place of a row among rows that are ranked: behind all that carried as much or more.
pub open spec fn rank_place(rows: Seq<BucketModel>, row: BucketModel) -> int {
    first_from(rows.len() as int, 0, |i: int| rows[i].bytes < row.bytes)
}

/// The rows with the most traffic first; rows with the same traffic keep their order.
pub open spec fn ranked(rows: Seq<BucketModel>) -> Seq<BucketModel>
    decreases rows.len(),
{
    if rows.len() == 0 {
        Seq::empty()
    } else {
        let before = ranked(rows.drop_last());
        before.insert(rank_place(before, rows.last()), rows.last())
    }
}

proof fn lemma_place(n: int, i: int, p: spec_fn(int) -> bool)
    requires
        0 <= i <= n,
    ensures
        i <= first_from(n, i, p) <= n,
        first_from(n, i, p) < n ==> p(first_from(n, i, p)),
        forall|j: int| i <= j < first_from(n, i, p) ==> !#[trigger] p(j),
    decreases n - i,
{
    if i < n && !p(i) {
        lemma_place(n, i + 1, p);
    }
}

/// Ranking rows only puts them in order: the same rows come out, none with more traffic behind one
/// with less.
pub proof fn ranking_orders_rows(rows: Seq<BucketModel>)
    ensures
        ranked(rows).len() == rows.len(),
        ranked(rows).to_multiset() == rows.to_multiset(),
        forall|i: int, j: int|
            0 <= i < j < ranked(rows).len() ==> (#[trigger] ranked(rows)[i]).bytes >= (
            #[trigger] ranked(rows)[j]).bytes,
    decreases rows.len(),
{
    broadcast use vstd::seq_lib::group_to_multiset_ensures;

    if rows.len() > 0 {
        let rest = rows.drop_last();
        let last = rows.last();
        let before = ranked(rest);
        let place = rank_place(before, last);
        ranking_orders_rows(rest);
        let p = |i: int| before[i].bytes < last.bytes;
        lemma_place(before.len() as int, 0, p);
        let after = before.insert(place, last);
        assert(rows =~= rest.push(last));
        assert(after =~= before.subrange(0, place).push(last) + before.subrange(
            place,
            before.len() as int,
        ));
        assert(after.to_multiset() =~= before.to_multiset().insert(last));
        assert forall|i: int, j: int| 0 <= i < j < after.len() implies (#[trigger] after[i]).bytes
            >= (#[trigger] after[j]).bytes by {
            let a = if i < place {
                i
            } else {
                i - 1
            };
            let b = if j < place {
                j
            } else {
                j - 1
            };
            if i < place {
                assert(!p(i));
            }
            if j > place {
                if place < before.len() {
                    assert(p(place));
                    if place < b {
                        assert(before[place].bytes >= before[b].bytes);
                    }
                }
            }
            if i != place && j != place {
                assert(after[i] == before[a]);
                assert(after[j] == before[b]);
            }
        }
    } else {
        assert(ranked(rows) =~= rows);
    }
}

fn rank_rows(rows: &Vec<NeutronCounterBucketV1>, count: usize) -> (r: Vec<NeutronCounterBucketV1>)
    requires
        count <= rows.len(),
    ensures
        r.deep_view() == ranked(rows.deep_view().take(count as int)),
{
    let ghost models = rows.deep_view();
    let mut r: Vec<NeutronCounterBucketV1> = Vec::new();
    let mut i: usize = 0;
    assert(r.deep_view() =~= ranked(models.take(0)));
    while i < count
        invariant
            i <= count <= rows.len(),
            models == rows.deep_view(),
            r.deep_view() == ranked(models.take(i as int)),
        decreases count - i,
    {
        let ghost before = r.deep_view();
        let row = rows[i].duplicate();
        let ghost model = row.deep_view();
        let ghost p = |k: int| before[k].bytes < model.bytes;
        assert(models[i as int] == model);
        let mut place: usize = 0;
        while place < r.len() && r[place].bytes >= row.bytes
            invariant
                place <= r.len(),
                before == r.deep_view(),
                model == row.deep_view(),
                p == (|k: int| before[k].bytes < model.bytes),
                first_from(before.len() as int, place as int, p) == first_from(
                    before.len() as int,
                    0,
                    p,
                ),
            decreases r.len() - place,
        {
            assert(before[place as int] == r@[place as int].deep_view());
            place += 1;
        }
        assert(place < r.len() ==> before[place as int] == r@[place as int].deep_view());
        assert(place == rank_place(before, model));
        r.insert(place, row);
        proof {
            assert(r.deep_view() =~= before.insert(place as int, model));
            assert(models.take(i + 1).drop_last() =~= models.take(i as int));
        }
        i += 1;
    }
    r
}

/// The counters of a port as they are reported.
pub open spec fn reported_counters(port_id: Seq<char>, summary: SummaryModel) -> PortCountersModel {
    PortCountersModel {
        port_id,
        tap_id: summary.tap_id,
        policy_packets: summary.policy_packets,
        policy_bytes: summary.policy_bytes,
        policy_allow_packets: summary.policy_allow_packets,
        policy_dropped_packets: summary.policy_dropped_packets,
        policy_dropped_bytes: summary.policy_dropped_bytes,
        drop_packets: summary.drop_packets,
        drop_bytes: summary.drop_bytes,
        truncated: summary.truncated,
        buckets: ranked(
            if summary.buckets.len() > NEUTRON_MAX_COUNTER_BUCKET_ROWS_PER_PORT {
                summary.buckets.take(NEUTRON_MAX_COUNTER_BUCKET_ROWS_PER_PORT as int)
            } else {
                summary.buckets
            },
        ),
        reasons: summary.reasons,
    }
}

/// The counters of the ports among the first `n` interfaces; an interface without a port is left
/// out.
pub open spec fn reported_ports(
    ports: Map<u32, Seq<char>>,
    summaries: Seq<SummaryModel>,
    n: int,
) -> Seq<PortCountersModel>
    decreases n,
{
    if n <= 0 {
        Seq::empty()
    } else {
        let before = reported_ports(ports, summaries, n - 1);
        let summary = summaries[n - 1];
        if ports.dom().contains(summary.tap_id) {
            before.push(reported_counters(ports[summary.tap_id], summary))
        } else {
            before
        }
    }
}

/// What reporting the counters has to do next.
#[derive(Debug, PartialEq, Eq)]
pub enum CountersStep {
    /// Read the counters of the interfaces with these numbers.
    Read(Vec<u32>),
    /// The report.
    Report(NeutronStatusCountersV1),
}

/// The model of [`CountersStep`].
pub enum CountersStepModel {
    Read(Seq<u32>),
    Report(CountersModel),
}

impl DeepView for CountersStep {
    type V = CountersStepModel;

    open spec fn deep_view(&self) -> CountersStepModel {
        match self {
            CountersStep::Read(taps) => CountersStepModel::Read(taps.deep_view()),
            CountersStep::Report(report) => CountersStepModel::Report(report.deep_view()),
        }
    }
}

/// A report with the given ports or error.
pub open spec fn counters_report(
    sampled_at_ms: u64,
    counters_error: Option<Seq<char>>,
    ports: Seq<PortCountersModel>,
) -> CountersModel {
    CountersModel {
        counters_schema_version: NEUTRON_COUNTERS_SCHEMA_VERSION,
        sampled_at_ms,
        counters_error,
        ports,
    }
}

/// What reporting the counters has to do next: a failure to read them shows in the report alone.
pub open spec fn counters_step(
    sampled_at_ms: u64,
    ports: Map<u32, Seq<char>>,
    summaries: Option<Result<Seq<SummaryModel>, Seq<char>>>,
) -> CountersStepModel {
    if ports == Map::<u32, Seq<char>>::empty() {
        CountersStepModel::Report(counters_report(sampled_at_ms, None, Seq::empty()))
    } else {
        match summaries {
            None => CountersStepModel::Read(in_order::<u32>(ports.dom())),
            Some(Err(error)) => CountersStepModel::Report(
                counters_report(sampled_at_ms, Some(error), Seq::empty()),
            ),
            Some(Ok(list)) => CountersStepModel::Report(
                counters_report(
                    sampled_at_ms,
                    None,
                    reported_ports(ports, list, list.len() as int),
                ),
            ),
        }
    }
}

fn empty_report(sampled_at_ms: u64, counters_error: Option<String>) -> (r: CountersStep)
    ensures
        r.deep_view() == CountersStepModel::Report(
            counters_report(sampled_at_ms, counters_error.deep_view(), Seq::empty()),
        ),
{
    let ports: Vec<NeutronPortCountersV1> = Vec::new();
    assert(ports.deep_view() =~= Seq::<PortCountersModel>::empty());
    CountersStep::Report(
        NeutronStatusCountersV1 {
            counters_schema_version: NEUTRON_COUNTERS_SCHEMA_VERSION,
            sampled_at_ms,
            counters_error,
            ports,
        },
    )
}

fn report_port(port_id: &String, summary: &PortCounterSummary) -> (r: NeutronPortCountersV1)
    ensures
        r.deep_view() == reported_counters(port_id@, summary.deep_view()),
        r.tap_id == summary.tap_id,
        r.policy_packets == summary.policy_packets,
        r.policy_bytes == summary.policy_bytes,
        r.policy_allow_packets == summary.policy_allow_packets,
        r.policy_dropped_packets == summary.policy_dropped_packets,
        r.policy_dropped_bytes == summary.policy_dropped_bytes,
        r.drop_packets == summary.drop_packets,
        r.drop_bytes == summary.drop_bytes,
        r.truncated == summary.truncated,
{
    assert(summary.buckets.deep_view().len() == summary.buckets.len());
    let count: usize = if summary.buckets.len() > NEUTRON_MAX_COUNTER_BUCKET_ROWS_PER_PORT {
        NEUTRON_MAX_COUNTER_BUCKET_ROWS_PER_PORT
    } else {
        summary.buckets.len()
    };
    assert(summary.buckets.deep_view().take(summary.buckets.len() as int)
        =~= summary.buckets.deep_view());
    NeutronPortCountersV1 {
        port_id: port_id.duplicate(),
        tap_id: summary.tap_id,
        policy_packets: summary.policy_packets,
        policy_bytes: summary.policy_bytes,
        policy_allow_packets: summary.policy_allow_packets,
        policy_dropped_packets: summary.policy_dropped_packets,
        policy_dropped_bytes: summary.policy_dropped_bytes,
        drop_packets: summary.drop_packets,
        drop_bytes: summary.drop_bytes,
        truncated: summary.truncated,
        buckets: rank_rows(&summary.buckets, count),
        reasons: summary.reasons.duplicate(),
    }
}

/// Tells what reporting the counters has to do next.
pub fn build_neutron_counters_section(
    sampled_at_ms: u64,
    ports: &OrderedMap<u32, String>,
    summaries: &Option<Result<Vec<PortCounterSummary>, String>>,
) -> (r: CountersStep)
    ensures
        r.deep_view() == counters_step(
            sampled_at_ms,
            ports.deep_view(),
            match summaries {
                None => None,
                Some(result) => Some(result_view(*result)),
            },
        ),
{
    if ports.is_empty() {
        return empty_report(sampled_at_ms, None);
    }
    let list = match summaries {
        None => {
            let ghost keys = in_order::<u32>(ports.deep_view().dom());
            let n: usize = ports.len();
            let mut taps: Vec<u32> = Vec::new();
            let mut i: usize = 0;
            assert(taps.deep_view() =~= keys.take(0));
            while i < n
                invariant
                    i <= n,
                    n == keys.len(),
                    keys == in_order::<u32>(ports.deep_view().dom()),
                    taps.deep_view() == keys.take(i as int),
                decreases n - i,
            {
                let ghost before = taps.deep_view();
                taps.push(*ports.key_at(i));
                assert(taps.deep_view() =~= before.push(keys[i as int]));
                assert(keys.take(i + 1) =~= keys.take(i as int).push(keys[i as int]));
                i += 1;
            }
            assert(keys.take(i as int) =~= keys);
            return CountersStep::Read(taps);
        },
        Some(Err(error)) => {
            return empty_report(sampled_at_ms, Some(error.duplicate()));
        },
        Some(Ok(list)) => list,
    };
    let ghost models = list.deep_view();
    let mut reported: Vec<NeutronPortCountersV1> = Vec::new();
    let mut i: usize = 0;
    assert(reported.deep_view() =~= Seq::<PortCountersModel>::empty());
    while i < list.len()
        invariant
            i <= list.len(),
            models == list.deep_view(),
            reported.deep_view() == reported_ports(ports.deep_view(), models, i as int),
        decreases list.len() - i,
    {
        assert(models[i as int] == list@[i as int].deep_view());
        if let Some(port_id) = ports.get(&list[i].tap_id) {
            let ghost before = reported.deep_view();
            let port = report_port(port_id, &list[i]);
            let ghost pushed = port.deep_view();
            reported.push(port);
            assert(reported.deep_view() =~= before.push(pushed));
        }
        i += 1;
    }
    CountersStep::Report(
        NeutronStatusCountersV1 {
            counters_schema_version: NEUTRON_COUNTERS_SCHEMA_VERSION,
            sampled_at_ms,
            counters_error: None,
            ports: reported,
        },
    )
}

proof fn lemma_reported_count(ports: Map<u32, Seq<char>>, summaries: Seq<SummaryModel>, n: int)
    requires
        0 <= n <= summaries.len(),
    ensures
        reported_ports(ports, summaries, n).len() == summaries.take(n).filter(
            |s: SummaryModel| ports.dom().contains(s.tap_id),
        ).len(),
    decreases n,
{
    let known = |s: SummaryModel| ports.dom().contains(s.tap_id);
    if n <= 0 {
        summaries.take(0).lemma_filter_len(known);
    } else {
        lemma_reported_count(ports, summaries, n - 1);
        lemma_filter_step(summaries, known, n - 1);
    }
}

proof fn lemma_reported_from(
    ports: Map<u32, Seq<char>>,
    summaries: Seq<SummaryModel>,
    n: int,
    i: int,
) -> (j: int)
    requires
        0 <= n <= summaries.len(),
        0 <= i < reported_ports(ports, summaries, n).len(),
    ensures
        0 <= j < n,
        ports.dom().contains(summaries[j].tap_id),
        reported_ports(ports, summaries, n)[i] == reported_counters(
            ports[summaries[j].tap_id],
            summaries[j],
        ),
    decreases n,
{
    if i < reported_ports(ports, summaries, n - 1).len() {
        lemma_reported_from(ports, summaries, n - 1, i)
    } else {
        n - 1
    }
}

proof fn lemma_reported_to(
    ports: Map<u32, Seq<char>>,
    summaries: Seq<SummaryModel>,
    n: int,
    j: int,
) -> (i: int)
    requires
        0 <= j < n <= summaries.len(),
        ports.dom().contains(summaries[j].tap_id),
    ensures
        0 <= i < reported_ports(ports, summaries, n).len(),
        reported_ports(ports, summaries, n)[i] == reported_counters(
            ports[summaries[j].tap_id],
            summaries[j],
        ),
    decreases n,
{
    if j < n - 1 {
        lemma_reported_to(ports, summaries, n - 1, j)
    } else {
        reported_ports(ports, summaries, n - 1).len() as int
    }
}

/// True when a report of a port tells what was read for an interface: every figure is the figure of
/// the same name, the reasons are the reasons, and the rows are the rows, at most the first 512 of
/// them, with the most traffic first.
pub open spec fn tells(report: PortCountersModel, port_id: Seq<char>, read: SummaryModel) -> bool {
    &&& report.port_id == port_id
    &&& report.tap_id == read.tap_id
    &&& report.policy_packets == read.policy_packets
    &&& report.policy_bytes == read.policy_bytes
    &&& report.policy_allow_packets == read.policy_allow_packets
    &&& report.policy_dropped_packets == read.policy_dropped_packets
    &&& report.policy_dropped_bytes == read.policy_dropped_bytes
    &&& report.drop_packets == read.drop_packets
    &&& report.drop_bytes == read.drop_bytes
    &&& report.truncated == read.truncated
    &&& report.reasons == read.reasons
    &&& read.buckets.len() <= 512 ==> report.buckets.to_multiset() == read.buckets.to_multiset()
    &&& read.buckets.len() > 512 ==> report.buckets.to_multiset() == read.buckets.take(
        512,
    ).to_multiset()
    &&& forall|i: int, j: int|
        0 <= i < j < report.buckets.len() ==> (#[trigger] report.buckets[i]).bytes >= (
        #[trigger] report.buckets[j]).bytes
}

/// True when a report of a port tells one of the readings, for the port that its interface belongs
/// to.
pub open spec fn tells_one_of(
    report: PortCountersModel,
    ports: Map<u32, Seq<char>>,
    read: Seq<SummaryModel>,
) -> bool {
    exists|j: int|
        0 <= j < read.len() && ports.dom().contains((#[trigger] read[j]).tap_id) && tells(
            report,
            ports[read[j].tap_id],
            read[j],
        )
}

/// Every figure that is reported for a port is the figure of the same name that was read for its
/// interface.
pub proof fn figures_are_reported_as_read(port_id: Seq<char>, read: SummaryModel)
    ensures
        tells(reported_counters(port_id, read), port_id, read),
{
    ranking_orders_rows(read.buckets);
    ranking_orders_rows(read.buckets.take(512));
}

proof fn lemma_insert_filter(
    rows: Seq<BucketModel>,
    place: int,
    row: BucketModel,
    p: spec_fn(BucketModel) -> bool,
)
    requires
        0 <= place <= rows.len(),
        p(row) ==> forall|i: int| place <= i < rows.len() ==> !p(#[trigger] rows[i]),
    ensures
        rows.insert(place, row).filter(p) == if p(row) {
            rows.filter(p).push(row)
        } else {
            rows.filter(p)
        },
    decreases rows.len(),
{
    let after = rows.insert(place, row);
    let n = rows.len() as int;
    lemma_filter_step(after, p, n);
    assert(after.take(n + 1) =~= after);
    if place == n {
        assert(after.take(n) =~= rows);
        assert(after[n] == row);
    } else {
        let rest = rows.drop_last();
        lemma_insert_filter(rest, place, row, p);
        assert(after.take(n) =~= rest.insert(place, row));
        assert(after[n] == rows[n - 1]);
        lemma_filter_step(rows, p, n - 1);
        assert(rows.take(n) =~= rows);
        assert(rows.take(n - 1) =~= rest);
    }
}

/// Rows with the same traffic keep the order in which they were read.
pub proof fn ranking_keeps_the_order_of_equals(rows: Seq<BucketModel>, bytes: u64)
    ensures
        ranked(rows).filter(|row: BucketModel| row.bytes == bytes) == rows.filter(
            |row: BucketModel| row.bytes == bytes,
        ),
    decreases rows.len(),
{
    let same = |row: BucketModel| row.bytes == bytes;
    if rows.len() > 0 {
        let rest = rows.drop_last();
        let last = rows.last();
        let before = ranked(rest);
        let place = rank_place(before, last);
        ranking_keeps_the_order_of_equals(rest, bytes);
        ranking_orders_rows(rest);
        lemma_place(before.len() as int, 0, |i: int| before[i].bytes < last.bytes);
        if same(last) {
            assert forall|i: int| place <= i < before.len() implies !same(#[trigger] before[i]) by {
                assert(before[place].bytes < last.bytes);
                if i > place {
                    assert(before[place].bytes >= before[i].bytes);
                }
            }
        }
        lemma_insert_filter(before, place, last, same);
        lemma_filter_step(rows, same, rows.len() - 1);
        assert(rows.take(rows.len() as int) =~= rows);
        assert(rows.take(rows.len() - 1) =~= rest);
    } else {
        assert(rows =~= ranked(rows));
    }
}

/// Every interface that was read and belongs to a managed port is reported, once for each reading,
/// under the port that it belongs to and with what was read; nothing else is reported. What could
/// not be read is told as an error, and without managed ports nothing is read.
pub proof fn counters_tell_what_was_read(
    sampled_at_ms: u64,
    ports: Map<u32, Seq<char>>,
    summaries: Option<Result<Seq<SummaryModel>, Seq<char>>>,
)
    requires
        ports.dom().finite(),
    ensures
        ({
            let step = counters_step(sampled_at_ms, ports, summaries);
            &&& step is Read ==> summaries is None && forall|tap: u32| #[trigger]
                step->Read_0.contains(tap) <==> ports.dom().contains(tap)
            &&& summaries is None && ports.dom().len() > 0 ==> step is Read
            &&& step matches CountersStepModel::Report(report) ==> {
                &&& report.counters_schema_version == 1
                &&& report.sampled_at_ms == sampled_at_ms
                &&& ports.dom().len() > 0 && summaries is Some && summaries->0 is Err
                    ==> report.counters_error == Some(summaries->0->Err_0) && report.ports.len()
                    == 0
                &&& ports.dom().len() == 0 || (summaries is Some && summaries->0 is Ok)
                    ==> report.counters_error is None
                &&& ports.dom().len() == 0 ==> report.ports.len() == 0
                &&& ports.dom().len() > 0 && summaries is Some && summaries->0 is Ok ==> {
                    let read = summaries->0->Ok_0;
                    &&& report.ports.len() == read.filter(
                        |s: SummaryModel| ports.dom().contains(s.tap_id),
                    ).len()
                    &&& forall|i: int|
                        0 <= i < report.ports.len() ==> tells_one_of(
                            #[trigger] report.ports[i],
                            ports,
                            read,
                        )
                    &&& forall|j: int|
                        0 <= j < read.len() && ports.dom().contains((#[trigger] read[j]).tap_id)
                            ==> exists|i: int|
                            0 <= i < report.ports.len() && tells(
                                #[trigger] report.ports[i],
                                ports[read[j].tap_id],
                                read[j],
                            )
                }
            }
        }),
{
    let step = counters_step(sampled_at_ms, ports, summaries);
    lemma_in_order::<u32>(ports.dom());
    if ports.dom().len() == 0 {
        assert(ports =~= Map::empty());
    } else {
        assert(ports != Map::<u32, Seq<char>>::empty()) by {
            assert(Map::<u32, Seq<char>>::empty().dom().len() == 0);
        }
    }
    if ports.dom().len() > 0 && summaries is Some && summaries->0 is Ok {
        let read = summaries->0->Ok_0;
        let reported = step->Report_0.ports;
        lemma_reported_count(ports, read, read.len() as int);
        assert(read.take(read.len() as int) =~= read);
        assert forall|i: int| 0 <= i < reported.len() implies tells_one_of(
            #[trigger] reported[i],
            ports,
            read,
        ) by {
            let j = lemma_reported_from(ports, read, read.len() as int, i);
            figures_are_reported_as_read(ports[read[j].tap_id], read[j]);
            assert(tells(reported[i], ports[read[j].tap_id], read[j]));
        }
        assert forall|j: int|
            0 <= j < read.len() && ports.dom().contains((#[trigger] read[j]).tap_id) implies exists|
            i: int,
        |
            0 <= i < reported.len() && tells(
                #[trigger] reported[i],
                ports[read[j].tap_id],
                read[j],
            ) by {
            let i = lemma_reported_to(ports, read, read.len() as int, j);
            figures_are_reported_as_read(ports[read[j].tap_id], read[j]);
            assert(tells(reported[i], ports[read[j].tap_id], read[j]));
        }
    }
}

proof fn lemma_by_tap(
    ports: Seq<ManagedNeutronPortModel>,
    tap_ids: Map<Seq<char>, u32>,
    n: int,
    tap: u32,
)
    requires
        0 <= n <= ports.len(),
    ensures
        ports_by_tap(ports, tap_ids, n).dom().contains(tap) <==> exists|i: int|
            0 <= i < n && tap_ids.dom().contains((#[trigger] ports[i]).ifname)
                && tap_ids[ports[i].ifname] == tap,
        ports_by_tap(ports, tap_ids, n).dom().contains(tap) ==> exists|i: int|
            0 <= i < n && tap_ids.dom().contains((#[trigger] ports[i]).ifname)
                && tap_ids[ports[i].ifname] == tap && ports[i].port_id == ports_by_tap(
                ports,
                tap_ids,
                n,
            )[tap],
    decreases n,
{
    if n > 0 {
        lemma_by_tap(ports, tap_ids, n - 1, tap);
        if tap_ids.dom().contains(ports[n - 1].ifname) && tap_ids[ports[n - 1].ifname] == tap {
            assert(ports_by_tap(ports, tap_ids, n)[tap] == ports[n - 1].port_id);
        }
    }
}

/// The interfaces whose counters are read are those of the managed ports, and each is counted for a
/// port that it belongs to.
pub proof fn managed_interfaces_are_counted(
    ports: Map<Seq<char>, ManagedNeutronPortModel>,
    tap_ids: Map<Seq<char>, u32>,
    tap: u32,
)
    requires
        ports.dom().finite(),
    ensures
        counted_ports(ports, tap_ids).dom().contains(tap) <==> exists|k: Seq<char>| #[trigger]
            ports.dom().contains(k) && tap_ids.dom().contains(ports[k].ifname)
                && tap_ids[ports[k].ifname] == tap,
        counted_ports(ports, tap_ids).dom().contains(tap) ==> exists|k: Seq<char>| #[trigger]
            ports.dom().contains(k) && tap_ids.dom().contains(ports[k].ifname)
                && tap_ids[ports[k].ifname] == tap && ports[k].port_id == counted_ports(
                ports,
                tap_ids,
            )[tap],
{
    let keys = in_order::<String>(ports.dom());
    lemma_in_order::<String>(ports.dom());
    let list = values_in_order::<String, ManagedNeutronPortModel>(ports);
    lemma_by_tap(list, tap_ids, list.len() as int, tap);
    let counted = counted_ports(ports, tap_ids);
    if counted.dom().contains(tap) {
        let i = choose|i: int|
            0 <= i < list.len() && tap_ids.dom().contains((#[trigger] list[i]).ifname)
                && tap_ids[list[i].ifname] == tap && list[i].port_id == counted[tap];
        assert(keys.contains(keys[i]));
        assert(ports.dom().contains(keys[i]));
        assert(list[i] == ports[keys[i]]);
    }
    assert forall|k: Seq<char>| #[trigger]
        ports.dom().contains(k) && tap_ids.dom().contains(ports[k].ifname)
            && tap_ids[ports[k].ifname] == tap implies counted.dom().contains(tap) by {
        assert(keys.contains(k));
        let i = keys.index_of(k);
        assert(list[i] == ports[k]);
    }
}

} // verus!
