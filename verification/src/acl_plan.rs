//! From the ACL of a snapshot to the plan for the datapath of one port.

use crate::acl_cidr::{cidr_text, AclIpv4Cidr, CidrModel};
use crate::acl_overlap::{acl_priority_overlap_reason, overlap_reason};
use crate::acl_ports::{
    merge_acl_ports, merged_ports, serialize_acl_port_ranges, serialized_ranges,
};
use crate::acl_rules::{
    acl_prefix, acl_runtime_limit_reason, canonical_rule, default_action_value, limit_reason,
    neutron_acl_prefix, normalize_acl_rule, normalize_default_action,
};
use crate::acl_selector::{
    dst_of, intern_acl_rules, interned_rules, interned_selectors_resolve, selector_table, src_of,
    AclSelectorId, CanonicalAclRule, CanonicalAclRuleModel, NormalizedAclRule,
    NormalizedAclRuleModel,
};
use crate::model::{NeutronAclRuleSnapshotModel, NeutronAclSnapshot, NeutronAclSnapshotModel};
use crate::ordered::{in_order, result_view, values_in_order, OrderedMap, Value};
use crate::payload::{payload_hash, stable_json_hash};
use crate::text::{decimal, lowered, text_eq, text_eq_ignore_case, u64_text, usize_text};
use vstd::prelude::*;
use vstd::string::*;

verus! {

/// A named set of networks for the datapath.
#[derive(Debug, PartialEq, Eq)]
pub struct AclGroupPlan {
    pub name: String,
    pub cidrs: Vec<String>,
}

/// The model of [`AclGroupPlan`].
#[verifier::ext_equal]
pub struct AclGroupPlanModel {
    pub name: Seq<char>,
    pub cidrs: Seq<Seq<char>>,
}

impl DeepView for AclGroupPlan {
    type V = AclGroupPlanModel;

    open spec fn deep_view(&self) -> AclGroupPlanModel {
        AclGroupPlanModel {
            name: self.name.deep_view(),
            cidrs: self.cidrs.deep_view(),
        }
    }
}

impl Value for AclGroupPlan {
    fn duplicate(&self) -> (r: Self) {
        AclGroupPlan {
            name: self.name.duplicate(),
            cidrs: self.cidrs.duplicate(),
        }
    }

    fn same(&self, other: &Self) -> (r: bool) {
        self.name.same(&other.name)
            && self.cidrs.same(&other.cidrs)
    }
}

impl Clone for AclGroupPlan {
    fn clone(&self) -> (r: Self)
        ensures
            r.deep_view() == self.deep_view(),
    {
        self.duplicate()
    }
}

/// One entry of the datapath policy table.
#[derive(Debug, PartialEq, Eq)]
pub struct AclPolicyPlan {
    pub src_group: String,
    pub dst_group: String,
    pub proto: u8,
    pub action: u8,
    pub direction: u8,
    pub ports: Option<String>,
}

/// The model of [`AclPolicyPlan`].
#[verifier::ext_equal]
pub struct AclPolicyPlanModel {
    pub src_group: Seq<char>,
    pub dst_group: Seq<char>,
    pub proto: u8,
    pub action: u8,
    pub direction: u8,
    pub ports: Option<Seq<char>>,
}

impl DeepView for AclPolicyPlan {
    type V = AclPolicyPlanModel;

    open spec fn deep_view(&self) -> AclPolicyPlanModel {
        AclPolicyPlanModel {
            src_group: self.src_group.deep_view(),
            dst_group: self.dst_group.deep_view(),
            proto: self.proto,
            action: self.action,
            direction: self.direction,
            ports: self.ports.deep_view(),
        }
    }
}

impl Value for AclPolicyPlan {
    fn duplicate(&self) -> (r: Self) {
        AclPolicyPlan {
            src_group: self.src_group.duplicate(),
            dst_group: self.dst_group.duplicate(),
            proto: self.proto,
            action: self.action,
            direction: self.direction,
            ports: self.ports.duplicate(),
        }
    }

    fn same(&self, other: &Self) -> (r: bool) {
        self.src_group.same(&other.src_group)
            && self.dst_group.same(&other.dst_group)
            && self.proto == other.proto
            && self.action == other.action
            && self.direction == other.direction
            && self.ports.same(&other.ports)
    }
}

impl Clone for AclPolicyPlan {
    fn clone(&self) -> (r: Self)
        ensures
            r.deep_view() == self.deep_view(),
    {
        self.duplicate()
    }
}

/// What the datapath of a port has to hold.
#[derive(Debug, PartialEq, Eq)]
pub struct AclApplyPlan {
    pub groups: Vec<AclGroupPlan>,
    pub policies: Vec<AclPolicyPlan>,
    pub conntrack_enabled: Option<bool>,
    pub force_bypass_reason: Option<String>,
}

/// The model of [`AclApplyPlan`].
#[verifier::ext_equal]
pub struct AclApplyPlanModel {
    pub groups: Seq<AclGroupPlanModel>,
    pub policies: Seq<AclPolicyPlanModel>,
    pub conntrack_enabled: Option<bool>,
    pub force_bypass_reason: Option<Seq<char>>,
}

impl DeepView for AclApplyPlan {
    type V = AclApplyPlanModel;

    open spec fn deep_view(&self) -> AclApplyPlanModel {
        AclApplyPlanModel {
            groups: self.groups.deep_view(),
            policies: self.policies.deep_view(),
            conntrack_enabled: self.conntrack_enabled.deep_view(),
            force_bypass_reason: self.force_bypass_reason.deep_view(),
        }
    }
}

impl Value for AclApplyPlan {
    fn duplicate(&self) -> (r: Self) {
        AclApplyPlan {
            groups: self.groups.duplicate(),
            policies: self.policies.duplicate(),
            conntrack_enabled: self.conntrack_enabled.duplicate(),
            force_bypass_reason: self.force_bypass_reason.duplicate(),
        }
    }

    fn same(&self, other: &Self) -> (r: bool) {
        self.groups.same(&other.groups)
            && self.policies.same(&other.policies)
            && self.conntrack_enabled.same(&other.conntrack_enabled)
            && self.force_bypass_reason.same(&other.force_bypass_reason)
    }
}

impl Clone for AclApplyPlan {
    fn clone(&self) -> (r: Self)
        ensures
            r.deep_view() == self.deep_view(),
    {
        self.duplicate()
    }
}

impl Default for AclApplyPlan {
    fn default() -> (r: AclApplyPlan)
        ensures
            r.deep_view() == empty_plan(None),
    {
        let r = AclApplyPlan {
            groups: Vec::new(),
            policies: Vec::new(),
            conntrack_enabled: None,
            force_bypass_reason: None,
        };
        assert(r.groups.deep_view() =~= Seq::<AclGroupPlanModel>::empty());
        assert(r.policies.deep_view() =~= Seq::<AclPolicyPlanModel>::empty());
        r
    }
}

/// A plan without groups and policies.
pub open spec fn empty_plan(conntrack_enabled: Option<bool>) -> AclApplyPlanModel {
    AclApplyPlanModel {
        groups: Seq::empty(),
        policies: Seq::empty(),
        conntrack_enabled,
        force_bypass_reason: None,
    }
}

/// The rules of an ACL once they are checked.
#[derive(Debug, PartialEq, Eq)]
pub enum AclValidatedTemplate {
    Ready {
        rules: Vec<NormalizedAclRule>,
        src_selectors: Vec<Vec<AclIpv4Cidr>>,
        dst_selectors: Vec<Vec<AclIpv4Cidr>>,
    },
    ForceBypass(String),
}

/// The model of [`AclValidatedTemplate`].
pub enum TemplateModel {
    Ready {
        rules: Seq<NormalizedAclRuleModel>,
        src_selectors: Seq<Seq<CidrModel>>,
        dst_selectors: Seq<Seq<CidrModel>>,
    },
    ForceBypass(Seq<char>),
}

impl DeepView for AclValidatedTemplate {
    type V = TemplateModel;

    open spec fn deep_view(&self) -> TemplateModel {
        match self {
            AclValidatedTemplate::Ready { rules, src_selectors, dst_selectors } => {
                TemplateModel::Ready {
                    rules: rules.deep_view(),
                    src_selectors: src_selectors.deep_view(),
                    dst_selectors: dst_selectors.deep_view(),
                }
            },
            AclValidatedTemplate::ForceBypass(reason) => TemplateModel::ForceBypass(reason@),
        }
    }
}

impl Value for AclValidatedTemplate {
    fn duplicate(&self) -> (r: Self) {
        match self {
            AclValidatedTemplate::Ready { rules, src_selectors, dst_selectors } => {
                AclValidatedTemplate::Ready {
                    rules: rules.duplicate(),
                    src_selectors: src_selectors.duplicate(),
                    dst_selectors: dst_selectors.duplicate(),
                }
            },
            AclValidatedTemplate::ForceBypass(reason) => AclValidatedTemplate::ForceBypass(
                reason.duplicate(),
            ),
        }
    }

    fn same(&self, other: &Self) -> (r: bool) {
        match (self, other) {
            (
                AclValidatedTemplate::Ready { rules: a, src_selectors: b, dst_selectors: c },
                AclValidatedTemplate::Ready { rules: x, src_selectors: y, dst_selectors: z },
            ) => a.same(x) && b.same(y) && c.same(z),
            (AclValidatedTemplate::ForceBypass(a), AclValidatedTemplate::ForceBypass(b)) => a.same(
                b,
            ),
            _ => false,
        }
    }
}

impl Clone for AclValidatedTemplate {
    fn clone(&self) -> (r: Self)
        ensures
            r.deep_view() == self.deep_view(),
    {
        self.duplicate()
    }
}

/// What checking an ACL came to: its template, or why it is refused.
#[derive(Debug, PartialEq, Eq)]
pub enum AclValidation {
    Template(AclValidatedTemplate),
    Refused(String),
}

/// The model of [`AclValidation`].
pub enum ValidationModel {
    Template(TemplateModel),
    Refused(Seq<char>),
}

impl DeepView for AclValidation {
    type V = ValidationModel;

    open spec fn deep_view(&self) -> ValidationModel {
        match self {
            AclValidation::Template(template) => ValidationModel::Template(template.deep_view()),
            AclValidation::Refused(error) => ValidationModel::Refused(error@),
        }
    }
}

impl Value for AclValidation {
    fn duplicate(&self) -> (r: Self) {
        match self {
            AclValidation::Template(template) => AclValidation::Template(template.duplicate()),
            AclValidation::Refused(error) => AclValidation::Refused(error.duplicate()),
        }
    }

    fn same(&self, other: &Self) -> (r: bool) {
        match (self, other) {
            (AclValidation::Template(a), AclValidation::Template(b)) => a.same(b),
            (AclValidation::Refused(a), AclValidation::Refused(b)) => a.same(b),
            _ => false,
        }
    }
}

/// The rules from the one at `i` on parsed, after those parsed so far.
pub open spec fn canonical_from(
    rules: Seq<NeutronAclRuleSnapshotModel>,
    i: int,
    parsed: Seq<CanonicalAclRuleModel>,
) -> Result<Seq<CanonicalAclRuleModel>, Seq<char>>
    decreases rules.len() - i,
{
    if i < 0 || i >= rules.len() {
        Ok(parsed)
    } else {
        match canonical_rule(rules[i], i as nat) {
            Err(error) => Err(error),
            Ok(rule) => canonical_from(rules, i + 1, parsed.push(rule)),
        }
    }
}

/// True when a default action lets unmatched traffic pass.
pub open spec fn default_passes(action: Seq<char>) -> bool {
    let normal = default_action_value(action);
    normal == "allow"@ || normal == "accept"@ || normal == "pass"@
}

/// The template of parsed rules.
pub open spec fn rules_template(rules: Seq<CanonicalAclRuleModel>) -> TemplateModel {
    let src = selector_table(src_of(rules));
    let dst = selector_table(dst_of(rules));
    match overlap_reason(interned_rules(rules), src, dst) {
        Some(reason) => TemplateModel::ForceBypass(reason),
        None => TemplateModel::Ready {
            rules: interned_rules(rules),
            src_selectors: src,
            dst_selectors: dst,
        },
    }
}

/// What checking an ACL comes to.
pub open spec fn validation(acl: NeutronAclSnapshotModel) -> ValidationModel {
    if !default_passes(acl.default_action) {
        ValidationModel::Refused(
            "default_action "@ + acl.default_action
                + " is unsupported in the minimal Neutron ACL translator"@,
        )
    } else {
        match limit_reason(acl.rules) {
            Some(reason) => ValidationModel::Template(TemplateModel::ForceBypass(reason)),
            None => match canonical_from(acl.rules, 0, Seq::empty()) {
                Err(error) => ValidationModel::Refused(error),
                Ok(rules) => ValidationModel::Template(rules_template(rules)),
            },
        }
    }
}

/// Checks the rules of an ACL.
pub fn validate_neutron_acl_template(acl: &NeutronAclSnapshot) -> (r: AclValidation)
    ensures
        r.deep_view() == validation(acl.deep_view()),
{
    let ghost models = acl.rules.deep_view();
    let default_action = normalize_default_action(acl.default_action.as_str());
    let action = default_action.as_str();
    if !(text_eq(action, "allow") || text_eq(action, "accept") || text_eq(action, "pass")) {
        let mut error = "default_action ".to_owned();
        error.append(acl.default_action.as_str());
        error.append(" is unsupported in the minimal Neutron ACL translator");
        return AclValidation::Refused(error);
    }
    if let Some(reason) = acl_runtime_limit_reason(acl) {
        return AclValidation::Template(AclValidatedTemplate::ForceBypass(reason));
    }
    let mut canonical: Vec<CanonicalAclRule> = Vec::new();
    let mut i: usize = 0;
    assert(canonical.deep_view() =~= Seq::<CanonicalAclRuleModel>::empty());
    while i < acl.rules.len()
        invariant
            i <= acl.rules.len(),
            models == acl.rules.deep_view(),
            limit_reason(acl.deep_view().rules) is None,
            default_passes(acl.deep_view().default_action),
            canonical_from(models, 0, Seq::empty()) == canonical_from(
                models,
                i as int,
                canonical.deep_view(),
            ),
        decreases acl.rules.len() - i,
    {
        assert(models[i as int] == acl.rules@[i as int].deep_view());
        match normalize_acl_rule(&acl.rules[i], i) {
            Err(error) => {
                return AclValidation::Refused(error);
            },
            Ok(rule) => {
                let ghost before = canonical.deep_view();
                canonical.push(rule);
                assert(canonical.deep_view() =~= before.push(rule.deep_view()));
            },
        }
        i += 1;
    }
    let ghost parsed = canonical.deep_view();
    let (rules, src_selectors, dst_selectors) = intern_acl_rules(canonical);
    let rule_slice = rules.as_slice();
    let src_slice = src_selectors.as_slice();
    let dst_slice = dst_selectors.as_slice();
    assert(rule_slice.deep_view() =~= interned_rules(parsed));
    assert(src_slice.deep_view() =~= selector_table(src_of(parsed)));
    assert(dst_slice.deep_view() =~= selector_table(dst_of(parsed)));
    assert forall|k: int| 0 <= k < rule_slice.deep_view().len() implies {
        let rule = #[trigger] rule_slice.deep_view()[k];
        &&& rule.src_selector_id.0 == 0 || rule.src_selector_id.0 < src_slice.deep_view().len()
        &&& rule.dst_selector_id.0 == 0 || rule.dst_selector_id.0 < dst_slice.deep_view().len()
    } by {
        interned_selectors_resolve(parsed, k);
    }
    if let Some(reason) = acl_priority_overlap_reason(rule_slice, src_slice, dst_slice) {
        return AclValidation::Template(AclValidatedTemplate::ForceBypass(reason));
    }
    AclValidation::Template(AclValidatedTemplate::Ready { rules, src_selectors, dst_selectors })
}

/// What tells one ACL content from another: policy, revision and content hash.
pub type AclValidationCacheKey = ((Option<String>, u64), String);

/// The model of [`AclValidationCacheKey`].
pub type CacheKeyModel = ((Option<Seq<char>>, u64), Seq<char>);

/// The results of checks that were made before.
#[derive(Debug, PartialEq, Eq)]
pub struct AclValidationCache {
    pub entries: OrderedMap<AclValidationCacheKey, AclValidation>,
    pub hits: usize,
    pub misses: usize,
}

impl Default for AclValidationCache {
    fn default() -> (r: AclValidationCache)
        ensures
            r.entries.deep_view() == Map::<CacheKeyModel, ValidationModel>::empty(),
            r.hits == 0,
            r.misses == 0,
    {
        AclValidationCache { entries: OrderedMap::new(), hits: 0, misses: 0 }
    }
}

/// The key of an ACL in the cache.
pub open spec fn cache_key(acl: NeutronAclSnapshotModel) -> CacheKeyModel {
    ((acl.policy_id, acl.revision), payload_hash(acl.content_payload))
}

/// Gives the key of an ACL in the cache.
pub fn acl_validation_cache_key(acl: &NeutronAclSnapshot) -> (r: AclValidationCacheKey)
    ensures
        r.deep_view() == cache_key(acl.deep_view()),
{
    ((acl.policy_id.duplicate(), acl.revision), stable_json_hash(&acl.content_payload))
}

/// What a check gives with the results of earlier checks at hand.
pub open spec fn cached_validation(
    entries: Map<CacheKeyModel, ValidationModel>,
    acl: NeutronAclSnapshotModel,
) -> ValidationModel {
    if entries.dom().contains(cache_key(acl)) {
        entries[cache_key(acl)]
    } else {
        validation(acl)
    }
}

/// True when a cache went from one state to another by a check of an ACL: the result is kept, and
/// counted as found or as new.
pub open spec fn cache_after(
    before: AclValidationCache,
    after: AclValidationCache,
    acl: NeutronAclSnapshotModel,
) -> bool {
    let entries = before.entries.deep_view();
    let hit = entries.dom().contains(cache_key(acl));
    &&& after.entries.deep_view() == entries.insert(cache_key(acl), cached_validation(entries, acl))
    &&& after.hits == before.hits + (if hit { 1int } else { 0 })
    &&& after.misses == before.misses + (if hit { 0int } else { 1 })
}

/// An ACL that was checked once is found again, with the same result.
pub proof fn checked_acl_is_found_again(
    before: AclValidationCache,
    after: AclValidationCache,
    acl: NeutronAclSnapshotModel,
)
    requires
        cache_after(before, after, acl),
    ensures
        after.entries.deep_view().dom().contains(cache_key(acl)),
        cached_validation(after.entries.deep_view(), acl) == cached_validation(
            before.entries.deep_view(),
            acl,
        ),
{
}

/// True when ACLs are encoded faithfully: those of one key have one default action and one list of
/// rules.
pub open spec fn keyed_by_content(acls: spec_fn(NeutronAclSnapshotModel) -> bool) -> bool {
    forall|a: NeutronAclSnapshotModel, b: NeutronAclSnapshotModel|
        acls(a) && acls(b) && #[trigger] cache_key(a) == #[trigger] cache_key(b)
            ==> a.default_action == b.default_action && a.rules == b.rules
}

/// True when what a cache holds for any of the given ACLs is what a check of it gives.
pub open spec fn cache_sound_among(
    entries: Map<CacheKeyModel, ValidationModel>,
    acls: spec_fn(NeutronAclSnapshotModel) -> bool,
) -> bool {
    forall|acl: NeutronAclSnapshotModel|
        acls(acl) && entries.dom().contains(#[trigger] cache_key(acl)) ==> entries[cache_key(acl)]
            == validation(acl)
}

/// Among faithfully encoded ACLs a cache changes no result: it begins sound, every check keeps it
/// so, and what it gives is what a check gives.
pub proof fn cached_checks_give_what_checks_give(
    before: AclValidationCache,
    after: AclValidationCache,
    acl: NeutronAclSnapshotModel,
    acls: spec_fn(NeutronAclSnapshotModel) -> bool,
)
    requires
        keyed_by_content(acls),
        acls(acl),
        cache_sound_among(before.entries.deep_view(), acls),
        cache_after(before, after, acl),
    ensures
        cache_sound_among(Map::empty(), acls),
        cached_validation(before.entries.deep_view(), acl) == validation(acl),
        cache_sound_among(after.entries.deep_view(), acls),
{
}

/// Checks an ACL, or takes over the result of an earlier check of the same content.
pub fn cached_neutron_acl_template(acl: &NeutronAclSnapshot, cache: &mut AclValidationCache) -> (r:
    AclValidation)
    requires
        old(cache).hits < usize::MAX,
        old(cache).misses < usize::MAX,
    ensures
        r.deep_view() == cached_validation(old(cache).entries.deep_view(), acl.deep_view()),
        cache_after(*old(cache), *final(cache), acl.deep_view()),
{
    let key = acl_validation_cache_key(acl);
    let found = match cache.entries.get(&key) {
        Some(known) => Some(known.duplicate()),
        None => None,
    };
    match found {
        Some(known) => {
            cache.hits = cache.hits + 1;
            assert(cache.entries.deep_view() =~= cache.entries.deep_view().insert(
                cache_key(acl.deep_view()),
                known.deep_view(),
            ));
            known
        },
        None => {
            cache.misses = cache.misses + 1;
            let checked = validate_neutron_acl_template(acl);
            cache.entries.insert(key, checked.duplicate());
            checked
        },
    }
}

/// The name of the group of a selector.
pub open spec fn group_name(port_id: Seq<char>, side: Seq<char>, id: AclSelectorId) -> Seq<char> {
    if id.0 == 0 {
        "any"@
    } else {
        acl_prefix(port_id) + side + ":selector:"@ + decimal((id.0 - 1) as nat)
    }
}

/// Names the group of a selector.
pub fn acl_group_for_selector(port_id: &str, side: &str, selector_id: AclSelectorId) -> (r: String)
    ensures
        r@ == group_name(port_id@, side@, selector_id),
{
    if selector_id.0 == 0 {
        return "any".to_owned();
    }
    let mut r = neutron_acl_prefix(port_id);
    r.append(side);
    r.append(":selector:");
    r.append(usize_text(selector_id.group_ordinal()).as_str());
    r
}

/// The notation of networks.
pub open spec fn cidr_texts(selector: Seq<CidrModel>) -> Seq<Seq<char>> {
    selector.map_values(|c: CidrModel| cidr_text(c))
}

/// The groups of the selectors of a table.
pub open spec fn table_groups(
    port_id: Seq<char>,
    side: Seq<char>,
    table: Seq<Seq<CidrModel>>,
) -> Seq<AclGroupPlanModel> {
    Seq::new(
        (if table.len() == 0 {
            0
        } else {
            table.len() - 1
        }) as nat,
        |i: int|
            AclGroupPlanModel {
                name: group_name(port_id, side, AclSelectorId((i + 1) as usize)),
                cidrs: cidr_texts(table[i + 1]),
            },
    )
}

fn write_cidrs(selector: &Vec<AclIpv4Cidr>) -> (r: Vec<String>)
    ensures
        r.deep_view() == cidr_texts(selector.deep_view()),
{
    let ghost wanted = cidr_texts(selector.deep_view());
    let mut r: Vec<String> = Vec::new();
    let mut i: usize = 0;
    while i < selector.len()
        invariant
            i <= selector.len(),
            wanted == cidr_texts(selector.deep_view()),
            r.deep_view() == wanted.take(i as int),
        decreases selector.len() - i,
    {
        let ghost before = r.deep_view();
        let text = selector[i].canonical();
        r.push(text);
        assert(r.deep_view() =~= before.push(text@));
        assert(selector.deep_view()[i as int] == selector@[i as int].deep_view());
        assert(wanted.take(i + 1) =~= wanted.take(i as int).push(wanted[i as int]));
        i += 1;
    }
    assert(wanted.take(i as int) =~= wanted);
    r
}

/// Lists the groups of the selectors of a table.
pub fn acl_selector_registry(port_id: &str, side: &str, selectors: &[Vec<AclIpv4Cidr>]) -> (r: Vec<
    AclGroupPlan,
>)
    ensures
        r.deep_view() == table_groups(port_id@, side@, selectors.deep_view()),
{
    let ghost wanted = table_groups(port_id@, side@, selectors.deep_view());
    let mut groups: Vec<AclGroupPlan> = Vec::new();
    let mut i: usize = 1;
    assert(groups.deep_view() =~= wanted.take(0));
    while i < selectors.len()
        invariant
            1 <= i,
            i <= selectors.len() || selectors.len() == 0,
            wanted == table_groups(port_id@, side@, selectors.deep_view()),
            i > selectors.len() ==> i == 1,
            groups.deep_view() == wanted.take(i - 1),
        decreases selectors.len() - i,
    {
        let ghost before = groups.deep_view();
        let group = AclGroupPlan {
            name: acl_group_for_selector(port_id, side, AclSelectorId(i)),
            cidrs: write_cidrs(&selectors[i]),
        };
        groups.push(group);
        proof {
            assert(groups.deep_view() =~= before.push(group.deep_view()));
            assert(selectors.deep_view()[i as int] == selectors@[i as int].deep_view());
            assert(group.deep_view() == wanted[i - 1]);
            assert(wanted.take(i as int) =~= wanted.take(i - 1).push(wanted[i - 1]));
        }
        i += 1;
    }
    assert(wanted.take(i - 1) =~= wanted);
    groups
}

/// The key of a policy in the datapath table.
pub type AclEffectivePolicyKey = ((String, String), (u8, u8));

/// The model of [`AclEffectivePolicyKey`].
pub type PolicyKeyModel = ((Seq<char>, Seq<char>), (u8, u8));

/// The key of the policy of a rule for one hook.
pub open spec fn policy_key(
    port_id: Seq<char>,
    rule: NormalizedAclRuleModel,
    direction: u8,
) -> PolicyKeyModel {
    (
        (
            group_name(port_id, "src"@, rule.src_selector_id),
            group_name(port_id, "dst"@, rule.dst_selector_id),
        ),
        (rule.proto, direction),
    )
}

/// The error text of two rules with one key and different actions.
pub open spec fn conflict_text(key: PolicyKeyModel, existing: u8, new: u8) -> Seq<char> {
    "conflicting effective ACL actions src="@ + key.0.0 + " dst="@ + key.0.1 + " proto="@
        + decimal(key.1.0 as nat) + " direction="@ + decimal(key.1.1 as nat)
        + " existing_action="@ + decimal(existing as nat) + " new_action="@ + decimal(new as nat)
}

/// The policies with those of one rule for one hook.
pub open spec fn add_policy(
    policies: Map<PolicyKeyModel, AclPolicyPlanModel>,
    port_id: Seq<char>,
    rule: NormalizedAclRuleModel,
    direction: u8,
) -> Result<Map<PolicyKeyModel, AclPolicyPlanModel>, Seq<char>> {
    let key = policy_key(port_id, rule, direction);
    let ports = serialized_ranges(rule.ports);
    if policies.dom().contains(key) {
        let existing = policies[key];
        if existing.action != rule.action {
            Err(conflict_text(key, existing.action, rule.action))
        } else {
            match merged_ports(existing.ports, ports) {
                Err(error) => Err(error),
                Ok(merged) => Ok(
                    policies.insert(key, AclPolicyPlanModel { ports: merged, ..existing }),
                ),
            }
        }
    } else {
        Ok(
            policies.insert(
                key,
                AclPolicyPlanModel {
                    src_group: key.0.0,
                    dst_group: key.0.1,
                    proto: rule.proto,
                    action: rule.action,
                    direction,
                    ports,
                },
            ),
        )
    }
}

/// The policies with those of one rule for its hooks from the one at `i` on.
pub open spec fn add_directions(
    policies: Map<PolicyKeyModel, AclPolicyPlanModel>,
    port_id: Seq<char>,
    rule: NormalizedAclRuleModel,
    i: int,
) -> Result<Map<PolicyKeyModel, AclPolicyPlanModel>, Seq<char>>
    decreases rule.directions.len() - i,
{
    if i >= rule.directions.len() {
        Ok(policies)
    } else {
        match add_policy(policies, port_id, rule, rule.directions[i]) {
            Err(error) => Err(error),
            Ok(more) => add_directions(more, port_id, rule, i + 1),
        }
    }
}

/// The policies with those of the rules from the one at `i` on.
pub open spec fn add_rules(
    policies: Map<PolicyKeyModel, AclPolicyPlanModel>,
    port_id: Seq<char>,
    rules: Seq<NormalizedAclRuleModel>,
    i: int,
) -> Result<Map<PolicyKeyModel, AclPolicyPlanModel>, Seq<char>>
    decreases rules.len() - i,
{
    if i >= rules.len() {
        Ok(policies)
    } else {
        match add_directions(policies, port_id, rules[i], 0) {
            Err(error) => Err(error),
            Ok(more) => add_rules(more, port_id, rules, i + 1),
        }
    }
}

/// The plan of checked rules for one port.
pub open spec fn rendered(
    port_id: Seq<char>,
    stateful: bool,
    rules: Seq<NormalizedAclRuleModel>,
    src_selectors: Seq<Seq<CidrModel>>,
    dst_selectors: Seq<Seq<CidrModel>>,
) -> Result<AclApplyPlanModel, Seq<char>> {
    match add_rules(Map::empty(), port_id, rules, 0) {
        Err(error) => Err(error),
        Ok(policies) => Ok(
            AclApplyPlanModel {
                groups: table_groups(port_id, "src"@, src_selectors) + table_groups(
                    port_id,
                    "dst"@,
                    dst_selectors,
                ),
                policies: values_in_order::<AclEffectivePolicyKey, AclPolicyPlanModel>(policies),
                conntrack_enabled: Some(stateful),
                force_bypass_reason: None,
            },
        ),
    }
}

fn conflict(key: &AclEffectivePolicyKey, existing: u8, new: u8) -> (r: String)
    ensures
        r@ == conflict_text(key.deep_view(), existing, new),
{
    let mut r = "conflicting effective ACL actions src=".to_owned();
    r.append(key.0.0.as_str());
    r.append(" dst=");
    r.append(key.0.1.as_str());
    r.append(" proto=");
    r.append(u64_text(key.1.0 as u64).as_str());
    r.append(" direction=");
    r.append(u64_text(key.1.1 as u64).as_str());
    r.append(" existing_action=");
    r.append(u64_text(existing as u64).as_str());
    r.append(" new_action=");
    r.append(u64_text(new as u64).as_str());
    r
}

/// Adds the policy of one rule for one hook.
fn put_policy(
    policies: &mut OrderedMap<AclEffectivePolicyKey, AclPolicyPlan>,
    port_id: &str,
    rule: &NormalizedAclRule,
    direction: u8,
) -> (r: Result<(), String>)
    ensures
        match r {
            Ok(_) => add_policy(
                old(policies).deep_view(),
                port_id@,
                rule.deep_view(),
                direction,
            ) == Ok::<Map<PolicyKeyModel, AclPolicyPlanModel>, Seq<char>>(
                final(policies).deep_view(),
            ),
            Err(error) => add_policy(
                old(policies).deep_view(),
                port_id@,
                rule.deep_view(),
                direction,
            ) == Err::<Map<PolicyKeyModel, AclPolicyPlanModel>, Seq<char>>(error@),
        },
{
    assert(rule.ports.deep_view() =~= rule.ports@);
    let ranges = rule.ports.duplicate();
    assert(ranges.deep_view() =~= ranges@);
    let ports = serialize_acl_port_ranges(ranges);
    let key: AclEffectivePolicyKey = (
        (
            acl_group_for_selector(port_id, "src", rule.src_selector_id),
            acl_group_for_selector(port_id, "dst", rule.dst_selector_id),
        ),
        (rule.proto, direction),
    );
    let found = match policies.get(&key) {
        Some(existing) => Some(existing.duplicate()),
        None => None,
    };
    match found {
        Some(mut existing) => {
            if existing.action != rule.action {
                return Err(conflict(&key, existing.action, rule.action));
            }
            match merge_acl_ports(existing.ports.duplicate(), ports) {
                Err(error) => Err(error),
                Ok(merged) => {
                    existing.ports = merged;
                    policies.insert(key, existing);
                    Ok(())
                },
            }
        },
        None => {
            let policy = AclPolicyPlan {
                src_group: key.0.0.duplicate(),
                dst_group: key.0.1.duplicate(),
                proto: rule.proto,
                action: rule.action,
                direction,
                ports,
            };
            policies.insert(key, policy);
            Ok(())
        },
    }
}

/// Plans the datapath of one port from checked rules.
pub fn render_neutron_acl_plan(
    port_id: &str,
    acl: &NeutronAclSnapshot,
    normalized_rules: &[NormalizedAclRule],
    src_selectors: &[Vec<AclIpv4Cidr>],
    dst_selectors: &[Vec<AclIpv4Cidr>],
) -> (r: Result<AclApplyPlan, String>)
    ensures
        result_view(r) == rendered(
            port_id@,
            acl.stateful,
            normalized_rules.deep_view(),
            src_selectors.deep_view(),
            dst_selectors.deep_view(),
        ),
{
    let ghost models = normalized_rules.deep_view();
    let mut groups = acl_selector_registry(port_id, "src", src_selectors);
    let mut dst_groups = acl_selector_registry(port_id, "dst", dst_selectors);
    let ghost src_models = groups.deep_view();
    let ghost dst_models = dst_groups.deep_view();
    groups.append(&mut dst_groups);
    assert(groups.deep_view() =~= src_models + dst_models);
    let mut policies: OrderedMap<AclEffectivePolicyKey, AclPolicyPlan> = OrderedMap::new();
    let mut i: usize = 0;
    while i < normalized_rules.len()
        invariant
            i <= normalized_rules.len(),
            models == normalized_rules.deep_view(),
            add_rules(Map::empty(), port_id@, models, 0) == add_rules(
                policies.deep_view(),
                port_id@,
                models,
                i as int,
            ),
        decreases normalized_rules.len() - i,
    {
        let rule = &normalized_rules[i];
        assert(models[i as int] == rule.deep_view());
        assert(rule.directions.deep_view() =~= rule.directions@);
        let ghost start = policies.deep_view();
        let mut k: usize = 0;
        while k < rule.directions.len()
            invariant
                k <= rule.directions.len(),
                models == normalized_rules.deep_view(),
                i < models.len(),
                models[i as int] == rule.deep_view(),
                rule.directions.deep_view() == rule.directions@,
                add_rules(Map::empty(), port_id@, models, 0) == add_rules(
                    start,
                    port_id@,
                    models,
                    i as int,
                ),
                add_directions(start, port_id@, models[i as int], 0) == add_directions(
                    policies.deep_view(),
                    port_id@,
                    models[i as int],
                    k as int,
                ),
            decreases rule.directions.len() - k,
        {
            if let Err(error) = put_policy(&mut policies, port_id, rule, rule.directions[k]) {
                return Err(error);
            }
            k += 1;
        }
        i += 1;
    }
    let ghost wanted = values_in_order::<AclEffectivePolicyKey, AclPolicyPlanModel>(
        policies.deep_view(),
    );
    let mut list: Vec<AclPolicyPlan> = Vec::new();
    let n: usize = policies.len();
    let mut m: usize = 0;
    while m < n
        invariant
            m <= n,
            n == in_order::<AclEffectivePolicyKey>(policies.deep_view().dom()).len(),
            wanted == values_in_order::<AclEffectivePolicyKey, AclPolicyPlanModel>(
                policies.deep_view(),
            ),
            list.deep_view() == wanted.take(m as int),
        decreases n - m,
    {
        let ghost before = list.deep_view();
        let policy = policies.value_at(m).duplicate();
        list.push(policy);
        assert(list.deep_view() =~= before.push(policy.deep_view()));
        assert(wanted.take(m + 1) =~= wanted.take(m as int).push(wanted[m as int]));
        m += 1;
    }
    assert(wanted.take(m as int) =~= wanted);
    Ok(
        AclApplyPlan {
            groups,
            policies: list,
            conntrack_enabled: Some(acl.stateful),
            force_bypass_reason: None,
        },
    )
}

/// The plan that leaves the traffic of a port alone.
pub open spec fn bypass_plan(stateful: bool, reason: Seq<char>) -> AclApplyPlanModel {
    AclApplyPlanModel { force_bypass_reason: Some(reason), ..empty_plan(Some(stateful)) }
}

/// Plans to leave the traffic of a port alone, for a reason.
pub fn force_bypass_acl_plan(acl: &NeutronAclSnapshot, reason: String) -> (r: AclApplyPlan)
    ensures
        r.deep_view() == bypass_plan(acl.stateful, reason@),
{
    let mut plan = AclApplyPlan::default();
    plan.conntrack_enabled = Some(acl.stateful);
    plan.force_bypass_reason = Some(reason);
    plan
}

/// True when an ACL is to be enforced.
pub open spec fn acl_enforced(acl: NeutronAclSnapshotModel) -> bool {
    acl.enabled && lowered(acl.status) == lowered("ready"@) && lowered(acl.effective_action)
        == lowered("enforce"@)
}

/// The plan for one port of an ACL whose check came to the given result.
pub open spec fn translation(
    port_id: Seq<char>,
    acl: NeutronAclSnapshotModel,
    checked: ValidationModel,
) -> Result<AclApplyPlanModel, Seq<char>> {
    if !acl_enforced(acl) {
        Ok(empty_plan(Some(acl.stateful)))
    } else {
        match checked {
            ValidationModel::Refused(error) => Err(error),
            ValidationModel::Template(TemplateModel::ForceBypass(reason)) => Ok(
                bypass_plan(acl.stateful, reason),
            ),
            ValidationModel::Template(
                TemplateModel::Ready { rules, src_selectors, dst_selectors },
            ) => rendered(port_id, acl.stateful, rules, src_selectors, dst_selectors),
        }
    }
}

/// Plans the datapath of one port for an ACL.
pub fn translate_neutron_acl_with_cache(
    port_id: &str,
    acl: &NeutronAclSnapshot,
    cache: &mut AclValidationCache,
) -> (r: Result<AclApplyPlan, String>)
    requires
        old(cache).hits < usize::MAX,
        old(cache).misses < usize::MAX,
    ensures
        result_view(r) == translation(
            port_id@,
            acl.deep_view(),
            cached_validation(old(cache).entries.deep_view(), acl.deep_view()),
        ),
        !acl_enforced(acl.deep_view()) ==> *final(cache) == *old(cache),
        acl_enforced(acl.deep_view()) ==> cache_after(*old(cache), *final(cache), acl.deep_view()),
{
    if !acl.enabled || !text_eq_ignore_case(acl.status.as_str(), "ready") || !text_eq_ignore_case(
        acl.effective_action.as_str(),
        "enforce",
    ) {
        let mut plan = AclApplyPlan::default();
        plan.conntrack_enabled = Some(acl.stateful);
        return Ok(plan);
    }
    match cached_neutron_acl_template(acl, cache) {
        AclValidation::Refused(error) => Err(error),
        AclValidation::Template(AclValidatedTemplate::ForceBypass(reason)) => Ok(
            force_bypass_acl_plan(acl, reason),
        ),
        AclValidation::Template(
            AclValidatedTemplate::Ready { rules, src_selectors, dst_selectors },
        ) => {
            let rule_slice = rules.as_slice();
            let src_slice = src_selectors.as_slice();
            let dst_slice = dst_selectors.as_slice();
            assert(rule_slice.deep_view() =~= rules.deep_view());
            assert(src_slice.deep_view() =~= src_selectors.deep_view());
            assert(dst_slice.deep_view() =~= dst_selectors.deep_view());
            render_neutron_acl_plan(port_id, acl, rule_slice, src_slice, dst_slice)
        },
    }
}

/// Two ACLs share a place in the cache only where they are one revision of one policy, with one hash
/// of what they hold.
pub proof fn cache_places_tell_acls_apart(a: NeutronAclSnapshotModel, b: NeutronAclSnapshotModel)
    requires
        cache_key(a) == cache_key(b),
    ensures
        a.policy_id == b.policy_id,
        a.revision == b.revision,
        payload_hash(a.content_payload) == payload_hash(b.content_payload),
{
}

} // verus!
