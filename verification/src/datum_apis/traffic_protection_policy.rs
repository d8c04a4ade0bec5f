//! Traffic protection: the rule sets that guard a tunnel's public side.
use super::meta::ObjectMeta;
use vstd::prelude::*;

verus! {

#[derive(Debug, Clone)]
pub struct LocalPolicyTargetReferenceWithSectionName {
    pub group: String,
    pub kind: String,
    pub name: String,
    pub section_name: Option<String>,
}

#[derive(Debug, Clone, Copy, PartialEq, Eq, Structural)]
pub enum TrafficProtectionPolicyMode {
    Enforce,
}

#[derive(Debug, Clone, Copy, PartialEq, Eq, Structural)]
pub enum TrafficProtectionPolicyRuleSetType {
    OWASPCoreRuleSet,
}

#[derive(Debug, Clone, Copy, PartialEq, Eq, Structural)]
pub struct ParanoiaLevels {
    pub blocking: Option<i32>,
    pub detection: Option<i32>,
}

#[derive(Debug, Clone, Copy)]
pub struct OWASPCRS {
    pub paranoia_levels: Option<ParanoiaLevels>,
}

#[derive(Debug, Clone, Copy)]
pub struct TrafficProtectionPolicyRuleSet {
    pub rule_set_type: TrafficProtectionPolicyRuleSetType,
    pub owasp_core_rule_set: Option<OWASPCRS>,
}

#[derive(Debug, Clone)]
pub struct TrafficProtectionPolicySpec {
    pub target_refs: Vec<LocalPolicyTargetReferenceWithSectionName>,
    pub mode: Option<TrafficProtectionPolicyMode>,
    pub rule_sets: Option<Vec<TrafficProtectionPolicyRuleSet>>,
}

#[derive(Debug, Clone)]
pub struct TrafficProtectionPolicy {
    pub metadata: ObjectMeta,
    pub spec: TrafficProtectionPolicySpec,
}

} // verus!
