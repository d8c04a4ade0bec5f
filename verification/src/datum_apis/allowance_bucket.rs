//! Quota: how much of a resource type a consumer may have, and has.
use vstd::prelude::*;

verus! {

/// The quota consumer (such as a project) that an allowance bucket tracks.
#[derive(Debug, Clone)]
pub struct ConsumerRef {
    pub api_group: Option<String>,
    pub kind: String,
    pub name: String,
    pub namespace: Option<String>,
}

/// An allowance bucket gathers the grants and the consumption of one consumer for one resource
/// type.
#[derive(Debug, Clone)]
pub struct AllowanceBucketSpec {
    pub consumer_ref: ConsumerRef,
    pub resource_type: String,
}

/// What the quota system has written.
#[derive(Debug, Clone, Copy)]
pub struct AllowanceBucketStatus {
    pub limit: i64,
    pub allocated: i64,
    pub available: i64,
}

impl Default for AllowanceBucketStatus {
    fn default() -> (r: Self)
        ensures
            r.limit == 0 && r.allocated == 0 && r.available == 0,
    {
        AllowanceBucketStatus { limit: 0, allocated: 0, available: 0 }
    }
}

} // verus!
