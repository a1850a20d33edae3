use vstd::prelude::*;

verus! {

/// The fixed identity under which the gateway subscribes to the work
/// queue. The subscription is non-exclusive, so further instances under
/// their own identities can share the queue, each message going to
/// exactly one of them.
pub fn consumer_identity() -> (r: String)
    ensures
        r@ == "consumer"@,
{
    "consumer".to_owned()
}

/// The in-flight delivery limit applied to the consume channel: one, so
/// that processing within an instance is strictly serialized and the
/// broker never pushes a backlog of unacknowledged deliveries. Throughput
/// is scaled by running more instances, not by concurrency within one.
pub fn consumer_prefetch_limit() -> (n: u16)
    ensures
        n == 1,
{
    1
}

} // verus!
