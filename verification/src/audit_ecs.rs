//! Frozen strings of the audit event for client subnets sent upstream.
use vstd::prelude::*;

verus! {

/// The log target of audit events.
pub const AUDIT_TARGET: &'static str = "audit";

/// The name of the event.
pub const AUDIT_ECS_INJECT_EVENT: &'static str = "ecs_inject";

/// Stands in for the profile of a client that has none.
pub const ANONYMOUS_PROFILE_TAG: &'static str = "<anonymous>";

/// The tag of a profile.
pub open spec fn tag_of(profile: Option<&str>) -> Seq<char> {
    match profile {
        Some(name) => name@,
        None => ANONYMOUS_PROFILE_TAG@,
    }
}

/// The profile that the event names.
pub fn profile_tag(profile: Option<&str>) -> (r: &str)
    ensures
        r@ == tag_of(profile),
{
    match profile {
        Some(name) => name,
        None => ANONYMOUS_PROFILE_TAG,
    }
}

/// A profile is named as it is; a client without one is anonymous.
pub proof fn events_name_the_profile(name: &str)
    ensures
        tag_of(Some(name)) == name@,
        tag_of(None) == "<anonymous>"@,
{
}

} // verus!
