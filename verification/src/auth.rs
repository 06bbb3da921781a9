//! What a login or a registration sends where the user left a choice open.
use vstd::prelude::*;
use vstd::string::StringExecFns;

verus! {

/// The name under which a device is registered where the user gave none.
pub open spec fn default_device_name() -> Seq<char> {
    "retrix"@
}

/// The kind of authentication that is tried where the server names none.
pub open spec fn default_stage() -> Seq<char> {
    "m.login.password"@
}

/// The first stage of the first of the flows that a server offers, if there is one.
pub open spec fn first_stage_of(flows: Seq<Vec<String>>) -> Option<Seq<char>> {
    if flows.len() > 0 && flows[0]@.len() > 0 {
        Some(flows[0]@[0]@)
    } else {
        None
    }
}

/// The name under which the device is registered: the one given, or the default.
pub fn device_display_name(device_name: Option<String>) -> (name: String)
    ensures
        name@ == match device_name {
            Some(given) => given@,
            None => default_device_name(),
        },
{
    match device_name {
        Some(given) => given,
        None => String::from_str("retrix"),
    }
}

/// The kind of authentication with which a registration is completed: the
/// first stage of the first flow that the server offers, or a password
/// where it offers none. The later stages and flows are not looked at.
pub fn first_stage(flows: &Vec<Vec<String>>) -> (kind: String)
    ensures
        kind@ == match first_stage_of(flows@) {
            Some(stage) => stage,
            None => default_stage(),
        },
{
    if flows.len() > 0 && flows[0].len() > 0 {
        flows[0][0].clone()
    } else {
        String::from_str("m.login.password")
    }
}

} // verus!
