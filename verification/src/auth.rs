//! Logging in with a public key: who is let in, on the server and in its
//! set-up mode.
use vstd::prelude::*;

verus! {

/// What the server knows of an offered key: whether it is enabled, and
/// whether its owner's account is found and enabled.
#[derive(Clone, Copy, Debug, PartialEq, Eq, Structural)]
pub struct KeyFacts {
    pub key_enabled: bool,
    /// The owner's account: `Some(enabled)` when found.
    pub owner_enabled: Option<bool>,
}

/// Whether a login with a key is accepted: the key is registered and
/// enabled, and its owner's account exists and is enabled.
pub fn login_accepted(key: Option<KeyFacts>) -> (r: bool)
    ensures
        r == (key matches Some(k) && k.key_enabled && k.owner_enabled == Some(true)),
{
    match key {
        Some(k) => k.key_enabled && match k.owner_enabled {
            Some(e) => e,
            None => false,
        },
        None => false,
    }
}

/// What the set-up mode does with an offered key.
#[derive(Clone, Copy, Debug, PartialEq, Eq, Structural)]
pub enum SetupVerdict {
    /// The key and its owner are known: let in.
    Accept,
    /// The key is known but has no owner: refuse.
    Reject,
    /// The key is new: register it for the login name (creating the account
    /// when needed), then let in.
    Register,
}

/// What the set-up mode does with a key: `key_owner` is `None` for an unknown
/// key, else whether its owner is found.
pub fn setup_verdict(key_owner: Option<bool>) -> (r: SetupVerdict)
    ensures
        key_owner is None ==> r == SetupVerdict::Register,
        key_owner == Some(true) ==> r == SetupVerdict::Accept,
        key_owner == Some(false) ==> r == SetupVerdict::Reject,
{
    match key_owner {
        None => SetupVerdict::Register,
        Some(true) => SetupVerdict::Accept,
        Some(false) => SetupVerdict::Reject,
    }
}

/// How the server starts: whether it first runs the set-up mode (which
/// registers the first user's key), and whether that mode keeps running beside
/// the service.
#[derive(Clone, Copy, Debug, PartialEq, Eq, Structural)]
pub struct StartupPlan {
    pub setup: bool,
    pub setup_stays: bool,
}

/// How the server starts: the set-up mode runs when there is no host key yet
/// or in dangerous mode (`--dangerous`, or `DANGEROUS=1`), and stays only in
/// dangerous mode.
pub fn startup_plan(key_exists: bool, dangerous_env: Option<&str>, dangerous_flag: bool) -> (r: StartupPlan)
    ensures
        ({
            let danger = (dangerous_env matches Some(v) && v@ == "1"@) || dangerous_flag;
            &&& r.setup == (!key_exists || danger)
            &&& r.setup_stays == danger
        }),
{
    let danger = match dangerous_env {
        Some(v) => crate::text::str_equals(v, "1"),
        None => false,
    } || dangerous_flag;
    StartupPlan { setup: !key_exists || danger, setup_stays: danger }
}

} // verus!
