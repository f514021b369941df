//! What the operating system is asked about the current user. The answers
//! come from the `home` and `nix` crates and depend on the machine and the
//! moment, so nothing is promised of them: whoever asks must be prepared for
//! any answer.

use vstd::prelude::*;

verus! {

/// Calls `home::home_dir`, which gives the home directory of the current
/// user from the environment or, failing that, from the user database, and
/// nothing where neither tells. The path is handed on as text. No claim is
/// made of the result.
#[verifier::external_body]
pub(crate) fn current_home() -> (home: Option<String>) {
    match home::home_dir() {
        Some(path) => Some(path.to_string_lossy().into_owned()),
        None => None,
    }
}

/// Calls `nix::unistd::geteuid`, which gives the effective user id of the
/// calling process and cannot fail. No claim is made of the result.
#[verifier::external_body]
pub(crate) fn current_user_id() -> (uid: u32) {
    nix::unistd::geteuid().as_raw()
}

/// Calls `nix::unistd::User::from_uid`, which looks the user up in the user
/// database, and hands on the name: nothing where the database has no such
/// user or could not be read. No claim is made of the result.
#[verifier::external_body]
pub(crate) fn name_of_user(uid: u32) -> (name: Option<String>) {
    match nix::unistd::User::from_uid(nix::unistd::Uid::from_raw(uid)) {
        Ok(Some(user)) => Some(user.name),
        Ok(None) => None,
        Err(_) => None,
    }
}

} // verus!
