//! Decisions of the main window.

use crate::storage::AuthType;
use vstd::prelude::*;

verus! {

/// The password that a new tab offers before the user has been asked for
/// one: the empty password for a session that authenticates by password,
/// none for a session that authenticates by key.
pub fn first_password(auth_type: AuthType) -> (password: Option<String>)
    ensures
        match auth_type {
            AuthType::Password => password is Some && password->0@.len() == 0,
            AuthType::Key => password is None,
        },
{
    match auth_type {
        AuthType::Password => Some(String::new()),
        AuthType::Key => None,
    }
}

/// Whether closing a tab closes the window instead: it does when the tab is
/// the last one.
pub fn closes_window(pages: i32) -> (b: bool)
    ensures
        b == (pages <= 1),
{
    pages <= 1
}

} // verus!
