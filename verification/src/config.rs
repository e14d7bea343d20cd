//! The accounts a user has set up, and which of them is in use.

use vstd::prelude::*;

verus! {

/// The credentials of one account.
#[derive(Debug)]
pub struct Account {
    pub consumer_key: String,
    pub consumer_secret: String,
    pub access_token: String,
    pub access_secret: String,
    pub bearer_token: String,
}

/// The accounts and the position of the one in use.
#[derive(Debug)]
pub struct Config {
    pub current_account: usize,
    pub accounts: Vec<Account>,
}

impl Default for Config {
    fn default() -> (config: Self)
        ensures
            config.current_account == 0,
            config.accounts@.len() == 0,
    {
        Config { current_account: 0, accounts: Vec::new() }
    }
}

/// The permission bits that the directory of the configuration, or the file
/// in it, is to have: the owner may do everything with the directory, and
/// read and write the file; nobody else may do anything.
pub open spec fn expected_mode(is_dir: bool) -> u32 {
    if is_dir {
        0o700
    } else {
        0o600
    }
}

/// The permission bits of a mode: its lowest nine bits.
pub open spec fn permission_bits(mode: u32) -> u32 {
    mode & 0o777
}

/// The permission bits that are expected in place of the ones found, or none
/// where the ones found are the expected ones.
pub fn permissions_to_set(mode: u32, is_dir: bool) -> (expected: Option<u32>)
    ensures
        expected == if permission_bits(mode) == expected_mode(is_dir) {
            None
        } else {
            Some(expected_mode(is_dir))
        },
{
    let expected: u32 = if is_dir {
        0o700
    } else {
        0o600
    };
    if mode & 0o777 == expected {
        None
    } else {
        Some(expected)
    }
}

impl Config {
    /// Whether the position of the account in use names one of the accounts.
    pub open spec fn has_current(&self) -> bool {
        self.current_account < self.accounts@.len()
    }

    /// The account in use.
    pub fn current_account(&self) -> (account: &Account)
        requires
            self.has_current(),
        ensures
            *account == self.accounts@[self.current_account as int],
    {
        &self.accounts[self.current_account]
    }

    /// The account in use, if the position names one.
    pub fn selected_account(&self) -> (account: Option<&Account>)
        ensures
            account is Some == self.has_current(),
            account matches Some(a) ==> *a == self.accounts@[self.current_account as int],
    {
        if self.current_account < self.accounts.len() {
            Some(self.current_account())
        } else {
            None
        }
    }
}

} // verus!
