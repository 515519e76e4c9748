//! One stored record: a username, a password, and what the table added.

use vstd::prelude::*;

verus! {

/// A stored account. It is never changed once it is in the table.
#[derive(Debug, PartialEq, Eq)]
pub struct Account {
    /// The contact address. The table itself never sets one.
    pub email: Option<String>,
    /// The username, by which the account is sharded.
    pub user: String,
    /// The password, kept as plain text.
    pub pass: String,
    /// The number that the table gave the account when it was added.
    pub id: usize,
}

/// An account as a mathematical value.
pub struct AccountView {
    pub email: Option<Seq<char>>,
    pub user: Seq<char>,
    pub pass: Seq<char>,
    pub id: nat,
}

impl View for Account {
    type V = AccountView;

    open spec fn view(&self) -> AccountView {
        AccountView {
            email: match self.email {
                Some(address) => Some(address@),
                None => None,
            },
            user: self.user@,
            pass: self.pass@,
            id: self.id as nat,
        }
    }
}

impl AccountView {
    /// Whether the account answers a query for `user` with `pass`.
    pub open spec fn answers(self, user: Seq<char>, pass: Seq<char>) -> bool {
        self.user == user && self.pass == pass
    }
}

impl Account {
    /// An account without an email address.
    pub fn new(user: String, pass: String, id: usize) -> (account: Account)
        ensures
            account.email is None,
            account.user == user,
            account.pass == pass,
            account.id == id,
            account@ == (AccountView { email: None, user: user@, pass: pass@, id: id as nat }),
    {
        Account { email: None, user, pass, id }
    }
}

impl Clone for Account {
    fn clone(&self) -> (copy: Account)
        ensures
            copy == *self,
    {
        let email = match &self.email {
            Some(address) => Some(address.clone()),
            None => None,
        };
        Account { email, user: self.user.clone(), pass: self.pass.clone(), id: self.id }
    }
}

} // verus!
