//! Waitlist: users join once, and the administrator approves them.
use vstd::prelude::*;
use crate::emergency::AccountId;

verus! {

/// Waitlist state.
pub struct WaitlistContract {
    /// Administrator, once initialized
    pub admin: Option<AccountId>,
    pub max_users: u32,
    /// Approvals made
    pub approved_count: u32,
    /// Users who joined, in joining order
    pub waitlist: Vec<AccountId>,
    /// Users approved, in approval order
    pub approved: Vec<AccountId>,
}

impl WaitlistContract {
    /// A waitlist with no administrator yet.
    pub fn new() -> (w: Self)
        ensures
            w.admin is None,
            w.max_users == 0,
            w.approved_count == 0,
            w.waitlist@.len() == 0,
            w.approved@.len() == 0,
    {
        WaitlistContract { admin: None, max_users: 0, approved_count: 0, waitlist: Vec::new(), approved: Vec::new() }
    }

    /// Set the administrator and the user limit, and reset the approval
    /// count.
    pub fn initialize(&mut self, admin: AccountId, max_users: u32)
        ensures
            *final(self) == (WaitlistContract { admin: Some(admin), max_users, approved_count: 0, ..*old(self) }),
    {
        self.admin = Some(admin);
        self.max_users = max_users;
        self.approved_count = 0;
    }

    /// Whether a user has joined.
    pub fn has_joined(&self, user: AccountId) -> (r: bool)
        ensures
            r == self.waitlist@.contains(user),
    {
        contains_account(&self.waitlist, user)
    }

    /// Join the waitlist (once).
    pub fn join_waitlist(&mut self, user: AccountId)
        requires
            !old(self).waitlist@.contains(user),
        ensures
            *final(self) == (WaitlistContract { waitlist: final(self).waitlist, ..*old(self) }),
            final(self).waitlist@ == old(self).waitlist@.push(user),
    {
        self.waitlist.push(user);
    }

    /// Approve a user (the administrator only); the approval is counted.
    pub fn approve_user(&mut self, admin: AccountId, user: AccountId)
        requires
            old(self).admin == Some(admin),
        ensures
            *final(self) == (WaitlistContract {
                approved: final(self).approved,
                approved_count: final(self).approved_count,
                ..*old(self)
            }),
            final(self).approved@ == old(self).approved@.push(user),
            final(self).approved_count == (if old(self).approved_count == u32::MAX { u32::MAX } else { (old(self).approved_count + 1) as u32 }),
    {
        self.approved.push(user);
        self.approved_count = self.approved_count.saturating_add(1);
    }

    /// Whether a user is approved.
    pub fn is_approved(&self, user: AccountId) -> (r: bool)
        ensures
            r == self.approved@.contains(user),
    {
        contains_account(&self.approved, user)
    }
}

/// Whether a list holds an account.
pub fn contains_account(v: &Vec<AccountId>, a: AccountId) -> (r: bool)
    ensures
        r == v@.contains(a),
{
    let mut i: usize = 0;
    while i < v.len()
        invariant
            i <= v.len(),
            forall|j: int| 0 <= j < i ==> v@[j] != a,
        decreases v.len() - i,
    {
        if v[i] == a {
            return true;
        }
        i = i + 1;
    }
    false
}

} // verus!
