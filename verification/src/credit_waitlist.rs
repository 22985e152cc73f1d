//! Credit waitlist: users queue once, the administrator invites them in
//! batches in queue order, and invited users are onboarded.
use vstd::prelude::*;
use crate::emergency::AccountId;
use crate::keyed::{latest, find_latest, lemma_latest_push};

verus! {

/// Where a user stands.
#[derive(Clone, Copy, Debug, PartialEq, Eq, Structural)]
pub enum Status {
    Waiting,
    Invited,
    Onboarded,
}

/// Credit waitlist state.
pub struct CreditWaitlist {
    /// Administrator, once initialized
    pub admin: Option<AccountId>,
    /// Users invited per release
    pub batch_size: u32,
    /// Queue positions from 0; positions before `queue_start` were released
    pub queue: Vec<AccountId>,
    pub queue_start: u32,
    /// Status records; a user's latest record is its status
    pub statuses: Vec<(u64, Status)>,
}

/// Status records after inviting the queue positions `start .. start + count`.
pub open spec fn invited(statuses: Seq<(u64, Status)>, queue: Seq<AccountId>, start: int, count: int) -> Seq<(u64, Status)>
    decreases count,
{
    if count <= 0 {
        statuses
    } else {
        invited(statuses, queue, start, count - 1).push((queue[start + count - 1], Status::Invited))
    }
}

impl CreditWaitlist {
    /// A waitlist with no administrator yet.
    pub fn new() -> (w: Self)
        ensures
            w.admin is None,
            w.batch_size == 0,
            w.queue@.len() == 0,
            w.queue_start == 0,
            w.statuses@.len() == 0,
    {
        CreditWaitlist { admin: None, batch_size: 0, queue: Vec::new(), queue_start: 0, statuses: Vec::new() }
    }

    /// Set the administrator and the batch size and empty the queue; the
    /// statuses already recorded stay.
    pub fn initialize(&mut self, admin: AccountId, batch_size: u32)
        ensures
            final(self).admin == Some(admin),
            final(self).batch_size == batch_size,
            final(self).queue@.len() == 0,
            final(self).queue_start == 0,
            final(self).statuses@ == old(self).statuses@,
    {
        self.admin = Some(admin);
        self.batch_size = batch_size;
        self.queue = Vec::new();
        self.queue_start = 0;
    }

    /// A user's status, if any.
    pub fn status_of(&self, user: AccountId) -> (r: Option<Status>)
        ensures
            r == latest(self.statuses@, user),
    {
        find_latest(&self.statuses, user)
    }

    /// Queue a user (once): it takes the next position and waits.
    pub fn join(&mut self, user: AccountId)
        requires
            latest(old(self).statuses@, user) is None,
            old(self).queue@.len() < u32::MAX,
        ensures
            final(self).queue@ == old(self).queue@.push(user),
            final(self).statuses@ == old(self).statuses@.push((user, Status::Waiting)),
            latest(final(self).statuses@, user) == Some(Status::Waiting),
            final(self).admin == old(self).admin,
            final(self).batch_size == old(self).batch_size,
            final(self).queue_start == old(self).queue_start,
    {
        self.queue.push(user);
        self.statuses.push((user, Status::Waiting));
        proof {
            lemma_latest_push(old(self).statuses@, user, Status::Waiting);
        }
    }

    /// Invite the next batch (the administrator only): up to `batch_size`
    /// users from the queue start, in order.
    pub fn release(&mut self, admin: AccountId)
        requires
            old(self).admin == Some(admin),
            old(self).queue_start <= old(self).queue@.len() <= u32::MAX,
        ensures
            ({
                let start = old(self).queue_start as int;
                let pending = old(self).queue@.len() - start;
                let count = if pending < old(self).batch_size { pending } else { old(self).batch_size as int };
                &&& final(self).statuses@ == invited(old(self).statuses@, old(self).queue@, start, count)
                &&& final(self).queue_start == start + count
            }),
            final(self).queue@ == old(self).queue@,
            final(self).admin == old(self).admin,
            final(self).batch_size == old(self).batch_size,
    {
        let end: u32 = self.queue.len() as u32;
        let batch: u32 = self.batch_size;
        let mut start: u32 = self.queue_start;
        let mut count: u32 = 0;
        while start < end && count < batch
            invariant
                end == self.queue@.len(),
                batch == self.batch_size,
                self.queue@ == old(self).queue@,
                self.admin == old(self).admin,
                self.batch_size == old(self).batch_size,
                start == old(self).queue_start + count,
                start <= end,
                count <= batch,
                self.statuses@ == invited(old(self).statuses@, old(self).queue@, old(self).queue_start as int, count as int),
            decreases end - start,
        {
            let user: AccountId = self.queue[start as usize];
            self.statuses.push((user, Status::Invited));
            start = start + 1;
            count = count + 1;
        }
        self.queue_start = start;
    }

    /// Record a user as onboarded.
    pub fn onboard(&mut self, user: AccountId)
        ensures
            final(self).statuses@ == old(self).statuses@.push((user, Status::Onboarded)),
            latest(final(self).statuses@, user) == Some(Status::Onboarded),
            final(self).queue@ == old(self).queue@,
            final(self).queue_start == old(self).queue_start,
            final(self).admin == old(self).admin,
            final(self).batch_size == old(self).batch_size,
    {
        self.statuses.push((user, Status::Onboarded));
        proof {
            lemma_latest_push(old(self).statuses@, user, Status::Onboarded);
        }
    }

    /// A user's status; the user must have one.
    pub fn get_status(&self, user: AccountId) -> (r: Status)
        requires
            latest(self.statuses@, user) is Some,
        ensures
            Some(r) == latest(self.statuses@, user),
    {
        match find_latest(&self.statuses, user) {
            Some(s) => s,
            None => Status::Waiting,
        }
    }
}

} // verus!
