//! Bug bounty: users submit reports, the administrator approves them with a
//! reward or rejects them, and the reporter claims an approved reward once.
use vstd::prelude::*;
use crate::emergency::AccountId;
use crate::keyed::{latest, find_latest, lemma_latest_push};

verus! {

/// Review status of a report.
#[derive(Clone, Copy, Debug, PartialEq, Eq, Structural)]
pub enum ReportStatus {
    Submitted,
    UnderReview,
    Approved,
    Rejected,
    Paid,
}

/// A report: the hash of its off-chain text.
#[derive(Clone, Debug)]
pub struct Report {
    pub hash: Vec<u8>,
}

/// Bounty state. Report `k` and its reporter sit at position `k`; statuses
/// and rewards are kept by report id, the latest record winning.
pub struct BountyProgram {
    pub admin: AccountId,
    pub reports: Vec<Report>,
    pub reporters: Vec<AccountId>,
    pub statuses: Vec<(u64, ReportStatus)>,
    pub rewards: Vec<(u64, i128)>,
}

impl BountyProgram {
    /// Reports and reporters line up, and an approved report has a reward.
    pub open spec fn wf(&self) -> bool {
        &&& self.reports@.len() == self.reporters@.len()
        &&& forall|id: u64| #[trigger] latest(self.statuses@, id) == Some(ReportStatus::Approved) ==> latest(self.rewards@, id) is Some
    }

    /// A program with an administrator and no reports.
    pub fn new(admin: AccountId) -> (b: Self)
        ensures
            b.wf(),
            b.admin == admin,
            b.reports@.len() == 0,
            b.statuses@.len() == 0,
            b.rewards@.len() == 0,
    {
        BountyProgram { admin, reports: Vec::new(), reporters: Vec::new(), statuses: Vec::new(), rewards: Vec::new() }
    }

    /// Status of a report, if any.
    pub fn status_of(&self, report_id: u32) -> (r: Option<ReportStatus>)
        ensures
            r == latest(self.statuses@, report_id as u64),
    {
        find_latest(&self.statuses, report_id as u64)
    }

    /// Submit a report: it gets the next id and is marked submitted.
    pub fn submit(&mut self, user: AccountId, hash: Vec<u8>) -> (id: u32)
        requires
            old(self).wf(),
            old(self).reports@.len() < u32::MAX,
        ensures
            final(self).wf(),
            id == old(self).reports@.len(),
            final(self).reports@ == old(self).reports@.push(Report { hash }),
            final(self).reporters@ == old(self).reporters@.push(user),
            final(self).statuses@ == old(self).statuses@.push((id as u64, ReportStatus::Submitted)),
            final(self).rewards@ == old(self).rewards@,
            final(self).admin == old(self).admin,
    {
        let id: u32 = self.reports.len() as u32;
        self.reports.push(Report { hash });
        self.reporters.push(user);
        self.statuses.push((id as u64, ReportStatus::Submitted));
        proof {
            lemma_latest_push(old(self).statuses@, id as u64, ReportStatus::Submitted);
        }
        id
    }

    /// Approve a report with a reward, or reject it (the administrator
    /// only).
    pub fn review(&mut self, admin: AccountId, report_id: u32, approve: bool, reward: i128)
        requires
            old(self).wf(),
            admin == old(self).admin,
        ensures
            final(self).wf(),
            approve ==> final(self).statuses@ == old(self).statuses@.push((report_id as u64, ReportStatus::Approved))
                && final(self).rewards@ == old(self).rewards@.push((report_id as u64, reward)),
            !approve ==> final(self).statuses@ == old(self).statuses@.push((report_id as u64, ReportStatus::Rejected))
                && final(self).rewards@ == old(self).rewards@,
            final(self).reports@ == old(self).reports@,
            final(self).reporters@ == old(self).reporters@,
            final(self).admin == old(self).admin,
    {
        let key: u64 = report_id as u64;
        if approve {
            self.statuses.push((key, ReportStatus::Approved));
            self.rewards.push((key, reward));
            proof {
                lemma_latest_push(old(self).statuses@, key, ReportStatus::Approved);
                lemma_latest_push(old(self).rewards@, key, reward);
            }
        } else {
            self.statuses.push((key, ReportStatus::Rejected));
            proof {
                lemma_latest_push(old(self).statuses@, key, ReportStatus::Rejected);
            }
        }
    }

    /// Claim the reward of one's approved report: it is marked paid and the
    /// reward returned.
    pub fn claim(&mut self, user: AccountId, report_id: u32) -> (reward: i128)
        requires
            old(self).wf(),
            report_id < old(self).reporters@.len(),
            old(self).reporters@[report_id as int] == user,
            latest(old(self).statuses@, report_id as u64) == Some(ReportStatus::Approved),
        ensures
            final(self).wf(),
            Some(reward) == latest(old(self).rewards@, report_id as u64),
            final(self).statuses@ == old(self).statuses@.push((report_id as u64, ReportStatus::Paid)),
            final(self).rewards@ == old(self).rewards@,
            final(self).reports@ == old(self).reports@,
            final(self).reporters@ == old(self).reporters@,
            final(self).admin == old(self).admin,
    {
        let key: u64 = report_id as u64;
        let reward: i128 = match find_latest(&self.rewards, key) {
            Some(r) => r,
            None => 0,
        };
        self.statuses.push((key, ReportStatus::Paid));
        proof {
            lemma_latest_push(old(self).statuses@, key, ReportStatus::Paid);
        }
        reward
    }
}

/// A claimed reward cannot be claimed again: the report is paid, no longer approved.
pub proof fn lemma_claim_only_once(statuses: Seq<(u64, ReportStatus)>, report_id: u32)
    ensures
        latest(statuses.push((report_id as u64, ReportStatus::Paid)), report_id as u64) == Some(ReportStatus::Paid),
        latest(statuses.push((report_id as u64, ReportStatus::Paid)), report_id as u64) != Some(ReportStatus::Approved),
{
    lemma_latest_push(statuses, report_id as u64, ReportStatus::Paid);
}

} // verus!
