//! Referral program: users name a referrer once; traded volume is recorded
//! per user and earns the referrer a commission at a percentage rate, which
//! the referrer withdraws whole.
use vstd::prelude::*;
use crate::emergency::AccountId;
use crate::keyed::{latest, find_latest, lemma_latest_push};
use crate::nft_types::div_toward_zero;

verus! {

/// Referral state; the latest record of a user is its current value.
pub struct ReferralProgram {
    /// Referrer of each user
    pub referrers: Vec<(u64, AccountId)>,
    /// Traded volume of each user (0 when none)
    pub volumes: Vec<(u64, i128)>,
    /// Commission owed to each referrer (0 when none)
    pub commissions: Vec<(u64, i128)>,
    /// Commission rate in percent, once set
    pub commission_rate: Option<i128>,
}

/// A value, or 0 without a record.
pub open spec fn or_zero(v: Option<i128>) -> int {
    match v {
        Some(x) => x as int,
        None => 0,
    }
}

/// Commission on a volume: `amount * rate / 100`, rounded toward zero.
pub open spec fn commission_on(amount: int, rate: int) -> int {
    div_toward_zero(amount * rate, 100)
}

/// The computations of recording a volume fit in 128 bits (and a rate is
/// set when the user has a referrer).
pub open spec fn record_fits(p: ReferralProgram, user: AccountId, amount: i128) -> bool {
    &&& i128::MIN <= or_zero(latest(p.volumes@, user)) + amount <= i128::MAX
    &&& latest(p.referrers@, user) matches Some(r) ==> ({
        &&& p.commission_rate is Some
        &&& i128::MIN <= amount * p.commission_rate->0 <= i128::MAX
        &&& i128::MIN <= or_zero(latest(p.commissions@, r)) + commission_on(amount as int, p.commission_rate->0 as int) <= i128::MAX
    })
}

/// `a * b / 100` rounded toward zero.
fn percent_toward_zero(a: i128, b: i128) -> (r: i128)
    requires
        i128::MIN <= a * b <= i128::MAX,
    ensures
        r == div_toward_zero(a * b, 100),
{
    let p: i128 = a * b;
    if p >= 0 {
        let q: u128 = (p as u128) / 100;
        assert(q == p / 100);
        q as i128
    } else {
        let m: u128 = ((-(p + 1)) as u128) + 1;
        assert(m == -p);
        let q: u128 = m / 100;
        assert(q == (-p) / 100);
        assert(q <= m);
        -(q as i128)
    }
}

impl ReferralProgram {
    /// A program with a commission rate and no records.
    pub fn new(commission_rate: i128) -> (p: Self)
        ensures
            p.referrers@.len() == 0,
            p.volumes@.len() == 0,
            p.commissions@.len() == 0,
            p.commission_rate == Some(commission_rate),
    {
        ReferralProgram { referrers: Vec::new(), volumes: Vec::new(), commissions: Vec::new(), commission_rate: Some(commission_rate) }
    }

    /// Referrer of a user, if set.
    pub fn referrer_of(&self, user: AccountId) -> (r: Option<AccountId>)
        ensures
            r == latest(self.referrers@, user),
    {
        find_latest(&self.referrers, user)
    }

    /// Traded volume of a user.
    pub fn volume_of(&self, user: AccountId) -> (r: i128)
        ensures
            r == or_zero(latest(self.volumes@, user)),
    {
        match find_latest(&self.volumes, user) {
            Some(v) => v,
            None => 0,
        }
    }

    /// Commission owed to a referrer.
    pub fn commission_of(&self, referrer: AccountId) -> (r: i128)
        ensures
            r == or_zero(latest(self.commissions@, referrer)),
    {
        match find_latest(&self.commissions, referrer) {
            Some(v) => v,
            None => 0,
        }
    }

    /// Name a referrer for a user: not oneself, and only once.
    pub fn register_referral(&mut self, user: AccountId, referrer: AccountId)
        requires
            user != referrer,
            latest(old(self).referrers@, user) is None,
        ensures
            final(self).referrers@ == old(self).referrers@.push((user, referrer)),
            latest(final(self).referrers@, user) == Some(referrer),
            final(self).volumes@ == old(self).volumes@,
            final(self).commissions@ == old(self).commissions@,
            final(self).commission_rate == old(self).commission_rate,
    {
        self.referrers.push((user, referrer));
        proof {
            lemma_latest_push(old(self).referrers@, user, referrer);
        }
    }

    /// Record traded volume for a user; its referrer, if any, earns the
    /// commission on it.
    pub fn record_volume(&mut self, user: AccountId, amount: i128)
        requires
            record_fits(*old(self), user, amount),
        ensures
            latest(final(self).volumes@, user) == Some((or_zero(latest(old(self).volumes@, user)) + amount) as i128),
            forall|u: AccountId| u != user ==> #[trigger] latest(final(self).volumes@, u) == latest(old(self).volumes@, u),
            latest(old(self).referrers@, user) is None ==> final(self).commissions@ == old(self).commissions@,
            latest(old(self).referrers@, user) matches Some(r) ==> {
                &&& latest(final(self).commissions@, r) == Some((or_zero(latest(old(self).commissions@, r))
                    + commission_on(amount as int, old(self).commission_rate->0 as int)) as i128)
                &&& forall|u: AccountId| u != r ==> #[trigger] latest(final(self).commissions@, u) == latest(old(self).commissions@, u)
            },
            final(self).referrers@ == old(self).referrers@,
            final(self).commission_rate == old(self).commission_rate,
    {
        let current: i128 = self.volume_of(user);
        self.volumes.push((user, current + amount));
        proof {
            lemma_latest_push(old(self).volumes@, user, (current + amount) as i128);
        }
        match self.referrer_of(user) {
            Some(referrer) => {
                let rate: i128 = match self.commission_rate {
                    Some(r) => r,
                    None => 0,
                };
                let commission: i128 = percent_toward_zero(amount, rate);
                let owed: i128 = self.commission_of(referrer);
                let ghost before: Seq<(u64, i128)> = self.commissions@;
                self.commissions.push((referrer, owed + commission));
                proof {
                    lemma_latest_push(before, referrer, (owed + commission) as i128);
                }
            },
            None => {},
        }
    }

    /// Withdraw everything a referrer is owed; it must be positive. The
    /// balance drops to 0 and the amount is returned.
    pub fn withdraw(&mut self, affiliate: AccountId) -> (amount: i128)
        requires
            or_zero(latest(old(self).commissions@, affiliate)) > 0,
        ensures
            amount == or_zero(latest(old(self).commissions@, affiliate)),
            latest(final(self).commissions@, affiliate) == Some(0i128),
            forall|u: AccountId| u != affiliate ==> #[trigger] latest(final(self).commissions@, u) == latest(old(self).commissions@, u),
            final(self).referrers@ == old(self).referrers@,
            final(self).volumes@ == old(self).volumes@,
            final(self).commission_rate == old(self).commission_rate,
    {
        let amount: i128 = self.commission_of(affiliate);
        self.commissions.push((affiliate, 0));
        proof {
            lemma_latest_push(old(self).commissions@, affiliate, 0i128);
        }
        amount
    }
}

} // verus!
