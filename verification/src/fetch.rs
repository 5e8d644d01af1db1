//! The page fetcher's retry policy: a bounded number of independent
//! attempts, and a fatal error once they are spent.
use vstd::prelude::*;
use crate::producer::CrawlError;
use crate::types::ImageWallRes;

verus! {

/// A bounded attempt counter, shared policy of the page fetcher and the
/// download workers: `budget` is the total number of attempts allowed,
/// not the retries after the first.
#[derive(Clone, Copy, Debug, PartialEq, Eq, Structural)]
pub struct RetryCounter {
    pub budget: u32,
    pub used: u32,
}

impl RetryCounter {
    /// A fresh counter with the whole budget ahead.
    pub fn new(budget: u32) -> (r: RetryCounter)
        ensures
            r.budget == budget,
            r.used == 0,
    {
        RetryCounter { budget, used: 0 }
    }

    /// Another attempt may begin.
    pub fn may_attempt(&self) -> (r: bool)
        ensures
            r == (self.used < self.budget),
    {
        self.used < self.budget
    }

    /// One attempt begins.
    pub fn record_attempt(&mut self)
        requires
            old(self).used < old(self).budget,
        ensures
            final(self).used == old(self).used + 1,
            final(self).budget == old(self).budget,
    {
        self.used = self.used + 1;
    }
}

/// Fetches one page from scripted attempt outcomes: attempt `k` meets
/// `outcomes[k]`, a failed transport or decode being `None`. Attempts are
/// independent — nothing of a failed attempt is kept — and once the budget
/// is spent the listing fetch is exhausted, which is fatal for the crawl.
/// Consumes the outcomes it attempts.
pub fn fetch_page_with_retries(outcomes: &mut Vec<Option<ImageWallRes>>, budget: u32) -> (r:
    Result<ImageWallRes, CrawlError>)
    requires
        old(outcomes)@.len() >= budget,
    ensures
        match r {
            Ok(page) => exists|k: int|
                0 <= k < budget && old(outcomes)@[k] is Some && page == old(outcomes)@[k]->0 && (
                forall|j: int| 0 <= j < k ==> old(outcomes)@[j] is None),
            Err(e) => e == CrawlError::ListingExhausted && (forall|k: int|
                0 <= k < budget ==> old(outcomes)@[k] is None),
        },
{
    let mut k: u32 = 0;
    while k < budget
        invariant
            0 <= k <= budget,
            old(outcomes)@.len() >= budget,
            outcomes@ == old(outcomes)@.skip(k as int),
            forall|j: int| 0 <= j < k ==> old(outcomes)@[j] is None,
        decreases budget - k,
    {
        let o = outcomes.remove(0);
        proof {
            assert(outcomes@ =~= old(outcomes)@.skip(k as int + 1));
            assert(o == old(outcomes)@[k as int]);
        }
        match o {
            Some(page) => {
                return Ok(page);
            },
            None => {
                k = k + 1;
            },
        }
    }
    Err(CrawlError::ListingExhausted)
}

} // verus!
