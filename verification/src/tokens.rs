//! AI token accounting: the monthly balance, its reset, spending, and plan changes.

use vstd::prelude::*;
use crate::text::same_text;

verus! {

/// The tokens of the free tier each month.
pub const FREE_TIER_TOKENS: i64 = 1000;

/// An account's token balance; a total of -1 means unlimited.
#[derive(Clone, Debug)]
pub struct TokenBalance {
    pub total: i64,
    pub used: i64,
    pub remaining: i64,
    /// When the balance resets, as an RFC 3339 date.
    pub reset_date: String,
    pub is_paid: bool,
    pub plan_id: String,
}

/// The seconds since the Unix epoch of an RFC 3339 date, as chrono parses it, or none when it
/// is not one.
pub uninterp spec fn rfc3339_seconds(s: Seq<char>) -> Option<i64>;

/// Parses an RFC 3339 date (`DateTime::parse_from_rfc3339`, then `timestamp`); the result is
/// named `rfc3339_seconds`.
#[verifier::external_body]
fn parse_rfc3339(s: &str) -> (r: Option<i64>)
    ensures
        r == rfc3339_seconds(s@),
{
    chrono::DateTime::parse_from_rfc3339(s).ok().map(|d| d.timestamp())
}

/// The monthly tokens of a plan: 1,000 for free, 10,000 for pro, unlimited (-1) for
/// unlimited, and the free amount for any other plan.
pub open spec fn monthly_tokens(plan_id: Seq<char>) -> i64 {
    if plan_id == "free"@ {
        1000
    } else if plan_id == "pro"@ {
        10000
    } else if plan_id == "unlimited"@ {
        -1i64
    } else {
        1000
    }
}

/// The monthly tokens of a plan (see `monthly_tokens`).
pub fn plan_monthly_tokens(plan_id: &str) -> (r: i64)
    ensures
        r == monthly_tokens(plan_id@),
{
    if same_text(plan_id, "free") {
        FREE_TIER_TOKENS
    } else if same_text(plan_id, "pro") {
        10000
    } else if same_text(plan_id, "unlimited") {
        -1
    } else {
        FREE_TIER_TOKENS
    }
}

/// Why tokens could not be spent or a plan changed.
#[derive(Clone, Debug, PartialEq, Eq)]
pub enum TokenError {
    /// Only a positive amount can be spent.
    NonPositiveAmount,
    /// Not enough tokens are left.
    Insufficient { required: i64, available: i64 },
    /// The stored reset date is not an RFC 3339 date.
    InvalidResetDate,
    /// No plan has this id.
    PlanNotFound { plan_id: String },
}

/// What a plan gives.
#[derive(Clone, Debug)]
pub struct PlanTerms {
    pub id: String,
    /// Tokens each month; -1 for unlimited.
    pub tokens_per_month: i64,
    /// Whether the plan costs money.
    pub paid: bool,
}

/// The plans on offer: free (1,000 tokens), pro (10,000, paid), unlimited (paid).
pub fn token_plan_terms() -> (r: Vec<PlanTerms>)
    ensures
        r@.len() == 3,
        r@[0].id@ == "free"@ && r@[0].tokens_per_month == 1000 && !r@[0].paid,
        r@[1].id@ == "pro"@ && r@[1].tokens_per_month == 10000 && r@[1].paid,
        r@[2].id@ == "unlimited"@ && r@[2].tokens_per_month == -1 && r@[2].paid,
{
    let mut v: Vec<PlanTerms> = Vec::new();
    v.push(PlanTerms { id: String::from_str("free"), tokens_per_month: 1000, paid: false });
    v.push(PlanTerms { id: String::from_str("pro"), tokens_per_month: 10000, paid: true });
    v.push(PlanTerms { id: String::from_str("unlimited"), tokens_per_month: -1, paid: true });
    v
}

/// The terms of a plan, if it is on offer.
pub open spec fn plan_of(plan_id: Seq<char>) -> Option<(i64, bool)> {
    if plan_id == "free"@ {
        Some((1000, false))
    } else if plan_id == "pro"@ {
        Some((10000, true))
    } else if plan_id == "unlimited"@ {
        Some((-1i64, true))
    } else {
        None
    }
}

/// Whether the balance's numbers agree: unlimited, or what is left is the total less what was
/// used, none of it negative.
pub open spec fn consistent(b: TokenBalance) -> bool {
    b.total == -1 || (b.used >= 0 && b.remaining >= 0 && b.used + b.remaining == b.total)
}

impl TokenBalance {
    /// A new account's balance: the free tier, nothing used, resetting at `reset_date`.
    pub fn free_tier(reset_date: String) -> (r: Self)
        ensures
            r.total == 1000 && r.used == 0 && r.remaining == 1000,
            r.reset_date@ == reset_date@,
            !r.is_paid,
            r.plan_id@ == "free"@,
            consistent(r),
    {
        TokenBalance {
            total: FREE_TIER_TOKENS,
            used: 0,
            remaining: FREE_TIER_TOKENS,
            reset_date,
            is_paid: false,
            plan_id: String::from_str("free"),
        }
    }

    /// Resets the balance when its reset date has come (`now` in seconds since the epoch): the
    /// plan's monthly tokens, nothing used, the next reset at `next_reset`. Whether it reset.
    pub fn check_and_reset(&mut self, now: i64, next_reset: String) -> (r: Result<bool, TokenError>)
        ensures
            rfc3339_seconds(old(self).reset_date@) is None ==> r == Err::<bool, TokenError>(TokenError::InvalidResetDate) && *final(self) == *old(self),
            rfc3339_seconds(old(self).reset_date@) matches Some(t) ==> (if now >= t {
                &&& r == Ok::<bool, TokenError>(true)
                &&& final(self).total == monthly_tokens(old(self).plan_id@)
                &&& final(self).used == 0
                &&& final(self).remaining == final(self).total
                &&& final(self).reset_date@ == next_reset@
                &&& final(self).plan_id == old(self).plan_id
                &&& final(self).is_paid == old(self).is_paid
            } else {
                r == Ok::<bool, TokenError>(false) && *final(self) == *old(self)
            }),
    {
        let reset_at = match parse_rfc3339(self.reset_date.as_str()) {
            Some(t) => t,
            None => {
                return Err(TokenError::InvalidResetDate);
            },
        };
        if now >= reset_at {
            let monthly = plan_monthly_tokens(self.plan_id.as_str());
            self.total = monthly;
            self.used = 0;
            self.remaining = self.total;
            self.reset_date = next_reset;
            Ok(true)
        } else {
            Ok(false)
        }
    }

    /// Spends tokens: refused unless the amount is positive; free on an unlimited plan;
    /// refused when fewer are left; otherwise counted as used and taken from what is left.
    pub fn consume(&mut self, tokens: i64) -> (r: Result<bool, TokenError>)
        requires
            tokens > 0 && old(self).total != -1 && old(self).remaining >= tokens ==> old(self).used + tokens <= i64::MAX,
        ensures
            tokens <= 0 ==> r == Err::<bool, TokenError>(TokenError::NonPositiveAmount) && *final(self) == *old(self),
            tokens > 0 && old(self).total == -1 ==> r == Ok::<bool, TokenError>(true) && *final(self) == *old(self),
            tokens > 0 && old(self).total != -1 && old(self).remaining < tokens ==> r == Err::<bool, TokenError>(
                TokenError::Insufficient { required: tokens, available: old(self).remaining },
            ) && *final(self) == *old(self),
            tokens > 0 && old(self).total != -1 && old(self).remaining >= tokens ==> {
                &&& r == Ok::<bool, TokenError>(true)
                &&& *final(self) == (TokenBalance { used: (old(self).used + tokens) as i64, remaining: (old(self).remaining - tokens) as i64, ..*old(self) })
            },
    {
        if tokens <= 0 {
            return Err(TokenError::NonPositiveAmount);
        }
        if self.total == -1 {
            return Ok(true);
        }
        if self.remaining < tokens {
            return Err(TokenError::Insufficient { required: tokens, available: self.remaining });
        }
        self.used = self.used + tokens;
        self.remaining = self.remaining - tokens;
        Ok(true)
    }

    /// Moves to a plan: its tokens (keeping what was used), paid or not as the plan is, the
    /// next reset at `next_reset`; refused for a plan not on offer.
    pub fn purchase(&mut self, plan_id: &str, next_reset: String) -> (r: Result<bool, TokenError>)
        requires
            plan_of(plan_id@) is Some && (plan_of(plan_id@)->0).0 != -1 ==> (plan_of(plan_id@)->0).0 - old(self).used >= i64::MIN
                && (plan_of(plan_id@)->0).0 - old(self).used <= i64::MAX,
        ensures
            plan_of(plan_id@) is None ==> (r matches Err(TokenError::PlanNotFound { plan_id: p }) && p@ == plan_id@) && *final(self) == *old(self),
            plan_of(plan_id@) matches Some(p) ==> {
                &&& r == Ok::<bool, TokenError>(true)
                &&& final(self).plan_id@ == plan_id@
                &&& final(self).is_paid == p.1
                &&& final(self).total == p.0
                &&& final(self).used == old(self).used
                &&& final(self).remaining == if p.0 == -1 { -1 } else { p.0 - old(self).used }
                &&& final(self).reset_date@ == next_reset@
            },
    {
        let (tokens, paid): (i64, bool) = if same_text(plan_id, "free") {
            (1000, false)
        } else if same_text(plan_id, "pro") {
            (10000, true)
        } else if same_text(plan_id, "unlimited") {
            (-1, true)
        } else {
            return Err(TokenError::PlanNotFound { plan_id: String::from_str(plan_id) });
        };
        self.plan_id = String::from_str(plan_id);
        self.is_paid = paid;
        self.total = tokens;
        self.remaining = if self.total == -1 { -1 } else { self.total - self.used };
        self.reset_date = next_reset;
        Ok(true)
    }
}

/// Spending keeps the balance's numbers in agreement.
pub proof fn lemma_consume_consistent(before: TokenBalance, tokens: i64, after: TokenBalance)
    requires
        consistent(before),
        tokens > 0,
        before.total != -1,
        before.remaining >= tokens,
        after == (TokenBalance { used: (before.used + tokens) as i64, remaining: (before.remaining - tokens) as i64, ..before }),
    ensures
        consistent(after),
        after.remaining >= 0,
{
}

} // verus!
