//! How long an evaluated dialogue is kept in long-term memory, decided from
//! its value score.

use vstd::prelude::*;
use vstd::string::*;

verus! {

/// Seconds in one week.
pub const WEEK_SECONDS: u64 = 604800;

/// Seconds in thirty days.
pub const MONTH_SECONDS: u64 = 2592000;

/// How long a dialogue is retained in long-term memory.
#[derive(Clone, Copy, Debug, PartialEq, Eq, Structural)]
pub enum RetentionDuration {
    /// Not stored at all.
    Discard,
    /// Kept one week.
    OneWeek,
    /// Kept one month.
    OneMonth,
    /// Kept forever.
    Forever,
}

impl RetentionDuration {
    /// The duration a value score buys: 0–25 nothing, 26–60 one week,
    /// 61–85 one month, 86–100 forever; anything outside 0–100 nothing.
    pub fn from_score(score: i32) -> (r: RetentionDuration)
        ensures
            r == spec_from_score(score as int),
    {
        if 0 <= score && score <= 25 {
            RetentionDuration::Discard
        } else if 26 <= score && score <= 60 {
            RetentionDuration::OneWeek
        } else if 61 <= score && score <= 85 {
            RetentionDuration::OneMonth
        } else if 86 <= score && score <= 100 {
            RetentionDuration::Forever
        } else {
            RetentionDuration::Discard
        }
    }

    /// When a dialogue stored now expires: immediately when it is not
    /// retained, after a week or a month otherwise, and never when it is
    /// kept forever.
    pub fn calculate_expiry(&self, now: u64) -> (r: Option<u64>)
        requires
            now + MONTH_SECONDS <= u64::MAX,
        ensures
            r == spec_expiry(*self, now),
    {
        match self {
            RetentionDuration::Discard => Some(now),
            RetentionDuration::OneWeek => Some(now + WEEK_SECONDS),
            RetentionDuration::OneMonth => Some(now + MONTH_SECONDS),
            RetentionDuration::Forever => None,
        }
    }

    /// A short readable label for the duration.
    pub fn as_str(&self) -> (r: &'static str)
        ensures
            match self {
                RetentionDuration::Discard => r@ == "不保存"@,
                RetentionDuration::OneWeek => r@ == "1周"@,
                RetentionDuration::OneMonth => r@ == "1个月"@,
                RetentionDuration::Forever => r@ == "永久"@,
            },
    {
        match self {
            RetentionDuration::Discard => "不保存",
            RetentionDuration::OneWeek => "1周",
            RetentionDuration::OneMonth => "1个月",
            RetentionDuration::Forever => "永久",
        }
    }
}

/// The retention band of each score.
pub open spec fn spec_from_score(score: int) -> RetentionDuration {
    if 0 <= score <= 25 {
        RetentionDuration::Discard
    } else if 26 <= score <= 60 {
        RetentionDuration::OneWeek
    } else if 61 <= score <= 85 {
        RetentionDuration::OneMonth
    } else if 86 <= score <= 100 {
        RetentionDuration::Forever
    } else {
        RetentionDuration::Discard
    }
}

/// The expiry second of a dialogue stored at `now`.
pub open spec fn spec_expiry(d: RetentionDuration, now: u64) -> Option<u64> {
    match d {
        RetentionDuration::Discard => Some(now),
        RetentionDuration::OneWeek => Some((now + WEEK_SECONDS) as u64),
        RetentionDuration::OneMonth => Some((now + MONTH_SECONDS) as u64),
        RetentionDuration::Forever => None,
    }
}

} // verus!
