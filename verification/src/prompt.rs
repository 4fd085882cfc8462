//! System-prompt assembly, with a verified rendering of the current UTC
//! time in calendar form.

use vstd::prelude::*;
use vstd::string::*;
use crate::clock::now_unix_seconds;
use crate::text::{spec_u64_string, u64_to_string};

verus! {

/// The last second this module renders as a date: the end of year 9999.
pub const MAX_RENDERED_SECOND: u64 = 253402300799;

/// A Gregorian leap year.
pub open spec fn is_leap(y: int) -> bool {
    y % 4 == 0 && (y % 100 != 0 || y % 400 == 0)
}

/// Days in a year.
pub open spec fn days_in_year(y: int) -> int {
    if is_leap(y) {
        366
    } else {
        365
    }
}

/// Days in a month of a year.
pub open spec fn days_in_month(y: int, m: int) -> int {
    if m == 2 {
        if is_leap(y) {
            29
        } else {
            28
        }
    } else if m == 4 || m == 6 || m == 9 || m == 11 {
        30
    } else {
        31
    }
}

/// Walks whole years forward from `y`, consuming `days`: the year the
/// remaining days fall in, and the day index within it.
pub open spec fn year_from(y: int, days: int) -> (int, int)
    decreases days when 0 <= days
{
    if days < days_in_year(y) {
        (y, days)
    } else {
        year_from(y + 1, days - days_in_year(y))
    }
}

/// Walks whole months forward from `m`, consuming `days`: the month the
/// remaining days fall in, and the day index within it.
pub open spec fn month_from(y: int, m: int, days: int) -> (int, int)
    decreases days when 0 <= days
{
    if days < days_in_month(y, m) {
        (m, days)
    } else {
        month_from(y, m + 1, days - days_in_month(y, m))
    }
}

/// A number rendered with at least two digits, zero-padded.
pub open spec fn spec_pad2(n: int) -> Seq<char> {
    if n < 10 {
        seq!['0'] + spec_u64_string(n)
    } else {
        spec_u64_string(n)
    }
}

/// A second since the epoch rendered as `YYYY-MM-DD HH:MM:SS` UTC; seconds
/// past year 9999 are not rendered.
pub open spec fn spec_format_time(secs: u64) -> Seq<char> {
    if secs > MAX_RENDERED_SECOND {
        "时间超出可显示范围"@
    } else {
        let days = secs as int / 86400;
        let rem = secs as int % 86400;
        let yd = year_from(1970, days);
        let md = month_from(yd.0, 1, yd.1);
        spec_u64_string(yd.0) + "-"@ + spec_pad2(md.0) + "-"@ + spec_pad2(md.1 + 1) + " "@
            + spec_pad2(rem / 3600) + ":"@ + spec_pad2(rem % 3600 / 60) + ":"@ + spec_pad2(
            rem % 60,
        )
    }
}

fn pad2(n: u64) -> (r: String)
    requires
        n < 100,
    ensures
        r@ == spec_pad2(n as int),
{
    if n < 10 {
        let mut s = "0".to_owned();
        let d = u64_to_string(n);
        s.append(d.as_str());
        proof {
            reveal_strlit("0");
            assert(s@ =~= spec_pad2(n as int));
        }
        s
    } else {
        u64_to_string(n)
    }
}

/// Renders a second since the epoch as a UTC calendar date and clock time.
pub fn format_time(secs: u64) -> (r: String)
    ensures
        r@ == spec_format_time(secs),
{
    if secs > MAX_RENDERED_SECOND {
        return "时间超出可显示范围".to_owned();
    }
    let days0 = secs / 86400;
    let rem = secs % 86400;
    let mut y: u64 = 1970;
    let mut days: u64 = days0;
    loop
        invariant
            days <= days0,
            days0 <= MAX_RENDERED_SECOND / 86400,
            1970 <= y,
            y - 1970 <= days0 - days,
            year_from(1970, days0 as int) == year_from(y as int, days as int),
        ensures
            1970 <= y,
            days < days_in_year(y as int),
            year_from(1970, days0 as int) == (y as int, days as int),
        decreases days,
    {
        let leap = (y % 4 == 0) && (y % 100 != 0 || y % 400 == 0);
        let diy: u64 = if leap {
            366
        } else {
            365
        };
        if days < diy {
            break ;
        }
        days = days - diy;
        y = y + 1;
    }
    let mut m: u64 = 1;
    let ghost day_of_year = days;
    loop
        invariant
            days <= day_of_year,
            day_of_year < 366,
            1 <= m,
            28 * (m - 1) <= day_of_year - days,
            month_from(y as int, 1, day_of_year as int) == month_from(
                y as int,
                m as int,
                days as int,
            ),
        ensures
            1 <= m,
            28 * (m - 1) <= day_of_year,
            days <= day_of_year,
            day_of_year < 366,
            days < days_in_month(y as int, m as int),
            month_from(y as int, 1, day_of_year as int) == (m as int, days as int),
        decreases days,
    {
        let dim: u64 = if m == 2 {
            if (y % 4 == 0) && (y % 100 != 0 || y % 400 == 0) {
                29
            } else {
                28
            }
        } else if m == 4 || m == 6 || m == 9 || m == 11 {
            30
        } else {
            31
        };
        if days < dim {
            break ;
        }
        days = days - dim;
        m = m + 1;
    }
    let mut out = u64_to_string(y);
    out.append("-");
    let mp = pad2(m);
    out.append(mp.as_str());
    out.append("-");
    let dp = pad2(days + 1);
    out.append(dp.as_str());
    out.append(" ");
    let hp = pad2(rem / 3600);
    out.append(hp.as_str());
    out.append(":");
    let minp = pad2(rem % 3600 / 60);
    out.append(minp.as_str());
    out.append(":");
    let sp = pad2(rem % 60);
    out.append(sp.as_str());
    proof {
        assert(out@ =~= spec_format_time(secs));
    }
    out
}

/// The simple system prompt: the current time, the fixed persona header,
/// and the configured character text.
pub open spec fn spec_simple_prompt(character: Seq<char>, t: u64) -> Seq<char> {
    "📅 当前时间：UTC "@ + spec_format_time(t) + "\n\n"@
        + "下面扮演名为\"小诗\"的角色进行对话，你要时刻牢记自己的名字\n"@
        + "接下来的对话回答请用纯文本，不要包含markdown等格式，也不要包含颜文字和emoji表情等其他非文本字符。\n\n"@
        + character
}

/// Builds the prompt texts a conversation turn starts from.
pub struct PromptTemplate;

impl PromptTemplate {
    /// The simplified system prompt, used when no long-term memory is
    /// available: the current time, the persona header, and the character
    /// text, at whatever second the clock read.
    pub fn build_simple_system_prompt(character_prompt: &str) -> (r: String)
        ensures
            exists|t: u64| r@ == #[trigger] spec_simple_prompt(character_prompt@, t),
    {
        let now = now_unix_seconds();
        let mut out = "📅 当前时间：UTC ".to_owned();
        let ts = format_time(now);
        out.append(ts.as_str());
        out.append("\n\n");
        out.append("下面扮演名为\"小诗\"的角色进行对话，你要时刻牢记自己的名字\n");
        out.append(
            "接下来的对话回答请用纯文本，不要包含markdown等格式，也不要包含颜文字和emoji表情等其他非文本字符。\n\n",
        );
        out.append(character_prompt);
        proof {
            assert(out@ =~= spec_simple_prompt(character_prompt@, now));
        }
        out
    }
}

} // verus!
