//! Codex usage windows and banked resets, as the OpenAI usage API reports
//! them, and the bar text made from them.
//!
//! The API reports two rate-limit windows (five hours and one week) without
//! saying which is which; they are told apart by their length. A window's
//! used percentage is carried as the type parameter `P`, which this module
//! only moves around.
use vstd::prelude::*;

use crate::text;
use crate::text::{append_chars, chars_of, decimal_chars, replace_chars, string_of};

verus! {

broadcast use vstd::string::group_string_axioms;

/// One rate-limit window.
#[derive(Debug, Clone, Copy)]
pub struct Window<P> {
    pub used_percent: P,
    pub limit_window_seconds: Option<u64>,
    pub reset_at: Option<i64>,
    pub reset_after_seconds: Option<u64>,
}

#[derive(Debug, Clone, Copy)]
pub struct RateLimit<P> {
    pub primary_window: Option<Window<P>>,
    pub secondary_window: Option<Window<P>>,
}

#[derive(Debug, Clone, Copy, PartialEq, Eq, Structural)]
pub struct ResetCreditSummary {
    pub available_count: u64,
}

/// The usage endpoint's answer.
#[derive(Debug, Clone, Copy)]
pub struct UsageResponse<P> {
    pub rate_limit: RateLimit<P>,
    pub rate_limit_reset_credits: Option<ResetCreditSummary>,
}

/// The reset-credits endpoint's answer.
#[derive(Debug, Clone, Copy, PartialEq, Eq, Structural)]
pub struct ResetCreditsResponse {
    pub available_count: u64,
}

/// What the bar shows.
#[derive(Debug, Clone, Copy)]
pub struct DisplayUsage<P> {
    pub five_hour_used: P,
    pub week_used: P,
    pub banked: Option<u64>,
    pub five_hour_reset: Option<i64>,
    pub week_reset: Option<i64>,
}

/// The length by which windows are ordered; a window of unknown length
/// comes last.
pub open spec fn window_length<P>(w: Window<P>) -> u64 {
    match w.limit_window_seconds {
        Some(s) => s,
        None => u64::MAX,
    }
}

/// `x` held to the range of `i64`.
pub open spec fn clamp_i64(x: int) -> i64 {
    if x > i64::MAX {
        i64::MAX
    } else if x < i64::MIN {
        i64::MIN
    } else {
        x as i64
    }
}

/// The `i64` with the same bits as `x`.
pub open spec fn bits_as_i64(x: u64) -> int {
    if x <= i64::MAX {
        x as int
    } else {
        x - 0x1_0000_0000_0000_0000
    }
}

/// When a window resets: its own timestamp, or else `now` plus the seconds
/// it reports left (added saturating).
pub open spec fn reset_time<P>(w: Window<P>, now: i64) -> Option<i64> {
    match w.reset_at {
        Some(t) => Some(t),
        None => match w.reset_after_seconds {
            Some(s) => Some(clamp_i64(now + bits_as_i64(s))),
            None => None,
        },
    }
}

fn saturating_add_i64(a: i64, b: i64) -> (r: i64)
    ensures
        r == clamp_i64(a + b),
{
    let x: i128 = a as i128 + b as i128;
    if x > i64::MAX as i128 {
        i64::MAX
    } else if x < i64::MIN as i128 {
        i64::MIN
    } else {
        x as i64
    }
}

fn saturating_sub_i64(a: i64, b: i64) -> (r: i64)
    ensures
        r == clamp_i64(a - b),
{
    let x: i128 = a as i128 - b as i128;
    if x > i64::MAX as i128 {
        i64::MAX
    } else if x < i64::MIN as i128 {
        i64::MIN
    } else {
        x as i64
    }
}

/// The `i64` with the same bits as `x`, as `x as i64` gives it.
pub fn u64_bits_as_i64(x: u64) -> (r: i64)
    ensures
        r == bits_as_i64(x),
{
    if x <= i64::MAX as u64 {
        x as i64
    } else {
        let high: i64 = (x - 0x8000_0000_0000_0000u64) as i64;
        high - 0x4000_0000_0000_0000i64 - 0x4000_0000_0000_0000i64
    }
}

fn reset_timestamp<P>(window: &Window<P>, now: i64) -> (r: Option<i64>)
    ensures
        r == reset_time(*window, now),
{
    match window.reset_at {
        Some(t) => Some(t),
        None => match window.reset_after_seconds {
            Some(s) => Some(saturating_add_i64(now, u64_bits_as_i64(s))),
            None => None,
        },
    }
}

/// The bar's values from the usage response: `None` unless both windows
/// are there. The shorter window (by `window_length`; the primary one on a
/// tie) is the five-hour window. Banked resets come from `banked`, else
/// from the summary inside the response.
pub open spec fn display_of<P>(response: UsageResponse<P>, banked: Option<u64>, now: i64) -> Option<
    DisplayUsage<P>,
> {
    match (response.rate_limit.primary_window, response.rate_limit.secondary_window) {
        (Some(p), Some(s)) => {
            let (five, week) = if window_length(s) < window_length(p) {
                (s, p)
            } else {
                (p, s)
            };
            Some(
                DisplayUsage {
                    five_hour_used: five.used_percent,
                    week_used: week.used_percent,
                    banked: match banked {
                        Some(b) => Some(b),
                        None => match response.rate_limit_reset_credits {
                            Some(c) => Some(c.available_count),
                            None => None,
                        },
                    },
                    five_hour_reset: reset_time(five, now),
                    week_reset: reset_time(week, now),
                },
            )
        },
        _ => None,
    }
}

/// The earlier of two optional times.
pub open spec fn earliest(a: Option<i64>, b: Option<i64>) -> Option<i64> {
    match (a, b) {
        (Some(x), Some(y)) => Some(if y < x { y } else { x }),
        (Some(x), None) => Some(x),
        (None, Some(y)) => Some(y),
        (None, None) => None,
    }
}

impl<P: Copy> DisplayUsage<P> {
    /// The bar's values from the usage response (see `display_of`). The
    /// used percentages are passed on as the response holds them.
    pub fn from_response(response: &UsageResponse<P>, banked: Option<u64>, now: i64) -> (r:
        Option<Self>)
        ensures
            r == display_of(*response, banked, now),
    {
        let (five_hour, week) = match (
            &response.rate_limit.primary_window,
            &response.rate_limit.secondary_window,
        ) {
            (Some(p), Some(s)) => {
                let lp = match p.limit_window_seconds {
                    Some(x) => x,
                    None => u64::MAX,
                };
                let ls = match s.limit_window_seconds {
                    Some(x) => x,
                    None => u64::MAX,
                };
                if ls < lp {
                    (s, p)
                } else {
                    (p, s)
                }
            },
            _ => {
                return None;
            },
        };
        let banked = match banked {
            Some(b) => Some(b),
            None => match &response.rate_limit_reset_credits {
                Some(c) => Some(c.available_count),
                None => None,
            },
        };
        Some(
            DisplayUsage {
                five_hour_used: five_hour.used_percent,
                week_used: week.used_percent,
                banked,
                five_hour_reset: reset_timestamp(five_hour, now),
                week_reset: reset_timestamp(week, now),
            },
        )
    }

    /// The closest reset of the two windows.
    pub fn next_reset(&self) -> (r: Option<i64>)
        ensures
            r == earliest(self.five_hour_reset, self.week_reset),
    {
        match (self.five_hour_reset, self.week_reset) {
            (Some(x), Some(y)) => Some(if y < x { y } else { x }),
            (Some(x), None) => Some(x),
            (None, Some(y)) => Some(y),
            (None, None) => None,
        }
    }

    /// The bar text: `template` with each token replaced in this order:
    /// `{5h_used}`, `{1w_used}`, `{5h_left}`, `{1w_left}` by the given
    /// percentage texts, `{banked}` by the banked count (`?` when unknown),
    /// and `{next_reset}`, `{5h_reset}`, `{1w_reset}` by countdowns from
    /// `now`.
    pub fn render_with_percents(
        &self,
        template: &str,
        now: i64,
        five_hour_used: &str,
        week_used: &str,
        five_hour_left: &str,
        week_left: &str,
    ) -> (r: String)
        ensures
            r@ == usage_rendered(
                template@,
                five_hour_used@,
                week_used@,
                five_hour_left@,
                week_left@,
                banked_text(self.banked),
                reset_text(earliest(self.five_hour_reset, self.week_reset), now),
                reset_text(self.five_hour_reset, now),
                reset_text(self.week_reset, now),
            ),
    {
        let banked = match self.banked {
            Some(v) => decimal_chars(v),
            None => chars_of("?"),
        };
        let t = chars_of(template);
        let t = replace_chars(&t, &chars_of("{5h_used}"), &chars_of(five_hour_used));
        let t = replace_chars(&t, &chars_of("{1w_used}"), &chars_of(week_used));
        let t = replace_chars(&t, &chars_of("{5h_left}"), &chars_of(five_hour_left));
        let t = replace_chars(&t, &chars_of("{1w_left}"), &chars_of(week_left));
        let t = replace_chars(&t, &chars_of("{banked}"), &banked);
        let next = format_reset(self.next_reset(), now);
        let t = replace_chars(&t, &chars_of("{next_reset}"), &chars_of(next.as_str()));
        let five = format_reset(self.five_hour_reset, now);
        let t = replace_chars(&t, &chars_of("{5h_reset}"), &chars_of(five.as_str()));
        let week = format_reset(self.week_reset, now);
        let t = replace_chars(&t, &chars_of("{1w_reset}"), &chars_of(week.as_str()));
        string_of(&t)
    }
}

/// The banked count as the bar shows it: `?` when unknown.
pub open spec fn banked_text(banked: Option<u64>) -> Seq<char> {
    match banked {
        Some(v) => text::decimal(v as nat),
        None => "?"@,
    }
}

/// The usage template with its tokens replaced, in order.
pub open spec fn usage_rendered(
    template: Seq<char>,
    five_hour_used: Seq<char>,
    week_used: Seq<char>,
    five_hour_left: Seq<char>,
    week_left: Seq<char>,
    banked: Seq<char>,
    next_reset: Seq<char>,
    five_hour_reset: Seq<char>,
    week_reset: Seq<char>,
) -> Seq<char> {
    let t = text::replaced(template, "{5h_used}"@, five_hour_used);
    let t = text::replaced(t, "{1w_used}"@, week_used);
    let t = text::replaced(t, "{5h_left}"@, five_hour_left);
    let t = text::replaced(t, "{1w_left}"@, week_left);
    let t = text::replaced(t, "{banked}"@, banked);
    let t = text::replaced(t, "{next_reset}"@, next_reset);
    let t = text::replaced(t, "{5h_reset}"@, five_hour_reset);
    text::replaced(t, "{1w_reset}"@, week_reset)
}

/// The countdown to `timestamp` as the bar shows it: `?` when unknown,
/// `now` once it has passed, otherwise days and hours, hours and minutes,
/// minutes, or `<1m`.
pub open spec fn reset_text(timestamp: Option<i64>, now: i64) -> Seq<char> {
    match timestamp {
        None => "?"@,
        Some(t) => {
            let seconds = clamp_i64(t - now) as int;
            if seconds <= 0 {
                "now"@
            } else {
                let days = seconds / 86_400;
                let hours = (seconds % 86_400) / 3_600;
                let minutes = (seconds % 3_600) / 60;
                if days > 0 {
                    text::decimal(days as nat) + "d "@ + text::decimal(hours as nat) + "h"@
                } else if hours > 0 {
                    text::decimal(hours as nat) + "h "@ + text::decimal(minutes as nat) + "m"@
                } else if minutes > 0 {
                    text::decimal(minutes as nat) + "m"@
                } else {
                    "<1m"@
                }
            }
        },
    }
}

/// The countdown from `now` to `timestamp`, as the bar shows it.
pub fn format_reset(timestamp: Option<i64>, now: i64) -> (r: String)
    ensures
        r@ == reset_text(timestamp, now),
{
    let t = match timestamp {
        None => {
            return "?".to_string();
        },
        Some(t) => t,
    };
    let seconds = saturating_sub_i64(t, now);
    if seconds <= 0 {
        return "now".to_string();
    }
    let days = seconds / 86_400;
    let hours = (seconds % 86_400) / 3_600;
    let minutes = (seconds % 3_600) / 60;
    let mut out: Vec<char>;
    if days > 0 {
        out = decimal_chars(days as u64);
        append_chars(&mut out, &chars_of("d "));
        append_chars(&mut out, &decimal_chars(hours as u64));
        append_chars(&mut out, &chars_of("h"));
    } else if hours > 0 {
        out = decimal_chars(hours as u64);
        append_chars(&mut out, &chars_of("h "));
        append_chars(&mut out, &decimal_chars(minutes as u64));
        append_chars(&mut out, &chars_of("m"));
    } else if minutes > 0 {
        out = decimal_chars(minutes as u64);
        append_chars(&mut out, &chars_of("m"));
    } else {
        out = chars_of("<1m");
    }
    string_of(&out)
}

/// The Unix time for a clock reading in whole seconds since the epoch: the
/// reading taken as `i64` bits, or 0 when the clock was before the epoch.
pub open spec fn reading_timestamp(reading: Option<u64>) -> int {
    match reading {
        Some(s) => bits_as_i64(s),
        None => 0,
    }
}

/// The Unix time for a clock reading (see `reading_timestamp`).
pub fn timestamp_of_reading(reading: Option<u64>) -> (r: i64)
    ensures
        r == reading_timestamp(reading),
{
    match reading {
        Some(s) => u64_bits_as_i64(s),
        None => 0,
    }
}

/// The system clock's whole seconds since the Unix epoch, or `None` when
/// the clock is set before the epoch (std's `SystemTime::now` and
/// `duration_since`). The reading depends on the moment of the call, so
/// nothing is stated of it.
#[verifier::external_body]
fn clock_seconds() -> Option<u64> {
    match std::time::SystemTime::now().duration_since(std::time::UNIX_EPOCH) {
        Ok(elapsed) => Some(elapsed.as_secs()),
        Err(_) => None,
    }
}

/// The current Unix time in seconds (0 when the clock is before the epoch).
pub fn unix_now() -> (r: i64)
    ensures
        exists|reading: Option<u64>| r == #[trigger] reading_timestamp(reading),
{
    let reading = clock_seconds();
    timestamp_of_reading(reading)
}

} // verus!

verus! {

/// The windows are told apart by their length, not by which field holds
/// them: swapping two windows of different lengths changes nothing.
pub proof fn lemma_window_order_irrelevant<P>(
    primary: Window<P>,
    secondary: Window<P>,
    credits: Option<ResetCreditSummary>,
    banked: Option<u64>,
    now: i64,
)
    requires
        window_length(primary) != window_length(secondary),
    ensures
        display_of(
            UsageResponse {
                rate_limit: RateLimit {
                    primary_window: Some(primary),
                    secondary_window: Some(secondary),
                },
                rate_limit_reset_credits: credits,
            },
            banked,
            now,
        ) == display_of(
            UsageResponse {
                rate_limit: RateLimit {
                    primary_window: Some(secondary),
                    secondary_window: Some(primary),
                },
                rate_limit_reset_credits: credits,
            },
            banked,
            now,
        ),
{
}

/// The next reset is the closer of the two windows' resets: it is one of
/// them, no later than either, and unknown only when both are.
pub proof fn lemma_next_reset_is_closest(a: Option<i64>, b: Option<i64>)
    ensures
        earliest(a, b) is None <==> (a is None && b is None),
        earliest(a, b) matches Some(t) ==> (a == Some(t) || b == Some(t)),
        earliest(a, b) matches Some(t) ==> (a matches Some(x) ==> t <= x),
        earliest(a, b) matches Some(t) ==> (b matches Some(y) ==> t <= y),
{
}

} // verus!

verus! {

/// The count from the reset-credits endpoint wins: when it is given, it is
/// what the bar shows whatever the usage response's own summary says; the
/// summary is used only when no count is given.
pub proof fn lemma_banked_source<P>(response: UsageResponse<P>, banked: Option<u64>, now: i64)
    ensures
        banked matches Some(b) ==> (display_of(response, banked, now) matches Some(d)
            ==> d.banked == Some(b)),
        banked is None ==> (display_of(response, banked, now) matches Some(d) ==> d.banked == (
        match response.rate_limit_reset_credits {
            Some(c) => Some(c.available_count),
            None => None,
        })),
        display_of(response, banked, now) is Some <==> (response.rate_limit.primary_window is Some
            && response.rate_limit.secondary_window is Some),
{
}

proof fn lemma_usage_tokens()
    ensures
        "{5h_used}"@ == seq!['{', '5', 'h', '_', 'u', 's', 'e', 'd', '}'],
        "{1w_used}"@ == seq!['{', '1', 'w', '_', 'u', 's', 'e', 'd', '}'],
        "{5h_left}"@ == seq!['{', '5', 'h', '_', 'l', 'e', 'f', 't', '}'],
        "{1w_left}"@ == seq!['{', '1', 'w', '_', 'l', 'e', 'f', 't', '}'],
        "{banked}"@ == seq!['{', 'b', 'a', 'n', 'k', 'e', 'd', '}'],
        "{next_reset}"@ == seq!['{', 'n', 'e', 'x', 't', '_', 'r', 'e', 's', 'e', 't', '}'],
        "{5h_reset}"@ == seq!['{', '5', 'h', '_', 'r', 'e', 's', 'e', 't', '}'],
        "{1w_reset}"@ == seq!['{', '1', 'w', '_', 'r', 'e', 's', 'e', 't', '}'],
{
    reveal_strlit("{5h_used}");
    reveal_strlit("{1w_used}");
    reveal_strlit("{5h_left}");
    reveal_strlit("{1w_left}");
    reveal_strlit("{banked}");
    reveal_strlit("{next_reset}");
    reveal_strlit("{5h_reset}");
    reveal_strlit("{1w_reset}");
    assert("{5h_used}"@ =~= seq!['{', '5', 'h', '_', 'u', 's', 'e', 'd', '}']);
    assert("{1w_used}"@ =~= seq!['{', '1', 'w', '_', 'u', 's', 'e', 'd', '}']);
    assert("{5h_left}"@ =~= seq!['{', '5', 'h', '_', 'l', 'e', 'f', 't', '}']);
    assert("{1w_left}"@ =~= seq!['{', '1', 'w', '_', 'l', 'e', 'f', 't', '}']);
    assert("{banked}"@ =~= seq!['{', 'b', 'a', 'n', 'k', 'e', 'd', '}']);
    assert("{next_reset}"@ =~= seq!['{', 'n', 'e', 'x', 't', '_', 'r', 'e', 's', 'e', 't', '}']);
    assert("{5h_reset}"@ =~= seq!['{', '5', 'h', '_', 'r', 'e', 's', 'e', 't', '}']);
    assert("{1w_reset}"@ =~= seq!['{', '1', 'w', '_', 'r', 'e', 's', 'e', 't', '}']);
}

/// Each token is filled with its own text: a template that is just one
/// token renders as that token's value, given values without `{`.
pub proof fn lemma_render_each_token(
    five_hour_used: Seq<char>,
    week_used: Seq<char>,
    five_hour_left: Seq<char>,
    week_left: Seq<char>,
    banked: Seq<char>,
    next_reset: Seq<char>,
    five_hour_reset: Seq<char>,
    week_reset: Seq<char>,
)
    requires
        text::brace_free(five_hour_used),
        text::brace_free(week_used),
        text::brace_free(five_hour_left),
        text::brace_free(week_left),
        text::brace_free(banked),
        text::brace_free(next_reset),
        text::brace_free(five_hour_reset),
        text::brace_free(week_reset),
    ensures
        usage_rendered("{5h_used}"@, five_hour_used, week_used, five_hour_left, week_left, banked, next_reset, five_hour_reset, week_reset) == five_hour_used,
        usage_rendered("{1w_used}"@, five_hour_used, week_used, five_hour_left, week_left, banked, next_reset, five_hour_reset, week_reset) == week_used,
        usage_rendered("{5h_left}"@, five_hour_used, week_used, five_hour_left, week_left, banked, next_reset, five_hour_reset, week_reset) == five_hour_left,
        usage_rendered("{1w_left}"@, five_hour_used, week_used, five_hour_left, week_left, banked, next_reset, five_hour_reset, week_reset) == week_left,
        usage_rendered("{banked}"@, five_hour_used, week_used, five_hour_left, week_left, banked, next_reset, five_hour_reset, week_reset) == banked,
        usage_rendered("{next_reset}"@, five_hour_used, week_used, five_hour_left, week_left, banked, next_reset, five_hour_reset, week_reset) == next_reset,
        usage_rendered("{5h_reset}"@, five_hour_used, week_used, five_hour_left, week_left, banked, next_reset, five_hour_reset, week_reset) == five_hour_reset,
        usage_rendered("{1w_reset}"@, five_hour_used, week_used, five_hour_left, week_left, banked, next_reset, five_hour_reset, week_reset) == week_reset,
{
    lemma_usage_tokens();
    let pairs = seq![
        ("{5h_used}"@, five_hour_used),
        ("{1w_used}"@, week_used),
        ("{5h_left}"@, five_hour_left),
        ("{1w_left}"@, week_left),
        ("{banked}"@, banked),
        ("{next_reset}"@, next_reset),
        ("{5h_reset}"@, five_hour_reset),
        ("{1w_reset}"@, week_reset),
    ];
    assert forall|i: int| 0 <= i < pairs.len() implies text::is_token(#[trigger] pairs[i].0) by {
        let t = pairs[i].0;
        assert forall|j: int| 1 <= j < t.len() - 1 implies #[trigger] t[j] != '{' && t[j] != '}' by {
        }
    }
    assert forall|i: int, j: int|
        0 <= i < pairs.len() && 0 <= j < pairs.len() && i != j implies #[trigger] pairs[i].0
            != #[trigger] pairs[j].0 by {
        let a = pairs[i].0;
        let b = pairs[j].0;
        if a.len() == b.len() {
            if a[1] == b[1] {
                assert(a[4] != b[4]);
            } else {
                assert(a[1] != b[1]);
            }
        }
    }
    assert(text::tokens_and_plain_values(pairs));
    reveal_with_fuel(text::replaced_in_turn, 9);
    assert forall|t: Seq<char>|
        #![trigger usage_rendered(t, five_hour_used, week_used, five_hour_left, week_left, banked, next_reset, five_hour_reset, week_reset)]
        usage_rendered(t, five_hour_used, week_used, five_hour_left, week_left, banked, next_reset, five_hour_reset, week_reset)
            == text::replaced_in_turn(t, pairs) by {
        assert(pairs.skip(1).skip(1).skip(1).skip(1).skip(1).skip(1).skip(1).skip(1).len() == 0);
        assert(pairs.skip(1)[0] == pairs[1]);
        assert(pairs.skip(1).skip(1)[0] == pairs[2]);
        assert(pairs.skip(1).skip(1).skip(1)[0] == pairs[3]);
        assert(pairs.skip(1).skip(1).skip(1).skip(1)[0] == pairs[4]);
        assert(pairs.skip(1).skip(1).skip(1).skip(1).skip(1)[0] == pairs[5]);
        assert(pairs.skip(1).skip(1).skip(1).skip(1).skip(1).skip(1)[0] == pairs[6]);
        assert(pairs.skip(1).skip(1).skip(1).skip(1).skip(1).skip(1).skip(1)[0] == pairs[7]);
    }
    text::lemma_token_in_turn(pairs, 0);
    text::lemma_token_in_turn(pairs, 1);
    text::lemma_token_in_turn(pairs, 2);
    text::lemma_token_in_turn(pairs, 3);
    text::lemma_token_in_turn(pairs, 4);
    text::lemma_token_in_turn(pairs, 5);
    text::lemma_token_in_turn(pairs, 6);
    text::lemma_token_in_turn(pairs, 7);
}

} // verus!

verus! {

/// The countdown gives back the time left: with `reset - now` seconds left, written as
/// whole days, hours below 24, minutes below 60 and under a minute more, the
/// text shows days and hours, else hours and minutes, else minutes, else
/// `<1m`. A reset at or before `now` shows `now`, and an unknown one `?`.
pub proof fn lemma_countdown_gives_time_left(
    now: i64,
    reset: i64,
    days: nat,
    hours: nat,
    minutes: nat,
    t: i64,
)
    requires
        now < reset,
        reset - now <= i64::MAX,
        hours < 24,
        minutes < 60,
        days * 86_400 + hours * 3_600 + minutes * 60 <= reset - now,
        reset - now < days * 86_400 + hours * 3_600 + (minutes + 1) * 60,
    ensures
        reset_text(Some(reset), now) == (if days > 0 {
            text::decimal(days) + "d "@ + text::decimal(hours) + "h"@
        } else if hours > 0 {
            text::decimal(hours) + "h "@ + text::decimal(minutes) + "m"@
        } else if minutes > 0 {
            text::decimal(minutes) + "m"@
        } else {
            "<1m"@
        }),
        t <= now ==> reset_text(Some(t), now) == "now"@,
        reset_text(None, now) == "?"@,
{
    let s = reset - now;
    let under_minute = s - (days * 86_400 + hours * 3_600 + minutes * 60);
    let in_day = hours * 3_600 + minutes * 60 + under_minute;
    let in_hour = minutes * 60 + under_minute;
    assert(clamp_i64(reset - now) as int == s);
    vstd::arithmetic::div_mod::lemma_fundamental_div_mod_converse(s, 86_400, days as int, in_day);
    vstd::arithmetic::div_mod::lemma_fundamental_div_mod_converse(in_day, 3_600, hours as int, in_hour);
    vstd::arithmetic::div_mod::lemma_fundamental_div_mod_converse(
        s,
        3_600,
        (days * 24 + hours) as int,
        in_hour,
    );
    vstd::arithmetic::div_mod::lemma_fundamental_div_mod_converse(in_hour, 60, minutes as int, under_minute);
    if t <= now {
        assert(clamp_i64(t - now) <= 0);
    }
}

} // verus!
