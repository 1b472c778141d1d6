//! Agent lifecycle statuses as reported by the herdr server, plus
//! aggregation and bar-text rendering.
use vstd::prelude::*;

use crate::text;
use crate::text::{chars_of, decimal_chars, replace_chars, str_eq, string_of};

verus! {

/// Herdr agent lifecycle state.
///
/// `Unknown` is herdr's catch-all: an agent is present but could not be
/// classified confidently. It is mapped from any unrecognized wire value so
/// future protocol additions do not break rendering.
#[derive(Debug, Clone, Copy, PartialEq, Eq, Structural)]
pub enum AgentStatus {
    Working,
    Blocked,
    Done,
    Idle,
    Unknown,
}

/// The wire name of a status.
pub open spec fn wire_name(s: AgentStatus) -> Seq<char> {
    match s {
        AgentStatus::Working => "working"@,
        AgentStatus::Blocked => "blocked"@,
        AgentStatus::Done => "done"@,
        AgentStatus::Idle => "idle"@,
        AgentStatus::Unknown => "unknown"@,
    }
}

/// The status a wire value names; `Unknown` for any other value.
pub open spec fn status_of_wire(v: Seq<char>) -> AgentStatus {
    if v == "working"@ {
        AgentStatus::Working
    } else if v == "blocked"@ {
        AgentStatus::Blocked
    } else if v == "done"@ {
        AgentStatus::Done
    } else if v == "idle"@ {
        AgentStatus::Idle
    } else {
        AgentStatus::Unknown
    }
}

impl AgentStatus {
    /// Every status, in display order.
    pub const ALL: [AgentStatus; 5] = [
        AgentStatus::Working,
        AgentStatus::Blocked,
        AgentStatus::Done,
        AgentStatus::Idle,
        AgentStatus::Unknown,
    ];

    /// Parse a wire value (`"idle"`, `"working"`, ...), defaulting to
    /// [`AgentStatus::Unknown`].
    pub fn from_raw(value: &str) -> (r: AgentStatus)
        ensures
            r == status_of_wire(value@),
    {
        if str_eq(value, "working") {
            AgentStatus::Working
        } else if str_eq(value, "blocked") {
            AgentStatus::Blocked
        } else if str_eq(value, "done") {
            AgentStatus::Done
        } else if str_eq(value, "idle") {
            AgentStatus::Idle
        } else {
            AgentStatus::Unknown
        }
    }

    /// Wire name.
    pub fn as_str(self) -> (r: &'static str)
        ensures
            r@ == wire_name(self),
    {
        match self {
            AgentStatus::Working => "working",
            AgentStatus::Blocked => "blocked",
            AgentStatus::Done => "done",
            AgentStatus::Idle => "idle",
            AgentStatus::Unknown => "unknown",
        }
    }
}

/// Parsing the wire name of any status gives that status back.
pub proof fn lemma_wire_name_round_trip(s: AgentStatus)
    ensures
        status_of_wire(wire_name(s)) == s,
{
    reveal_strlit("working");
    reveal_strlit("blocked");
    reveal_strlit("done");
    reveal_strlit("idle");
    reveal_strlit("unknown");
    assert("unknown"@[0] != "working"@[0]);
    assert("unknown"@[0] != "blocked"@[0]);
    assert("blocked"@[0] != "working"@[0]);
    assert("idle"@[0] != "done"@[0]);
}

/// Per-status agent counts.
#[derive(Debug, Clone, Copy, PartialEq, Eq, Structural)]
pub struct Counts {
    pub working: usize,
    pub blocked: usize,
    pub done: usize,
    pub idle: usize,
    pub unknown: usize,
}

impl Default for Counts {
    fn default() -> (r: Counts)
        ensures
            r == (Counts { working: 0, blocked: 0, done: 0, idle: 0, unknown: 0 }),
    {
        Counts { working: 0, blocked: 0, done: 0, idle: 0, unknown: 0 }
    }
}

impl Counts {
    /// The count kept for `status`.
    pub open spec fn count_of(self, status: AgentStatus) -> nat {
        match status {
            AgentStatus::Working => self.working as nat,
            AgentStatus::Blocked => self.blocked as nat,
            AgentStatus::Done => self.done as nat,
            AgentStatus::Idle => self.idle as nat,
            AgentStatus::Unknown => self.unknown as nat,
        }
    }

    /// The number of agents counted, over all statuses.
    pub open spec fn sum(self) -> nat {
        self.working as nat + self.blocked as nat + self.done as nat + self.idle as nat
            + self.unknown as nat
    }

    /// Counts one more agent with `status`.
    pub fn add(&mut self, status: AgentStatus)
        requires
            old(self).count_of(status) < usize::MAX,
        ensures
            final(self).count_of(status) == old(self).count_of(status) + 1,
            forall|other: AgentStatus|
                other != status ==> #[trigger] final(self).count_of(other) == old(self).count_of(
                    other,
                ),
            final(self).sum() == old(self).sum() + 1,
    {
        match status {
            AgentStatus::Working => self.working = self.working + 1,
            AgentStatus::Blocked => self.blocked = self.blocked + 1,
            AgentStatus::Done => self.done = self.done + 1,
            AgentStatus::Idle => self.idle = self.idle + 1,
            AgentStatus::Unknown => self.unknown = self.unknown + 1,
        }
    }

    /// The number of agents counted, over all statuses.
    pub fn total(&self) -> (r: usize)
        requires
            self.sum() <= usize::MAX,
        ensures
            r == self.sum(),
    {
        self.working + self.blocked + self.done + self.idle + self.unknown
    }

    /// `template` with each token replaced by its count, in this order:
    /// `{working}`, `{blocked}`, `{done}`, `{idle}`, `{unknown}`, `{total}`.
    pub open spec fn rendered(self, template: Seq<char>) -> Seq<char> {
        text::replaced(
            text::replaced(
                text::replaced(
                    text::replaced(
                        text::replaced(
                            text::replaced(template, "{working}"@, text::decimal(self.working as nat)),
                            "{blocked}"@,
                            text::decimal(self.blocked as nat),
                        ),
                        "{done}"@,
                        text::decimal(self.done as nat),
                    ),
                    "{idle}"@,
                    text::decimal(self.idle as nat),
                ),
                "{unknown}"@,
                text::decimal(self.unknown as nat),
            ),
            "{total}"@,
            text::decimal(self.sum()),
        )
    }

    /// Substitute `{working}`, `{blocked}`, `{done}`, `{idle}`, `{unknown}`
    /// and `{total}` tokens in `template`. Unknown `{...}` tokens are left
    /// untouched.
    pub fn render(&self, template: &str) -> (r: String)
        requires
            self.sum() <= usize::MAX,
        ensures
            r@ == self.rendered(template@),
    {
        let t = chars_of(template);
        let t = replace_chars(&t, &chars_of("{working}"), &decimal_chars(self.working as u64));
        let t = replace_chars(&t, &chars_of("{blocked}"), &decimal_chars(self.blocked as u64));
        let t = replace_chars(&t, &chars_of("{done}"), &decimal_chars(self.done as u64));
        let t = replace_chars(&t, &chars_of("{idle}"), &decimal_chars(self.idle as u64));
        let t = replace_chars(&t, &chars_of("{unknown}"), &decimal_chars(self.unknown as u64));
        let t = replace_chars(&t, &chars_of("{total}"), &decimal_chars(self.total() as u64));
        string_of(&t)
    }
}

/// A template that holds none of the six tokens renders as itself.
pub proof fn lemma_render_without_tokens(c: Counts, template: Seq<char>)
    requires
        !text::contains(template, "{working}"@),
        !text::contains(template, "{blocked}"@),
        !text::contains(template, "{done}"@),
        !text::contains(template, "{idle}"@),
        !text::contains(template, "{unknown}"@),
        !text::contains(template, "{total}"@),
    ensures
        c.rendered(template) == template,
{
    text::lemma_replaced_absent(template, "{working}"@, text::decimal(c.working as nat));
    text::lemma_replaced_absent(template, "{blocked}"@, text::decimal(c.blocked as nat));
    text::lemma_replaced_absent(template, "{done}"@, text::decimal(c.done as nat));
    text::lemma_replaced_absent(template, "{idle}"@, text::decimal(c.idle as nat));
    text::lemma_replaced_absent(template, "{unknown}"@, text::decimal(c.unknown as nat));
    text::lemma_replaced_absent(template, "{total}"@, text::decimal(c.sum()));
}

} // verus!

verus! {

proof fn lemma_count_tokens()
    ensures
        text::is_token("{working}"@),
        text::is_token("{blocked}"@),
        text::is_token("{done}"@),
        text::is_token("{idle}"@),
        text::is_token("{unknown}"@),
        text::is_token("{total}"@),
        "{working}"@ != "{blocked}"@,
        "{working}"@ != "{done}"@,
        "{working}"@ != "{idle}"@,
        "{working}"@ != "{unknown}"@,
        "{working}"@ != "{total}"@,
        "{blocked}"@ != "{done}"@,
        "{blocked}"@ != "{idle}"@,
        "{blocked}"@ != "{unknown}"@,
        "{blocked}"@ != "{total}"@,
        "{done}"@ != "{idle}"@,
        "{done}"@ != "{unknown}"@,
        "{done}"@ != "{total}"@,
        "{idle}"@ != "{unknown}"@,
        "{idle}"@ != "{total}"@,
        "{unknown}"@ != "{total}"@,
{
    reveal_strlit("{working}");
    reveal_strlit("{blocked}");
    reveal_strlit("{done}");
    reveal_strlit("{idle}");
    reveal_strlit("{unknown}");
    reveal_strlit("{total}");
    assert("{working}"@ =~= seq!['{', 'w', 'o', 'r', 'k', 'i', 'n', 'g', '}']);
    assert("{blocked}"@ =~= seq!['{', 'b', 'l', 'o', 'c', 'k', 'e', 'd', '}']);
    assert("{done}"@ =~= seq!['{', 'd', 'o', 'n', 'e', '}']);
    assert("{idle}"@ =~= seq!['{', 'i', 'd', 'l', 'e', '}']);
    assert("{unknown}"@ =~= seq!['{', 'u', 'n', 'k', 'n', 'o', 'w', 'n', '}']);
    assert("{total}"@ =~= seq!['{', 't', 'o', 't', 'a', 'l', '}']);
    assert("{working}"@[1] != "{blocked}"@[1]);
    assert("{working}"@[1] != "{unknown}"@[1]);
    assert("{blocked}"@[1] != "{unknown}"@[1]);
    assert("{done}"@[1] != "{idle}"@[1]);
}

} // verus!

verus! {

/// Each token is filled with its own count: a template that is just one
/// token renders as that count in decimal, and `{total}` as the number of
/// agents over all statuses.
pub proof fn lemma_render_each_token(c: Counts)
    ensures
        c.rendered("{working}"@) == text::decimal(c.working as nat),
        c.rendered("{blocked}"@) == text::decimal(c.blocked as nat),
        c.rendered("{done}"@) == text::decimal(c.done as nat),
        c.rendered("{idle}"@) == text::decimal(c.idle as nat),
        c.rendered("{unknown}"@) == text::decimal(c.unknown as nat),
        c.rendered("{total}"@) == text::decimal(
            c.working as nat + c.blocked as nat + c.done as nat + c.idle as nat + c.unknown as nat,
        ),
{
    lemma_count_tokens();
    let tokens = seq!["{working}"@, "{blocked}"@, "{done}"@, "{idle}"@, "{unknown}"@, "{total}"@];
    let values = seq![
        text::decimal(c.working as nat),
        text::decimal(c.blocked as nat),
        text::decimal(c.done as nat),
        text::decimal(c.idle as nat),
        text::decimal(c.unknown as nat),
        text::decimal(c.sum()),
    ];
    text::lemma_decimal_brace_free(c.working as nat);
    text::lemma_decimal_brace_free(c.blocked as nat);
    text::lemma_decimal_brace_free(c.done as nat);
    text::lemma_decimal_brace_free(c.idle as nat);
    text::lemma_decimal_brace_free(c.unknown as nat);
    text::lemma_decimal_brace_free(c.sum());
    assert forall|k: int| 0 <= k < 6 implies #[trigger] c.rendered(tokens[k]) == values[k] by {
        let t = tokens[k];
        // Before its own turn, the token is untouched by the other tokens.
        let s1 = if k == 0 { values[0] } else {
            text::lemma_token_not_inside(t, tokens[0]);
            text::lemma_replaced_absent(t, tokens[0], values[0]);
            t
        };
        if k == 0 {
            text::lemma_replaced_whole(t, values[0]);
        }
        let s2 = if k == 1 { values[1] } else if k < 1 {
            text::lemma_token_absent(s1, tokens[1], values[1]);
            s1
        } else {
            text::lemma_token_not_inside(t, tokens[1]);
            text::lemma_replaced_absent(s1, tokens[1], values[1]);
            s1
        };
        if k == 1 {
            text::lemma_replaced_whole(t, values[1]);
        }
        let s3 = if k == 2 { values[2] } else if k < 2 {
            text::lemma_token_absent(s2, tokens[2], values[2]);
            s2
        } else {
            text::lemma_token_not_inside(t, tokens[2]);
            text::lemma_replaced_absent(s2, tokens[2], values[2]);
            s2
        };
        if k == 2 {
            text::lemma_replaced_whole(t, values[2]);
        }
        let s4 = if k == 3 { values[3] } else if k < 3 {
            text::lemma_token_absent(s3, tokens[3], values[3]);
            s3
        } else {
            text::lemma_token_not_inside(t, tokens[3]);
            text::lemma_replaced_absent(s3, tokens[3], values[3]);
            s3
        };
        if k == 3 {
            text::lemma_replaced_whole(t, values[3]);
        }
        let s5 = if k == 4 { values[4] } else if k < 4 {
            text::lemma_token_absent(s4, tokens[4], values[4]);
            s4
        } else {
            text::lemma_token_not_inside(t, tokens[4]);
            text::lemma_replaced_absent(s4, tokens[4], values[4]);
            s4
        };
        if k == 4 {
            text::lemma_replaced_whole(t, values[4]);
        }
        if k == 5 {
            text::lemma_replaced_whole(t, values[5]);
        } else {
            text::lemma_token_absent(s5, tokens[5], values[5]);
        }
    }
    assert(c.rendered(tokens[0]) == values[0]);
    assert(c.rendered(tokens[1]) == values[1]);
    assert(c.rendered(tokens[2]) == values[2]);
    assert(c.rendered(tokens[3]) == values[3]);
    assert(c.rendered(tokens[4]) == values[4]);
    assert(c.rendered(tokens[5]) == values[5]);
}

} // verus!
