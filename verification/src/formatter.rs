//! Output formatter for the CPU widget: a template in which `$frame`,
//! `$lcpu` and `$rcpu` stand for the current frame and the CPU load, and
//! `$$` for a literal `$`.
use vstd::prelude::*;

use crate::text;
use crate::text::{append_chars, chars_of, count_chars, decimal_chars, replace_chars, string_of};

verus! {

/// A format string that was refused, with the message to show.
#[derive(Debug)]
pub struct FmtErr(pub String);

pub struct Formatter {
    format: Vec<char>,
}

/// The number of non-overlapping occurrences of `substring` in `string`;
/// zero for an empty `substring`.
pub fn count_occurrences(string: &str, substring: &str) -> (r: usize)
    ensures
        r == text::occurrences(string@, substring@),
{
    count_chars(&chars_of(string), &chars_of(substring))
}

/// `string` with every occurrence of `from` replaced by `to`; an empty
/// `from` leaves it as it is.
pub fn replace_all(string: String, from: &str, to: &str) -> (r: String)
    ensures
        r@ == text::replaced(string@, from@, to@),
{
    string_of(&replace_chars(&chars_of(string.as_str()), &chars_of(from), &chars_of(to)))
}

/// `n` spaces.
pub open spec fn spaces(n: nat) -> Seq<char> {
    Seq::new(n, |i: int| ' ')
}

/// The load text `"<load>%"`, padded with spaces in front to four characters.
pub open spec fn right_load(load: u8) -> Seq<char> {
    let base = text::decimal(load as nat).push('%');
    if base.len() < 4 { spaces((4 - base.len()) as nat) + base } else { base }
}

/// The load text `"<load>%"`, padded with spaces behind to four characters.
pub open spec fn left_load(load: u8) -> Seq<char> {
    let base = text::decimal(load as nat).push('%');
    if base.len() < 4 { base + spaces((4 - base.len()) as nat) } else { base }
}

/// Whether `format` is well formed: read from left to right, every `$`
/// begins `$$` (a literal `$`) or one of the keys `$frame`, `$rcpu` and
/// `$lcpu`. An escape is taken first, so the text after `$$` is plain.
pub open spec fn well_formed_format(format: Seq<char>) -> bool
    decreases format.len(),
{
    proof {
        lemma_key_lengths();
    }
    if format.len() == 0 {
        true
    } else if format[0] != '$' {
        well_formed_format(format.skip(1))
    } else if text::starts_with(format, "$$"@) {
        well_formed_format(format.skip(2))
    } else if text::starts_with(format, "$frame"@) {
        well_formed_format(format.skip(6))
    } else if text::starts_with(format, "$rcpu"@) {
        well_formed_format(format.skip(5))
    } else if text::starts_with(format, "$lcpu"@) {
        well_formed_format(format.skip(5))
    } else {
        false
    }
}

/// The keys replaced in turn, each over the whole result of the one
/// before: `$frame` by the frame, then `$rcpu` and `$lcpu` by the right- and
/// left-aligned load texts.
pub open spec fn keys_replaced(text: Seq<char>, frame: Seq<char>, rcpu: Seq<char>, lcpu: Seq<char>) -> Seq<
    char,
> {
    text::replaced(
        text::replaced(text::replaced(text, "$frame"@, frame), "$rcpu"@, rcpu),
        "$lcpu"@,
        lcpu,
    )
}

/// The output for the rest `format` of a template whose text since the
/// last escape is `run`: each escape `$$` (found from left to right) gives a
/// literal `$`, and the text between escapes has its keys replaced (see
/// `keys_replaced`). The `$` of an escape is never read as part of a key.
pub open spec fn formatted_after(
    format: Seq<char>,
    run: Seq<char>,
    frame: Seq<char>,
    rcpu: Seq<char>,
    lcpu: Seq<char>,
) -> Seq<char>
    decreases format.len(),
{
    proof {
        lemma_key_lengths();
    }
    if format.len() == 0 {
        keys_replaced(run, frame, rcpu, lcpu)
    } else if text::starts_with(format, "$$"@) {
        keys_replaced(run, frame, rcpu, lcpu) + seq!['$'] + formatted_after(
            format.skip(2),
            Seq::empty(),
            frame,
            rcpu,
            lcpu,
        )
    } else {
        formatted_after(format.skip(1), run.push(format[0]), frame, rcpu, lcpu)
    }
}

/// The output for `format` (see `formatted_after`).
pub open spec fn formatted(format: Seq<char>, frame: Seq<char>, rcpu: Seq<char>, lcpu: Seq<char>) -> Seq<
    char,
> {
    formatted_after(format, Seq::empty(), frame, rcpu, lcpu)
}

/// The message for a refused format string.
pub open spec fn format_error_message(format: Seq<char>) -> Seq<char> {
    "String \""@ + format + "\" has incorrect format."@
}

/// Which of the escape and the keys `format` begins with at `i`: 0 for the
/// escape `$$`, 1 for `$frame`, 2 for `$rcpu`, 3 for `$lcpu`, 4 for none.
fn key_at(f: &Vec<char>, i: usize) -> (r: u8)
    requires
        i <= f.len(),
    ensures
        r <= 4,
        r == 0 <==> text::starts_with(f@.skip(i as int), "$$"@),
        r == 1 <==> !text::starts_with(f@.skip(i as int), "$$"@) && text::starts_with(
            f@.skip(i as int),
            "$frame"@,
        ),
        r == 2 <==> !text::starts_with(f@.skip(i as int), "$$"@) && !text::starts_with(
            f@.skip(i as int),
            "$frame"@,
        ) && text::starts_with(f@.skip(i as int), "$rcpu"@),
        r == 3 <==> !text::starts_with(f@.skip(i as int), "$$"@) && !text::starts_with(
            f@.skip(i as int),
            "$frame"@,
        ) && !text::starts_with(f@.skip(i as int), "$rcpu"@) && text::starts_with(
            f@.skip(i as int),
            "$lcpu"@,
        ),
{
    if text::matches_at(f, i, &chars_of("$$")) {
        0
    } else if text::matches_at(f, i, &chars_of("$frame")) {
        1
    } else if text::matches_at(f, i, &chars_of("$rcpu")) {
        2
    } else if text::matches_at(f, i, &chars_of("$lcpu")) {
        3
    } else {
        4
    }
}

/// The lengths of the escape and the keys.
pub proof fn lemma_key_lengths()
    ensures
        "$$"@.len() == 2,
        "$frame"@.len() == 6,
        "$rcpu"@.len() == 5,
        "$lcpu"@.len() == 5,
{
    reveal_strlit("$$");
    reveal_strlit("$frame");
    reveal_strlit("$rcpu");
    reveal_strlit("$lcpu");
}

/// Whether `f` is well formed (see `well_formed_format`).
fn well_formed_chars(f: &Vec<char>) -> (r: bool)
    ensures
        r == well_formed_format(f@),
{
    proof {
        lemma_key_lengths();
    }
    let mut i: usize = 0;
    assert(f@.skip(0) =~= f@);
    while i < f.len()
        invariant
            i <= f.len(),
            well_formed_format(f@) == well_formed_format(f@.skip(i as int)),
            "$$"@.len() == 2,
            "$frame"@.len() == 6,
            "$rcpu"@.len() == 5,
            "$lcpu"@.len() == 5,
        decreases f.len() - i,
    {
        let ghost rest = f@.skip(i as int);
        assert(rest[0] == f@[i as int]);
        if f[i] != '$' {
            proof {
                text::lemma_skip_skip(f@, i as int, 1);
            }
            i = i + 1;
        } else {
            let k = key_at(f, i);
            if k == 4 {
                return false;
            }
            let step: usize = if k == 0 {
                2
            } else if k == 1 {
                6
            } else {
                5
            };
            proof {
                text::lemma_skip_skip(f@, i as int, step as int);
            }
            i = i + step;
        }
    }
    assert(f@.skip(i as int).len() == 0);
    true
}

impl Formatter {
    /// The template set last.
    pub closed spec fn template(self) -> Seq<char> {
        self.format@
    }

    pub fn new() -> (r: Self)
        ensures
            r.template() == Seq::<char>::empty(),
    {
        Formatter { format: Vec::new() }
    }

    /// Accepts `format` as the template when it is well formed; otherwise
    /// leaves the formatter as it was and explains the refusal.
    pub fn set(&mut self, format: &str) -> (r: Result<(), FmtErr>)
        ensures
            r is Ok <==> well_formed_format(format@),
            r is Ok ==> final(self).template() == format@,
            r matches Err(e) ==> *final(self) == *old(self) && e.0@ == format_error_message(
                format@,
            ),
    {
        let f = chars_of(format);
        if !well_formed_chars(&f) {
            let mut msg = chars_of("String \"");
            append_chars(&mut msg, &f);
            append_chars(&mut msg, &chars_of("\" has incorrect format."));
            return Err(FmtErr(string_of(&msg)));
        }
        self.format = f;
        Ok(())
    }

    /// The template with each `$$` turned into `$`, and between them
    /// `$frame` replaced by `frame`, then `$rcpu` and `$lcpu` by the right-
    /// and left-aligned load texts (see `formatted`).
    pub fn format(&self, frame: &str, load: u8) -> (r: String)
        ensures
            r@ == formatted(self.template(), frame@, right_load(load), left_load(load)),
    {
        let mut r_load = decimal_chars(load as u64);
        r_load.push('%');
        let mut l_load = r_load.clone();
        let ghost base = r_load@;
        proof {
            assert(load < 1000);
            lemma_decimal_short(load as nat);
        }
        while l_load.len() < 4 && r_load.len() < 4
            invariant
                base.len() <= r_load.len() <= 4,
                base.len() <= 4,
                r_load@ == spaces((r_load.len() - base.len()) as nat) + base,
                l_load@ == base + spaces((r_load.len() - base.len()) as nat),
            decreases 4 - r_load.len(),
        {
            let ghost k = (r_load.len() - base.len()) as nat;
            let mut padded = Vec::new();
            padded.push(' ');
            append_chars(&mut padded, &r_load);
            r_load = padded;
            l_load.push(' ');
            assert(spaces(k + 1) =~= seq![' '] + spaces(k));
            assert(spaces(k + 1) =~= spaces(k).push(' '));
            assert(r_load@ =~= spaces(k + 1) + base);
            assert(l_load@ =~= base + spaces(k + 1));
        }
        proof {
            if base.len() >= 4 {
                assert(spaces(0) =~= Seq::<char>::empty());
                assert(r_load@ =~= base);
                assert(l_load@ =~= base);
            }
        }
        let fr = chars_of(frame);
        string_of(&format_chars(&self.format, &fr, &r_load, &l_load))
    }
}

/// The keys of `run` replaced (see `keys_replaced`).
fn replace_keys(run: &Vec<char>, frame: &Vec<char>, rcpu: &Vec<char>, lcpu: &Vec<char>) -> (r: Vec<
    char,
>)
    ensures
        r@ == keys_replaced(run@, frame@, rcpu@, lcpu@),
{
    let t = replace_chars(run, &chars_of("$frame"), frame);
    let t = replace_chars(&t, &chars_of("$rcpu"), rcpu);
    replace_chars(&t, &chars_of("$lcpu"), lcpu)
}

/// The output for `f` (see `formatted`).
fn format_chars(f: &Vec<char>, frame: &Vec<char>, rcpu: &Vec<char>, lcpu: &Vec<char>) -> (r: Vec<
    char,
>)
    ensures
        r@ == formatted(f@, frame@, rcpu@, lcpu@),
{
    proof {
        lemma_key_lengths();
    }
    let escape = chars_of("$$");
    let mut out: Vec<char> = Vec::new();
    let mut run: Vec<char> = Vec::new();
    let mut i: usize = 0;
    assert(f@.skip(0) =~= f@);
    while i < f.len()
        invariant
            i <= f.len(),
            escape@ == "$$"@,
            "$$"@.len() == 2,
            out@ + formatted_after(f@.skip(i as int), run@, frame@, rcpu@, lcpu@) == formatted(
                f@,
                frame@,
                rcpu@,
                lcpu@,
            ),
        decreases f.len() - i,
    {
        let ghost rest = f@.skip(i as int);
        let ghost before = out@;
        let ghost old_run = run@;
        if text::matches_at(f, i, &escape) {
            let replaced = replace_keys(&run, frame, rcpu, lcpu);
            append_chars(&mut out, &replaced);
            out.push('$');
            run = Vec::new();
            proof {
                text::lemma_skip_skip(f@, i as int, 2);
            }
            assert(out@ + formatted_after(f@.skip(i + 2), run@, frame@, rcpu@, lcpu@) =~= before
                + formatted_after(rest, old_run, frame@, rcpu@, lcpu@));
            i = i + 2;
        } else {
            assert(rest[0] == f@[i as int]);
            run.push(f[i]);
            proof {
                text::lemma_skip_skip(f@, i as int, 1);
            }
            i = i + 1;
        }
    }
    let tail = replace_keys(&run, frame, rcpu, lcpu);
    append_chars(&mut out, &tail);
    out
}

proof fn lemma_decimal_short(n: nat)
    requires
        n < 1000,
    ensures
        1 <= text::decimal(n).len() <= 3,
        n < 100 ==> text::decimal(n).len() <= 2,
        n < 10 ==> text::decimal(n).len() == 1,
    decreases n,
{
    if n >= 10 {
        lemma_decimal_short(n / 10);
    }
}

} // verus!

verus! {

proof fn lemma_formatted_without_escape(
    t: Seq<char>,
    run: Seq<char>,
    frame: Seq<char>,
    rcpu: Seq<char>,
    lcpu: Seq<char>,
)
    requires
        !text::contains(t, "$$"@),
    ensures
        formatted_after(t, run, frame, rcpu, lcpu) == keys_replaced(run + t, frame, rcpu, lcpu),
    decreases t.len(),
{
    lemma_key_lengths();
    if t.len() == 0 {
        assert(run + t =~= run);
    } else {
        assert(t.skip(0) =~= t);
        assert(!text::starts_with(t.skip(0), "$$"@));
        assert(!text::contains(t.skip(1), "$$"@)) by {
            if text::contains(t.skip(1), "$$"@) {
                let i = choose|i: int|
                    0 <= i <= t.skip(1).len() && #[trigger] text::starts_with(
                        t.skip(1).skip(i),
                        "$$"@,
                    );
                text::lemma_skip_skip(t, 1, i);
                assert(text::starts_with(t.skip(1 + i), "$$"@));
            }
        }
        lemma_formatted_without_escape(t.skip(1), run.push(t[0]), frame, rcpu, lcpu);
        assert(run.push(t[0]) + t.skip(1) =~= run + t);
    }
}

/// A template without escapes is formatted as four replacements made in
/// turn, each over the whole result of the one before: `$$` by `$` (there
/// is none), then `$frame` by the frame, `$rcpu` and `$lcpu` by the load
/// texts. So what the frame brings in is read by the later keys.
pub proof fn lemma_chain_without_escapes(
    t: Seq<char>,
    frame: Seq<char>,
    rcpu: Seq<char>,
    lcpu: Seq<char>,
)
    requires
        !text::contains(t, "$$"@),
    ensures
        formatted(t, frame, rcpu, lcpu) == text::replaced(
            text::replaced(
                text::replaced(text::replaced(t, "$$"@, "$"@), "$frame"@, frame),
                "$rcpu"@,
                rcpu,
            ),
            "$lcpu"@,
            lcpu,
        ),
{
    text::lemma_replaced_absent(t, "$$"@, "$"@);
    lemma_formatted_without_escape(t, Seq::empty(), frame, rcpu, lcpu);
    assert(Seq::<char>::empty() + t =~= t);
}

proof fn lemma_plain_well_formed(f: Seq<char>)
    requires
        forall|i: int| 0 <= i < f.len() ==> f[i] != '$',
    ensures
        well_formed_format(f),
    decreases f.len(),
{
    if f.len() > 0 {
        assert forall|i: int| 0 <= i < f.skip(1).len() implies f.skip(1)[i] != '$' by {
            assert(f.skip(1)[i] == f[i + 1]);
        }
        lemma_plain_well_formed(f.skip(1));
    }
}

/// A format without `$` is accepted, and formatting gives it back as it is.
pub proof fn lemma_plain_format(f: Seq<char>, frame: Seq<char>, load: u8)
    requires
        forall|i: int| 0 <= i < f.len() ==> f[i] != '$',
    ensures
        well_formed_format(f),
        formatted(f, frame, right_load(load), left_load(load)) == f,
{
    lemma_plain_well_formed(f);
    reveal_strlit("$$");
    reveal_strlit("$frame");
    reveal_strlit("$rcpu");
    reveal_strlit("$lcpu");
    text::lemma_absent_first_char(f, "$$"@);
    text::lemma_absent_first_char(f, "$frame"@);
    text::lemma_absent_first_char(f, "$rcpu"@);
    text::lemma_absent_first_char(f, "$lcpu"@);
    lemma_formatted_without_escape(f, Seq::empty(), frame, right_load(load), left_load(load));
    assert(Seq::<char>::empty() + f =~= f);
    text::lemma_replaced_absent(f, "$frame"@, frame);
    text::lemma_replaced_absent(f, "$rcpu"@, right_load(load));
    text::lemma_replaced_absent(f, "$lcpu"@, left_load(load));
}

} // verus!

verus! {

proof fn lemma_key_chars()
    ensures
        "$$"@ == seq!['$', '$'],
        "$frame"@ == seq!['$', 'f', 'r', 'a', 'm', 'e'],
        "$rcpu"@ == seq!['$', 'r', 'c', 'p', 'u'],
        "$lcpu"@ == seq!['$', 'l', 'c', 'p', 'u'],
{
    reveal_strlit("$$");
    reveal_strlit("$frame");
    reveal_strlit("$rcpu");
    reveal_strlit("$lcpu");
    assert("$$"@ =~= seq!['$', '$']);
    assert("$frame"@ =~= seq!['$', 'f', 'r', 'a', 'm', 'e']);
    assert("$rcpu"@ =~= seq!['$', 'r', 'c', 'p', 'u']);
    assert("$lcpu"@ =~= seq!['$', 'l', 'c', 'p', 'u']);
}

/// Where `p` begins with `k`, so does `p + q`, and the rest follows on.
proof fn lemma_starts_with_extended(p: Seq<char>, q: Seq<char>, k: Seq<char>)
    requires
        text::starts_with(p, k),
    ensures
        text::starts_with(p + q, k),
        (p + q).skip(k.len() as int) == p.skip(k.len() as int) + q,
{
    assert((p + q).take(k.len() as int) =~= p.take(k.len() as int));
    assert((p + q).skip(k.len() as int) =~= p.skip(k.len() as int) + q);
}

/// Whether a text of at least two characters begins with one of the escape
/// and the keys depends on its first two characters only.
proof fn lemma_second_char_decides(a: Seq<char>, b: Seq<char>)
    requires
        a.len() >= 2,
        b.len() >= 2,
        a[0] == b[0],
        a[1] == b[1],
        text::starts_with(a, "$$"@) || text::starts_with(a, "$frame"@) || text::starts_with(
            a,
            "$rcpu"@,
        ) || text::starts_with(a, "$lcpu"@),
    ensures
        text::starts_with(a, "$$"@) ==> text::starts_with(b, "$$"@),
        text::starts_with(b, "$$"@) ==> text::starts_with(a, "$$"@),
        !text::starts_with(a, "$frame"@) ==> !text::starts_with(b, "$frame"@),
        !text::starts_with(a, "$rcpu"@) ==> !text::starts_with(b, "$rcpu"@),
        !text::starts_with(a, "$lcpu"@) ==> !text::starts_with(b, "$lcpu"@),
{
    lemma_key_chars();
    if text::starts_with(a, "$$"@) {
        assert(a.take(2)[1] == '$');
        assert(b.take(2) =~= seq!['$', '$']);
    }
    if text::starts_with(b, "$$"@) {
        assert(b.take(2)[1] == '$');
    }
    if text::starts_with(a, "$frame"@) {
        assert(a.take(6)[1] == 'f');
    }
    if text::starts_with(a, "$rcpu"@) {
        assert(a.take(5)[1] == 'r');
    }
    if text::starts_with(a, "$lcpu"@) {
        assert(a.take(5)[1] == 'l');
    }
    if text::starts_with(b, "$frame"@) {
        assert(b.take(6)[1] == 'f');
    }
    if text::starts_with(b, "$rcpu"@) {
        assert(b.take(5)[1] == 'r');
    }
    if text::starts_with(b, "$lcpu"@) {
        assert(b.take(5)[1] == 'l');
    }
}

/// Well-formed pieces join: after a well-formed template, the rest is read
/// on its own, so `p + q` is well formed exactly when `q` is.
pub proof fn lemma_well_formed_concat(p: Seq<char>, q: Seq<char>)
    requires
        well_formed_format(p),
    ensures
        well_formed_format(p + q) == well_formed_format(q),
    decreases p.len(),
{
    lemma_key_lengths();
    if p.len() == 0 {
        assert(p + q =~= q);
    } else if p[0] != '$' {
        assert((p + q)[0] == p[0]);
        assert((p + q).skip(1) =~= p.skip(1) + q);
        lemma_well_formed_concat(p.skip(1), q);
    } else {
        assert((p + q)[0] == p[0]);
        let k = if text::starts_with(p, "$$"@) {
            "$$"@
        } else if text::starts_with(p, "$frame"@) {
            "$frame"@
        } else if text::starts_with(p, "$rcpu"@) {
            "$rcpu"@
        } else {
            "$lcpu"@
        };
        assert(text::starts_with(p, k));
        lemma_starts_with_extended(p, q, k);
        assert((p + q)[1] == p[1]);
        lemma_second_char_decides(p, p + q);
        lemma_well_formed_concat(p.skip(k.len() as int), q);
    }
}

/// The grammar of templates: the empty template is well formed, and a
/// well-formed template stays well formed when any of the escape `$$`, the
/// keys `$frame`, `$rcpu`, `$lcpu`, or a character other than `$` follows
/// it; a lone `$` at its end makes it ill formed.
pub proof fn lemma_well_formed_grammar(p: Seq<char>, c: char)
    requires
        well_formed_format(p),
    ensures
        well_formed_format(Seq::empty()),
        well_formed_format(p + "$$"@),
        well_formed_format(p + "$frame"@),
        well_formed_format(p + "$rcpu"@),
        well_formed_format(p + "$lcpu"@),
        c != '$' ==> well_formed_format(p + seq![c]),
        !well_formed_format(p + seq!['$']),
{
    lemma_key_chars();
    lemma_key_lengths();
    let keys = seq!["$$"@, "$frame"@, "$rcpu"@, "$lcpu"@];
    assert(well_formed_format(Seq::<char>::empty()));
    assert forall|k: int| 0 <= k < 4 implies well_formed_format(#[trigger] keys[k]) by {
        let t = keys[k];
        assert(t.take(t.len() as int) =~= t);
        assert(t.skip(t.len() as int) =~= Seq::<char>::empty());
        assert(well_formed_format(t.skip(t.len() as int)));
        assert(t[0] == '$');
        if k > 0 {
            if text::starts_with(t, "$$"@) {
                assert(t.take(2)[1] == '$');
            }
        }
        if k > 1 {
            if text::starts_with(t, "$frame"@) {
                assert(t.take(6)[1] == 'f');
            }
        }
        if k > 2 {
            if text::starts_with(t, "$rcpu"@) {
                assert(t.take(5)[1] == 'r');
            }
        }
    }
    lemma_well_formed_concat(p, keys[0]);
    lemma_well_formed_concat(p, keys[1]);
    lemma_well_formed_concat(p, keys[2]);
    lemma_well_formed_concat(p, keys[3]);
    let one = seq![c];
    assert(one.skip(1) =~= Seq::<char>::empty());
    lemma_well_formed_concat(p, one);
    let dollar = seq!['$'];
    assert(!text::starts_with(dollar, "$$"@));
    assert(!text::starts_with(dollar, "$frame"@));
    assert(!text::starts_with(dollar, "$rcpu"@));
    assert(!text::starts_with(dollar, "$lcpu"@));
    lemma_well_formed_concat(p, dollar);
}

} // verus!
