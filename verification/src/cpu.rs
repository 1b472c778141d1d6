//! CPU usage from the kernel's stat file: the first line of `/proc/stat`
//! holds the jiffies spent per kind of work, and the load between two reads
//! is the share of the jiffies spent working.
use vstd::prelude::*;

use crate::text;
use crate::text::{chars_of, first_line_chars, parse_u64, split_words, str_eq};

verus! {

broadcast use vstd::string::group_string_axioms;

/// Why the stat file could not be used.
#[derive(Debug)]
pub enum CpuError {
    /// The file could not be read.
    Io(String),
    /// The file does not hold what a stat file holds.
    Fmt(String),
}

impl CpuError {
    /// The message, as the error displays it.
    pub fn message(&self) -> (r: &String)
        ensures
            match self {
                CpuError::Io(m) => r == m,
                CpuError::Fmt(m) => r == m,
            },
    {
        match self {
            CpuError::Io(m) => m,
            CpuError::Fmt(m) => m,
        }
    }
}

/// Jiffies counted since boot: all of them, and those spent working (user,
/// nice and system time).
#[derive(Debug, Default, Clone, Copy, PartialEq, Eq, Structural)]
pub struct State {
    pub total: u64,
    pub work: u64,
}

/// 2 to the 64th: `u64` arithmetic that overflows wraps modulo this.
pub open spec fn u64_modulus() -> int {
    0x1_0000_0000_0000_0000
}

/// The sum of `s`.
pub open spec fn sum(s: Seq<u64>) -> int
    decreases s.len(),
{
    if s.len() == 0 {
        0
    } else {
        sum(s.drop_last()) + s.last()
    }
}

/// The words of the stat file's first line.
pub open spec fn stat_words(content: Seq<char>) -> Seq<Seq<char>> {
    text::words(text::first_line(content))
}

/// Why `content` is no stat file, or `None` when it is one.
pub open spec fn stat_problem(content: Seq<char>) -> Option<Seq<char>> {
    let w = stat_words(content);
    if w.len() == 0 {
        Some("Stat file is empty."@)
    } else if w[0] != "cpu"@ {
        Some("Stat has invalid format."@)
    } else if exists|i: int| 1 <= i < w.len() && (#[trigger] text::parsed_u64(w[i])) is None {
        Some("Stat file has invalid data."@)
    } else if w.len() < 5 {
        Some("Not enough data in stat file."@)
    } else {
        None
    }
}

/// The jiffy counts of a stat file: the numbers after `cpu` on its first line.
pub open spec fn stat_jiffies(content: Seq<char>) -> Seq<u64> {
    stat_words(content).skip(1).map_values(|w: Seq<char>| text::parsed_u64(w).unwrap())
}

/// The state a stat file records: the sum of all jiffies, and of the first
/// three, each wrapping around as `u64` addition does.
pub open spec fn stat_state(content: Seq<char>) -> State {
    let j = stat_jiffies(content);
    State {
        total: (sum(j) % u64_modulus()) as u64,
        work: (sum(j.take(3)) % u64_modulus()) as u64,
    }
}

proof fn lemma_wrapping_add_mod(acc: u64, s: int, x: u64)
    requires
        s >= 0,
        acc == s % u64_modulus(),
    ensures
        vstd::wrapping::u64_specs::wrapping_add(acc, x) == (s + x) % u64_modulus(),
{
    let m = u64_modulus();
    vstd::arithmetic::div_mod::lemma_add_mod_noop(s, x as int, m);
    vstd::arithmetic::div_mod::lemma_small_mod(x as nat, m as nat);
    let y = acc + x;
    if y >= m {
        vstd::arithmetic::div_mod::lemma_fundamental_div_mod_converse_mod(y, m, 1, y - m);
    } else {
        vstd::arithmetic::div_mod::lemma_small_mod(y as nat, m as nat);
    }
}

/// Reads the state from the text of a stat file.
pub fn parse_stat(content: &str) -> (r: Result<State, CpuError>)
    ensures
        match r {
            Ok(st) => stat_problem(content@) is None && st == stat_state(content@),
            Err(CpuError::Fmt(m)) => stat_problem(content@) == Some(m@),
            Err(CpuError::Io(_)) => false,
        },
{
    let line = first_line_chars(&chars_of(content));
    let tokens = split_words(&line);
    let ghost w = stat_words(content@);
    assert(tokens@.map_values(|t: Vec<char>| t@) == w);
    assert(forall|i: int| 0 <= i < tokens@.len() ==> tokens@[i]@ == #[trigger] w[i]);

    if tokens.len() == 0 {
        return Err(CpuError::Fmt("Stat file is empty.".to_string()));
    }
    if !str_eq_chars(&tokens[0], "cpu") {
        return Err(CpuError::Fmt("Stat has invalid format.".to_string()));
    }

    let mut jiffies: Vec<u64> = Vec::new();
    let mut i: usize = 1;
    while i < tokens.len()
        invariant
            1 <= i <= tokens@.len(),
            tokens@.len() == w.len(),
            w == stat_words(content@),
            w[0] == "cpu"@,
            forall|k: int| 0 <= k < tokens@.len() ==> tokens@[k]@ == #[trigger] w[k],
            jiffies@.len() == i - 1,
            forall|k: int|
                1 <= k < i ==> (#[trigger] text::parsed_u64(w[k])) == Some(jiffies@[k - 1]),
        decreases tokens.len() - i,
    {
        match parse_u64(&tokens[i]) {
            Some(v) => jiffies.push(v),
            None => {
                assert(text::parsed_u64(w[i as int]) is None);
                return Err(CpuError::Fmt("Stat file has invalid data.".to_string()));
            },
        }
        i = i + 1;
    }
    assert(!exists|k: int| 1 <= k < w.len() && (#[trigger] text::parsed_u64(w[k])) is None);
    if jiffies.len() < 4 {
        return Err(CpuError::Fmt("Not enough data in stat file.".to_string()));
    }

    let ghost j = stat_jiffies(content@);
    assert(jiffies@ =~= j);

    let mut total: u64 = 0;
    let mut work: u64 = 0;
    let mut k: usize = 0;
    assert(j.take(0) =~= Seq::<u64>::empty());
    while k < jiffies.len()
        invariant
            k <= jiffies@.len(),
            jiffies@ == j,
            j.len() >= 4,
            sum(j.take(k as int)) >= 0,
            sum(j.take(if k < 3 { k as int } else { 3 })) >= 0,
            total as int == sum(j.take(k as int)) % u64_modulus(),
            work as int == sum(j.take(if k < 3 { k as int } else { 3 })) % u64_modulus(),
        decreases jiffies.len() - k,
    {
        assert(j.take(k + 1).drop_last() =~= j.take(k as int));
        proof {
            lemma_wrapping_add_mod(total, sum(j.take(k as int)), j[k as int]);
        }
        if k < 3 {
            proof {
                lemma_wrapping_add_mod(work, sum(j.take(k as int)), j[k as int]);
            }
            work = work.wrapping_add(jiffies[k]);
        }
        total = total.wrapping_add(jiffies[k]);
        k = k + 1;
    }
    assert(j.take(k as int) =~= j);
    Ok(State { total, work })
}

fn str_eq_chars(a: &Vec<char>, b: &str) -> (r: bool)
    ensures
        r == (a@ == b@),
{
    let s = text::string_of(a);
    str_eq(s.as_str(), b)
}

/// Reads the state from the outcome of reading a stat file: `None` when the
/// file could not be read.
pub fn state_of_read(content: Option<&str>) -> (r: Result<State, CpuError>)
    ensures
        match content {
            None => r matches Err(CpuError::Io(m)) && m@ == "Failed to open the stat file."@,
            Some(c) => match r {
                Ok(st) => stat_problem(c@) is None && st == stat_state(c@),
                Err(CpuError::Fmt(m)) => stat_problem(c@) == Some(m@),
                Err(CpuError::Io(_)) => false,
            },
        },
{
    match content {
        None => Err(CpuError::Io("Failed to open the stat file.".to_string())),
        Some(c) => parse_stat(c),
    }
}

/// CPU usage between successive reads of a stat file.
pub struct Cpu {
    stat_path: String,
    state_prev: State,
}

impl Cpu {
    /// The stat file read.
    pub closed spec fn path(self) -> Seq<char> {
        self.stat_path@
    }

    /// The state read last (zero before the first read).
    pub closed spec fn previous(self) -> State {
        self.state_prev
    }

    pub fn new(stat_path: &str) -> (r: Self)
        ensures
            r.path() == stat_path@,
            r.previous() == (State { total: 0, work: 0 }),
    {
        Cpu { stat_path: stat_path.to_string(), state_prev: State { total: 0, work: 0 } }
    }

    /// The stat file to read.
    pub fn stat_path(&self) -> (r: &str)
        ensures
            r@ == self.path(),
    {
        self.stat_path.as_str()
    }

    /// Records a new state and returns the jiffies spent working and in all
    /// since the previous one, each wrapping around as `u64` subtraction
    /// does. The load is the first divided by the second.
    pub fn advance(&mut self, state_curr: State) -> (r: (u64, u64))
        ensures
            final(self).path() == old(self).path(),
            final(self).previous() == state_curr,
            r.0 as int == (state_curr.work - old(self).previous().work) % u64_modulus(),
            r.1 as int == (state_curr.total - old(self).previous().total) % u64_modulus(),
    {
        let prev = self.state_prev;
        let work_d = state_curr.work.wrapping_sub(prev.work);
        let total_d = state_curr.total.wrapping_sub(prev.total);
        proof {
            lemma_wrapping_sub_mod(state_curr.work, prev.work);
            lemma_wrapping_sub_mod(state_curr.total, prev.total);
        }
        self.state_prev = state_curr;
        (work_d, total_d)
    }
}

proof fn lemma_wrapping_sub_mod(a: u64, b: u64)
    ensures
        vstd::wrapping::u64_specs::wrapping_sub(a, b) as int == (a - b) % u64_modulus(),
{
    let m = u64_modulus();
    let d = a - b;
    if d < 0 {
        vstd::arithmetic::div_mod::lemma_fundamental_div_mod_converse_mod(d, m, -1, d + m);
    } else {
        vstd::arithmetic::div_mod::lemma_small_mod(d as nat, m as nat);
    }
}

} // verus!
