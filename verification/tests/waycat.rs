use waybar_toys::args::Args;
use waybar_toys::cpu::{parse_stat, state_of_read, Cpu, CpuError, State};
use waybar_toys::formatter::{count_occurrences, replace_all, Formatter};
use waybar_toys::framer::Framer;

fn args() -> Args {
    Args {
        stat_path: "/proc/stat".to_string(),
        frames: "abc".to_string(),
        high_rate: 30,
        low_rate: 2,
        poll_period: 1000,
        smoothing_enabled: true,
        smoothing_value: 2000,
        sleeping_enabled: true,
        sleeping_threshold: 8,
        wakeup_threshold: 12,
        sleeping_frames: "zz".to_string(),
        sleeping_rate: 4,
        format_enabled: false,
        format: "$frame $lcpu".to_string(),
    }
}

#[test]
fn validate_accepts_defaults() {
    assert!(args().validate().is_ok());
}

#[test]
fn validate_reports_every_problem_in_order() {
    let mut a = args();
    a.frames = String::new();
    a.sleeping_frames = String::new();
    a.sleeping_threshold = 50;
    a.wakeup_threshold = 10;
    assert_eq!(
        a.validate().unwrap_err(),
        vec![
            "`frames` cannot be an empty string".to_string(),
            "`sleeping_frames` cannot be an empty string".to_string(),
            "`wakeup_threshold` should be greater than `sleeping_threshold`".to_string(),
        ]
    );
    let mut b = args();
    b.sleeping_threshold = 12;
    assert!(b.validate().is_ok());
    b.sleeping_threshold = 13;
    assert_eq!(b.validate().unwrap_err().len(), 1);
}

#[test]
fn framer_cycles() {
    let mut f = Framer::new("ab\u{E905}");
    assert_eq!(f.get(), "a");
    assert_eq!(f.get(), "b");
    assert_eq!(f.get(), "\u{E905}");
    assert_eq!(f.get(), "a");
    let mut empty = Framer::new("");
    assert_eq!(empty.get(), "");
    assert_eq!(empty.get(), "");
}

#[test]
fn counts_non_overlapping_occurrences() {
    assert_eq!(count_occurrences("aaaa", "aa"), 2);
    assert_eq!(count_occurrences("aaa", "aa"), 1);
    assert_eq!(count_occurrences("$$$", "$"), 3);
    assert_eq!(count_occurrences("abc", ""), 0);
    assert_eq!(count_occurrences("", "a"), 0);
}

#[test]
fn replaces_all_occurrences() {
    assert_eq!(replace_all("aaa".to_string(), "aa", "b"), "ba");
    assert_eq!(replace_all("x-y-z".to_string(), "-", "+="), "x+=y+=z");
    assert_eq!(replace_all("abc".to_string(), "", "X"), "abc");
}

#[test]
fn formatter_substitutes_and_pads() {
    let mut f = Formatter::new();
    assert!(f.set("$frame $lcpu|$rcpu $$").is_ok());
    assert_eq!(f.format("F", 5), "F 5%  |  5% $");
    assert_eq!(f.format("F", 42), "F 42% | 42% $");
    assert_eq!(f.format("F", 100), "F 100%|100% $");
}

#[test]
fn formatter_rejects_stray_prefix() {
    let mut f = Formatter::new();
    assert!(f.set("$frame").is_ok());
    let err = f.set("$oops").unwrap_err();
    assert_eq!(err.0, "String \"$oops\" has incorrect format.");
    // The earlier template stays in force.
    assert_eq!(f.format("X", 1), "X");
    // An unset formatter returns its empty template.
    assert_eq!(Formatter::new().format("X", 1), "");
}

#[test]
fn formatter_escape_is_taken_first() {
    let mut f = Formatter::new();
    assert!(f.set("$$frame").is_ok());
    assert_eq!(f.format("X", 5), "$frame");
    assert!(f.set("$$$frame $$lcpu $$$$").is_ok());
    assert_eq!(f.format("X", 5), "$X $lcpu $$");
    // The keys are replaced in turn, so a frame that holds a later key has
    // it replaced too.
    assert!(f.set("$frame").is_ok());
    assert_eq!(f.format("$rcpu", 5), "  5%");
    assert_eq!(f.format("$lcpu|$frame", 42), "42% |$frame");
    assert!(f.set("$framercpu").is_ok());
    assert_eq!(f.format("$", 7), "  7%");
    // The `$` of an escape never begins a key.
    assert!(f.set("$$$frame").is_ok());
    assert_eq!(f.format("rcpu", 5), "$rcpu");
    assert!(f.set("$fram").is_err());
    assert!(f.set("$").is_err());
    assert!(f.set("$$$").is_err());
}

#[test]
fn formatter_plain_text_is_kept() {
    let mut f = Formatter::new();
    assert!(f.set("cpu").is_ok());
    assert_eq!(f.format("X", 99), "cpu");
}

#[test]
fn parses_stat_line() {
    let st = parse_stat("cpu  10 20 30 40 50\ncpu0 1 2 3 4\n").unwrap();
    assert_eq!(st, State { total: 150, work: 60 });
    let st = parse_stat("cpu 1 2 3 +4\r\n").unwrap();
    assert_eq!(st, State { total: 10, work: 6 });
}

fn fmt_message(r: Result<State, CpuError>) -> String {
    match r {
        Err(CpuError::Fmt(m)) => m,
        other => panic!("unexpected: {other:?}"),
    }
}

#[test]
fn stat_errors() {
    assert_eq!(fmt_message(parse_stat("")), "Stat file is empty.");
    assert_eq!(fmt_message(parse_stat("\ncpu 1 2 3 4")), "Stat file is empty.");
    assert_eq!(fmt_message(parse_stat("intr 1 2 3 4")), "Stat has invalid format.");
    assert_eq!(fmt_message(parse_stat("cpu 1 2 x 4")), "Stat file has invalid data.");
    assert_eq!(fmt_message(parse_stat("cpu 1 2 -3 4")), "Stat file has invalid data.");
    assert_eq!(fmt_message(parse_stat("cpu 1 2 18446744073709551616 4")), "Stat file has invalid data.");
    assert_eq!(fmt_message(parse_stat("cpu 1 2 3")), "Not enough data in stat file.");
    match state_of_read(None) {
        Err(CpuError::Io(m)) => assert_eq!(m, "Failed to open the stat file."),
        other => panic!("unexpected: {other:?}"),
    }
}

#[test]
fn stat_sums_wrap() {
    let st = parse_stat("cpu 18446744073709551615 1 0 5").unwrap();
    assert_eq!(st, State { total: 5, work: 0 });
}

#[test]
fn cpu_reports_deltas() {
    let mut cpu = Cpu::new("/proc/stat");
    assert_eq!(cpu.stat_path(), "/proc/stat");
    assert_eq!(cpu.advance(State { total: 100, work: 40 }), (40, 100));
    assert_eq!(cpu.advance(State { total: 150, work: 50 }), (10, 50));
    // Counters that go backwards wrap around.
    assert_eq!(cpu.advance(State { total: 149, work: 50 }), (0, u64::MAX));
}
