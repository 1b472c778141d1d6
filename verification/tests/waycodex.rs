use waybar_toys::credentials::{
    credentials_from_env, credentials_from_json, credentials_from_text, CredentialSearch, Credentials,
    Json, SearchStep,
};
use waybar_toys::paths::{auth_paths, config_dir, join_path, resolve_socket};
use waybar_toys::usage::{
    format_reset, timestamp_of_reading, unix_now, DisplayUsage, RateLimit, ResetCreditSummary,
    UsageResponse, Window,
};

fn obj(entries: Vec<(&str, Json)>) -> Json {
    Json::Object(entries.into_iter().map(|(k, v)| (k.to_string(), v)).collect())
}

fn text(s: &str) -> Json {
    Json::String(s.to_string())
}

#[test]
fn reads_native_codex_credentials() {
    let value = obj(vec![(
        "tokens",
        obj(vec![("access_token", text("token")), ("account_id", text("account"))]),
    )]);
    let credentials = credentials_from_json(&value).unwrap();
    assert_eq!(credentials.access_token, "token");
    assert_eq!(credentials.account_id.as_deref(), Some("account"));
}

#[test]
fn reads_pi_credentials() {
    let value = obj(vec![(
        "openai-codex",
        obj(vec![("type", text("oauth")), ("access", text("token"))]),
    )]);
    let credentials = credentials_from_json(&value).unwrap();
    assert_eq!(credentials.access_token, "token");
    assert_eq!(credentials.account_id, None);
}

#[test]
fn credentials_edge_cases() {
    // Top-level layout, with the account taken from the top level.
    let value = obj(vec![("access", text("t")), ("account_id", text("acc"))]);
    let c = credentials_from_json(&value).unwrap();
    assert_eq!(c.access_token, "t");
    assert_eq!(c.account_id.as_deref(), Some("acc"));
    // An empty token, or one that is not a string, gives nothing.
    assert!(credentials_from_json(&obj(vec![("access_token", text(""))])).is_none());
    assert!(credentials_from_json(&obj(vec![
        ("access_token", Json::Number("5".to_string())),
        ("access", text("fallback")),
    ]))
    .is_none());
    // An empty account is dropped.
    let c = credentials_from_json(&obj(vec![("access", text("t")), ("account_id", text(""))])).unwrap();
    assert_eq!(c.account_id, None);
    assert!(credentials_from_json(&Json::Null).is_none());
    assert!(credentials_from_json(&Json::Array(vec![text("x")])).is_none());
}

#[test]
fn credentials_from_file_text() {
    let c = credentials_from_text(r#"{"tokens":{"access_token":"token","account_id":"account"}}"#)
        .unwrap();
    assert_eq!(c.access_token, "token");
    assert_eq!(c.account_id.as_deref(), Some("account"));
    let c = credentials_from_text(r#"{"openai-codex":{"type":"oauth","access":"tok"}}"#).unwrap();
    assert_eq!(c.access_token, "tok");
    assert!(credentials_from_text("not json").is_none());
    assert!(credentials_from_text("{}").is_none());
}

/// Runs a search, answering each read from `files` (path, contents); returns
/// the outcome and the paths read, in order.
fn run_search(
    token: Option<&str>,
    account: Option<&str>,
    paths: &[&str],
    files: &[(&str, &str)],
) -> (Result<Credentials, String>, Vec<String>) {
    let (mut search, mut step) = CredentialSearch::begin(
        token.map(str::to_string),
        account.map(str::to_string),
        paths.iter().map(|p| p.to_string()).collect(),
    );
    let mut read = Vec::new();
    loop {
        match step {
            SearchStep::Read(path) => {
                let contents =
                    files.iter().find(|(p, _)| *p == path).map(|(_, c)| c.to_string());
                read.push(path);
                step = search.resume(contents);
            }
            SearchStep::Found(c) => return (Ok(c), read),
            SearchStep::Failed(m) => return (Err(m), read),
        }
    }
}

#[test]
fn credential_sources_in_order() {
    let paths = ["/a/auth.json", "/b/auth.json"];
    // The environment wins, and no file is read.
    let (c, read) = run_search(Some("envtok"), Some("envacc"), &paths, &[("/a/auth.json", r#"{"access":"filetok"}"#)]);
    let c = c.unwrap();
    assert_eq!(c.access_token, "envtok");
    assert_eq!(c.account_id.as_deref(), Some("envacc"));
    assert!(read.is_empty());
    // A blank token in the environment is ignored; unreadable files are skipped.
    let (c, read) = run_search(Some(" \t"), None, &paths, &[("/b/auth.json", r#"{"access":"filetok"}"#)]);
    assert_eq!(c.unwrap().access_token, "filetok");
    assert_eq!(read, vec!["/a/auth.json".to_string(), "/b/auth.json".to_string()]);
    // The search stops at the first file that holds credentials.
    let (c, read) = run_search(
        None,
        None,
        &paths,
        &[("/a/auth.json", r#"{"access":"first"}"#), ("/b/auth.json", r#"{"access":"second"}"#)],
    );
    assert_eq!(c.unwrap().access_token, "first");
    assert_eq!(read, vec!["/a/auth.json".to_string()]);
    let (err, _) = run_search(None, None, &paths, &[("/b/auth.json", "{}")]);
    assert_eq!(
        err.unwrap_err(),
        "no OpenAI Codex OAuth credentials found (checked /a/auth.json, /b/auth.json)"
    );
    let (err, read) = run_search(None, None, &[], &[]);
    assert_eq!(err.unwrap_err(), "no OpenAI Codex OAuth credentials found (checked )");
    assert!(read.is_empty());
    let none = credentials_from_env(None, Some("acc".to_string()));
    assert!(none.is_none());
}

#[test]
fn codex_home_does_not_hide_home_codex() {
    let paths = auth_paths(None, Some("/h".to_string()), Some("/c".to_string()));
    let path_refs: Vec<&str> = paths.iter().map(String::as_str).collect();
    let (c, _) = run_search(None, None, &path_refs, &[("/h/.codex/auth.json", r#"{"tokens":{"access_token":"t"}}"#)]);
    let c = c.unwrap();
    assert_eq!(c.access_token, "t");
    assert_eq!(c.account_id, None);
}

#[test]
fn auth_file_order() {
    assert_eq!(
        auth_paths(None, Some("/home/u".to_string()), None),
        vec!["/home/u/.codex/auth.json".to_string(), "/home/u/.pi/agent/auth.json".to_string()]
    );
    assert_eq!(
        auth_paths(None, Some("/home/u/".to_string()), Some("/cx".to_string())),
        vec![
            "/cx/auth.json".to_string(),
            "/home/u/.codex/auth.json".to_string(),
            "/home/u/.pi/agent/auth.json".to_string(),
        ]
    );
    assert_eq!(auth_paths(Some("x.json".to_string()), None, None), vec!["x.json".to_string()]);
    assert!(auth_paths(None, None, None).is_empty());
    assert_eq!(auth_paths(None, None, Some("/cx".to_string())), vec!["/cx/auth.json".to_string()]);
}

#[test]
fn socket_precedence() {
    let home = Some("/home/u".to_string());
    assert_eq!(
        resolve_socket(Some("/s".to_string()), Some("/e".to_string()), None, home.clone(), None),
        Some("/s".to_string())
    );
    assert_eq!(
        resolve_socket(None, Some("/e".to_string()), None, home.clone(), None),
        Some("/e".to_string())
    );
    assert_eq!(
        resolve_socket(None, Some(String::new()), None, home.clone(), Some("work".to_string())),
        Some("/home/u/.config/herdr/sessions/work/herdr.sock".to_string())
    );
    assert_eq!(
        resolve_socket(None, None, Some("relative".to_string()), home.clone(), Some(String::new())),
        Some("/home/u/.config/herdr/herdr.sock".to_string())
    );
    assert_eq!(
        resolve_socket(None, None, Some("/xdg".to_string()), None, None),
        Some("/xdg/herdr/herdr.sock".to_string())
    );
    assert_eq!(resolve_socket(None, None, None, None, None), None);
    assert_eq!(config_dir(None, Some(String::new())), Some(".config/herdr".to_string()));
    assert_eq!(join_path("/a", "/b"), "/b");
    assert_eq!(join_path("", "b"), "b");
}

fn window(used: f64, seconds: u64, reset: i64) -> Window<f64> {
    Window {
        used_percent: used,
        limit_window_seconds: Some(seconds),
        reset_at: Some(reset),
        reset_after_seconds: None,
    }
}

#[test]
fn identifies_windows_by_duration_and_renders() {
    let response = UsageResponse {
        rate_limit: RateLimit {
            primary_window: Some(window(12.5, 604_800, 200_000)),
            secondary_window: Some(window(34.0, 18_000, 103_660)),
        },
        rate_limit_reset_credits: Some(ResetCreditSummary { available_count: 2 }),
    };
    let usage = DisplayUsage::from_response(&response, None, 100_000).unwrap();
    assert_eq!(usage.five_hour_used, 34.0);
    assert_eq!(usage.week_used, 12.5);
    assert_eq!(usage.banked, Some(2));
    // The percentages are written as the widget writes them: "34" and "12.5".
    assert_eq!(
        usage.render_with_percents(
            "5h {5h_used}% 1w {1w_used}% R{banked} {next_reset}",
            100_000,
            "34",
            "12.5",
            "66",
            "87.5",
        ),
        "5h 34% 1w 12.5% R2 1h 1m"
    );
}

#[test]
fn formats_reset_countdowns() {
    assert_eq!(format_reset(Some(100), 100), "now");
    assert_eq!(format_reset(Some(159), 100), "<1m");
    assert_eq!(format_reset(Some(3_760), 100), "1h 1m");
    assert_eq!(format_reset(Some(93_700), 100), "1d 2h");
    assert_eq!(format_reset(None, 100), "?");
}

#[test]
fn reset_countdown_edges() {
    assert_eq!(format_reset(Some(50), 100), "now");
    assert_eq!(format_reset(Some(160), 100), "1m");
    assert_eq!(format_reset(Some(i64::MAX), i64::MIN), "106751991167300d 15h");
    assert_eq!(format_reset(Some(100 + 86_400), 100), "1d 0h");
}

#[test]
fn window_selection_and_fallbacks() {
    let w = |len: Option<u64>, at: Option<i64>, after: Option<u64>| Window {
        used_percent: 1u8,
        limit_window_seconds: len,
        reset_at: at,
        reset_after_seconds: after,
    };
    // A window of unknown length counts as the longest; ties keep the order.
    let response = UsageResponse {
        rate_limit: RateLimit {
            primary_window: Some(w(None, Some(7), None)),
            secondary_window: Some(w(Some(10), None, Some(60))),
        },
        rate_limit_reset_credits: None,
    };
    let usage = DisplayUsage::from_response(&response, Some(4), 1_000).unwrap();
    assert_eq!(usage.five_hour_reset, Some(1_060));
    assert_eq!(usage.week_reset, Some(7));
    assert_eq!(usage.banked, Some(4));
    assert_eq!(usage.next_reset(), Some(7));
    let tie = UsageResponse {
        rate_limit: RateLimit {
            primary_window: Some(w(Some(5), Some(1), None)),
            secondary_window: Some(w(Some(5), Some(2), None)),
        },
        rate_limit_reset_credits: None,
    };
    let usage = DisplayUsage::from_response(&tie, None, 0).unwrap();
    assert_eq!((usage.five_hour_reset, usage.week_reset, usage.banked), (Some(1), Some(2), None));
    assert_eq!(
        usage.render_with_percents("{banked} {5h_reset} {1w_reset} {5h_left}", 0, "a", "b", "c", "d"),
        "? <1m <1m c"
    );
    // Reset seconds are added saturating.
    let far = UsageResponse {
        rate_limit: RateLimit {
            primary_window: Some(w(Some(1), None, Some(u64::MAX))),
            secondary_window: Some(w(Some(2), None, Some(i64::MAX as u64))),
        },
        rate_limit_reset_credits: None,
    };
    let usage = DisplayUsage::from_response(&far, None, 10).unwrap();
    assert_eq!(usage.five_hour_reset, Some(9));
    assert_eq!(usage.week_reset, Some(i64::MAX));
    let one = UsageResponse {
        rate_limit: RateLimit { primary_window: Some(w(Some(1), None, None)), secondary_window: None },
        rate_limit_reset_credits: None,
    };
    assert!(DisplayUsage::from_response(&one, None, 0).is_none());
}

#[test]
fn clock_readings() {
    assert_eq!(timestamp_of_reading(None), 0);
    assert_eq!(timestamp_of_reading(Some(1_700_000_000)), 1_700_000_000);
    assert_eq!(timestamp_of_reading(Some(u64::MAX)), -1);
    assert!(unix_now() > 1_600_000_000);
}
