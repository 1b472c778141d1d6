//! Where the widgets look for their files: the herdr socket and the Codex
//! auth files, from the environment's settings. Paths are joined as
//! `PathBuf::join` joins them on Unix.
use vstd::prelude::*;

use crate::text::{append_chars, chars_of, string_of};

verus! {

broadcast use vstd::string::group_string_axioms;

/// `base` extended by `part` as `PathBuf::join` does on Unix: an absolute
/// `part` replaces `base`; otherwise a `/` separates them unless `base` is
/// empty or already ends with one.
pub open spec fn joined_path(base: Seq<char>, part: Seq<char>) -> Seq<char> {
    if part.len() > 0 && part[0] == '/' {
        part
    } else if base.len() == 0 || base.last() == '/' {
        base + part
    } else {
        base + seq!['/'] + part
    }
}

/// `base` extended by `part` (see `joined_path`).
pub fn join_path(base: &str, part: &str) -> (r: String)
    ensures
        r@ == joined_path(base@, part@),
{
    let b = chars_of(base);
    let p = chars_of(part);
    if p.len() > 0 && p[0] == '/' {
        return string_of(&p);
    }
    let mut out = b;
    if out.len() > 0 && out[out.len() - 1] != '/' {
        out.push('/');
    }
    append_chars(&mut out, &p);
    string_of(&out)
}

/// Whether a path is absolute on Unix.
pub open spec fn is_absolute(p: Seq<char>) -> bool {
    p.len() > 0 && p[0] == '/'
}

/// Herdr's config directory: `$XDG_CONFIG_HOME` when it is absolute, else
/// `$HOME/.config`, followed by `herdr`.
pub open spec fn herdr_config_dir(xdg_config_home: Option<Seq<char>>, home: Option<Seq<char>>) -> Option<
    Seq<char>,
> {
    let base = match xdg_config_home {
        Some(x) if is_absolute(x) => Some(x),
        _ => match home {
            Some(h) => Some(joined_path(h, ".config"@)),
            None => None,
        },
    };
    match base {
        Some(b) => Some(joined_path(b, "herdr"@)),
        None => None,
    }
}

/// Whether `p` is absolute.
pub fn absolute(p: &str) -> (r: bool)
    ensures
        r == is_absolute(p@),
{
    let v = chars_of(p);
    v.len() > 0 && v[0] == '/'
}

/// The text of an optional string.
pub open spec fn opt_text(s: Option<String>) -> Option<Seq<char>> {
    match s {
        Some(x) => Some(x@),
        None => None,
    }
}

/// Herdr's config directory (see `herdr_config_dir`).
pub fn config_dir(xdg_config_home: Option<String>, home: Option<String>) -> (r: Option<String>)
    ensures
        opt_text(r) == herdr_config_dir(opt_text(xdg_config_home), opt_text(home)),
{
    let base = match xdg_config_home {
        Some(x) if absolute(x.as_str()) => Some(x),
        _ => match home {
            Some(h) => Some(join_path(h.as_str(), ".config")),
            None => None,
        },
    };
    match base {
        Some(b) => Some(join_path(b.as_str(), "herdr")),
        None => None,
    }
}

} // verus!

verus! {

/// The herdr socket, in herdr's order of precedence: the explicit path;
/// `$HERDR_SOCKET_PATH` when not empty; `sessions/<name>/herdr.sock` in the
/// config directory for a non-empty `$HERDR_SESSION`; else `herdr.sock` in
/// the config directory. `None` when no config directory can be found.
pub open spec fn herdr_socket(
    explicit: Option<Seq<char>>,
    socket_env: Option<Seq<char>>,
    xdg_config_home: Option<Seq<char>>,
    home: Option<Seq<char>>,
    session: Option<Seq<char>>,
) -> Option<Seq<char>> {
    match explicit {
        Some(p) => Some(p),
        None => match socket_env {
            Some(s) if s.len() > 0 => Some(s),
            _ => match herdr_config_dir(xdg_config_home, home) {
                None => None,
                Some(c) => match session {
                    Some(n) if n.len() > 0 => Some(
                        joined_path(joined_path(joined_path(c, "sessions"@), n), "herdr.sock"@),
                    ),
                    _ => Some(joined_path(c, "herdr.sock"@)),
                },
            },
        },
    }
}

/// The herdr socket to connect to (see `herdr_socket`).
pub fn resolve_socket(
    explicit: Option<String>,
    socket_env: Option<String>,
    xdg_config_home: Option<String>,
    home: Option<String>,
    session: Option<String>,
) -> (r: Option<String>)
    ensures
        opt_text(r) == herdr_socket(
            opt_text(explicit),
            opt_text(socket_env),
            opt_text(xdg_config_home),
            opt_text(home),
            opt_text(session),
        ),
{
    if let Some(path) = explicit {
        return Some(path);
    }
    if let Some(path) = socket_env {
        if !path.as_str().is_empty() {
            return Some(path);
        }
    }
    let config = match config_dir(xdg_config_home, home) {
        Some(c) => c,
        None => {
            return None;
        },
    };
    if let Some(name) = session {
        if !name.as_str().is_empty() {
            let sessions = join_path(config.as_str(), "sessions");
            let dir = join_path(sessions.as_str(), name.as_str());
            return Some(join_path(dir.as_str(), "herdr.sock"));
        }
    }
    Some(join_path(config.as_str(), "herdr.sock"))
}

/// The auth files to check, in order: the explicit one alone when given;
/// otherwise `$CODEX_HOME/auth.json` (when `$CODEX_HOME` is set), then
/// `$HOME/.codex/auth.json` and `$HOME/.pi/agent/auth.json` (when `$HOME`
/// is set).
pub open spec fn auth_file_paths(
    explicit: Option<Seq<char>>,
    home: Option<Seq<char>>,
    codex_home: Option<Seq<char>>,
) -> Seq<Seq<char>> {
    match explicit {
        Some(p) => seq![p],
        None => (match codex_home {
            Some(c) => seq![joined_path(c, "auth.json"@)],
            None => Seq::empty(),
        }) + (match home {
            Some(h) => seq![
                joined_path(joined_path(h, ".codex"@), "auth.json"@),
                joined_path(h, ".pi/agent/auth.json"@),
            ],
            None => Seq::empty(),
        }),
    }
}

/// The auth files to check (see `auth_file_paths`).
pub fn auth_paths(explicit: Option<String>, home: Option<String>, codex_home: Option<String>) -> (r:
    Vec<String>)
    ensures
        r@.map_values(|p: String| p@) == auth_file_paths(
            opt_text(explicit),
            opt_text(home),
            opt_text(codex_home),
        ),
{
    let mut paths: Vec<String> = Vec::new();
    if let Some(p) = explicit {
        paths.push(p);
        assert(paths@.map_values(|p: String| p@) =~= seq![p@]);
        return paths;
    }
    if let Some(c) = codex_home {
        paths.push(join_path(c.as_str(), "auth.json"));
    }
    let ghost first = paths@.map_values(|p: String| p@);
    if let Some(h) = home {
        let codex_dir = join_path(h.as_str(), ".codex");
        paths.push(join_path(codex_dir.as_str(), "auth.json"));
        paths.push(join_path(h.as_str(), ".pi/agent/auth.json"));
        assert(paths@.map_values(|p: String| p@) =~= first + seq![
            joined_path(joined_path(h@, ".codex"@), "auth.json"@),
            joined_path(h@, ".pi/agent/auth.json"@),
        ]);
    }
    assert(paths@.map_values(|p: String| p@) =~= auth_file_paths(
        opt_text(explicit),
        opt_text(home),
        opt_text(codex_home),
    ));
    paths
}

} // verus!
