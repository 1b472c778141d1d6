//! OpenAI Codex OAuth credentials, as the Codex CLI and pi store them, and
//! the order in which their sources are tried.
use vstd::prelude::*;

use crate::text;
use crate::text::{append_chars, chars_of, is_space_char, str_eq, string_of};

verus! {

broadcast use vstd::string::group_string_axioms;

/// A JSON document. Numbers are kept as the text that writes them.
#[derive(Debug)]
pub enum Json {
    Null,
    Bool(bool),
    Number(String),
    String(String),
    Array(Vec<Json>),
    Object(Vec<(String, Json)>),
}

/// The value stored under `key` among `entries` (the first such entry).
pub open spec fn entry_value(entries: Seq<(String, Json)>, key: Seq<char>) -> Option<Json>
    decreases entries.len(),
{
    if entries.len() == 0 {
        None
    } else if entries[0].0@ == key {
        Some(entries[0].1)
    } else {
        entry_value(entries.skip(1), key)
    }
}

/// The member `key` of an object; `None` for a missing key or a value that
/// is no object.
pub open spec fn member(j: Json, key: Seq<char>) -> Option<Json> {
    match j {
        Json::Object(entries) => entry_value(entries@, key),
        _ => None,
    }
}

/// The text of a JSON string; `None` for any other value.
pub open spec fn string_text(j: Option<Json>) -> Option<Seq<char>> {
    match j {
        Some(Json::String(s)) => Some(s@),
        _ => None,
    }
}

/// `a` when it is there, else `b`.
pub open spec fn either(a: Option<Json>, b: Option<Json>) -> Option<Json> {
    match a {
        Some(v) => Some(v),
        None => b,
    }
}

/// A non-empty text; `None` for an empty or missing one.
pub open spec fn non_empty(t: Option<Seq<char>>) -> Option<Seq<char>> {
    match t {
        Some(s) => if s.len() > 0 { Some(s) } else { None },
        None => None,
    }
}

impl Json {
    /// The member `key` of an object (see `member`).
    pub fn get(&self, key: &str) -> (r: Option<&Json>)
        ensures
            match r {
                Some(v) => member(*self, key@) == Some(*v),
                None => member(*self, key@) is None,
            },
    {
        match self {
            Json::Object(entries) => {
                let mut i: usize = 0;
                assert(entries@.skip(0) =~= entries@);
                while i < entries.len()
                    invariant
                        i <= entries@.len(),
                        member(*self, key@) == entry_value(entries@, key@),
                        entry_value(entries@, key@) == entry_value(entries@.skip(i as int), key@),
                    decreases entries.len() - i,
                {
                    assert(entries@.skip(i as int).skip(1) =~= entries@.skip(i + 1));
                    assert(entries@.skip(i as int)[0] == entries@[i as int]);
                    if str_eq(entries[i].0.as_str(), key) {
                        return Some(&entries[i].1);
                    }
                    i = i + 1;
                }
                assert(entries@.skip(i as int).len() == 0);
                None
            },
            _ => None,
        }
    }

    /// The text of a string (see `string_text`).
    pub fn as_str(&self) -> (r: Option<&str>)
        ensures
            match r {
                Some(s) => string_text(Some(*self)) == Some(s@),
                None => string_text(Some(*self)) is None,
            },
    {
        match self {
            Json::String(s) => Some(s.as_str()),
            _ => None,
        }
    }
}

} // verus!

verus! {

#[verifier::external_type_specification]
#[verifier::external_body]
pub struct ExJsonValue(serde_json::Value);

/// What `serde_json` reads from `text` as a JSON document (`None` when the
/// text is no JSON), held as a [`Json`].
pub uninterp spec fn json_parse(text: Seq<char>) -> Option<Json>;

/// Parses `text` with `serde_json::from_str::<serde_json::Value>`; the
/// result is the document it reads, or `None` on a syntax error. Claimed:
/// the result depends on the text alone.
#[verifier::external_body]
fn parse_json(text: &str) -> (r: Option<Json>)
    ensures
        r == json_parse(text@),
{
    match serde_json::from_str::<serde_json::Value>(text) {
        Ok(value) => Some(json_of_value(value)),
        Err(_) => None,
    }
}

/// Converts a `serde_json::Value` into a [`Json`], variant by variant
/// (numbers by `serde_json::Number`'s `to_string`, objects entry by entry in
/// the map's order). Nothing is stated of the result.
#[verifier::external_body]
fn json_of_value(value: serde_json::Value) -> Json {
    match value {
        serde_json::Value::Null => Json::Null,
        serde_json::Value::Bool(b) => Json::Bool(b),
        serde_json::Value::Number(n) => Json::Number(n.to_string()),
        serde_json::Value::String(s) => Json::String(s),
        serde_json::Value::Array(items) => Json::Array(items.into_iter().map(json_of_value).collect()),
        serde_json::Value::Object(map) => Json::Object(
            map.into_iter().map(|(k, v)| (k, json_of_value(v))).collect(),
        ),
    }
}

/// An OAuth access token, with the account it belongs to when known.
#[derive(Debug)]
pub struct Credentials {
    pub access_token: String,
    pub account_id: Option<String>,
}

/// The texts of credentials: the token and the account.
pub open spec fn credentials_text(c: Credentials) -> (Seq<char>, Option<Seq<char>>) {
    (
        c.access_token@,
        match c.account_id {
            Some(a) => Some(a@),
            None => None,
        },
    )
}

/// The texts of optional credentials.
pub open spec fn found_text(c: Option<Credentials>) -> Option<(Seq<char>, Option<Seq<char>>)> {
    match c {
        Some(c) => Some(credentials_text(c)),
        None => None,
    }
}

/// The credentials stored in an auth file's document, in either layout:
/// native Codex `{"tokens":{"access_token":"...","account_id":"..."}}` or
/// pi `{"openai-codex":{"type":"oauth","access":"..."}}`; a document that is
/// neither is searched at its top level. The token must be a non-empty
/// string; the account is taken from the same object or else the top level,
/// and only when it is a non-empty string.
pub open spec fn credentials_in(root: Json) -> Option<(Seq<char>, Option<Seq<char>>)> {
    let candidate = match either(member(root, "tokens"@), member(root, "openai-codex"@)) {
        Some(c) => c,
        None => root,
    };
    let access = non_empty(
        string_text(either(member(candidate, "access_token"@), member(candidate, "access"@))),
    );
    let account = non_empty(
        string_text(either(member(candidate, "account_id"@), member(root, "account_id"@))),
    );
    match access {
        Some(a) => Some((a, account)),
        None => None,
    }
}

fn non_empty_text(t: Option<&str>) -> (r: Option<String>)
    ensures
        match r {
            Some(s) => non_empty(match t {
                Some(x) => Some(x@),
                None => None,
            }) == Some(s@),
            None => non_empty(match t {
                Some(x) => Some(x@),
                None => None,
            }) is None,
        },
{
    match t {
        Some(s) => if s.is_empty() {
            None
        } else {
            Some(s.to_string())
        },
        None => None,
    }
}

fn text_member(first: Option<&Json>, second: Option<&Json>) -> (r: Option<String>)
    ensures
        match r {
            Some(s) => non_empty(string_text(either(
                match first {
                    Some(j) => Some(*j),
                    None => None,
                },
                match second {
                    Some(j) => Some(*j),
                    None => None,
                },
            ))) == Some(s@),
            None => non_empty(string_text(either(
                match first {
                    Some(j) => Some(*j),
                    None => None,
                },
                match second {
                    Some(j) => Some(*j),
                    None => None,
                },
            ))) is None,
        },
{
    let picked = match first {
        Some(v) => Some(v),
        None => second,
    };
    let text = match picked {
        Some(v) => v.as_str(),
        None => None,
    };
    non_empty_text(text)
}

/// The credentials stored in an auth file's document (see
/// `credentials_in`).
pub fn credentials_from_json(root: &Json) -> (r: Option<Credentials>)
    ensures
        found_text(r) == credentials_in(*root),
{
    let candidate: &Json = match root.get("tokens") {
        Some(c) => c,
        None => match root.get("openai-codex") {
            Some(c) => c,
            None => root,
        },
    };
    let access_token = match text_member(candidate.get("access_token"), candidate.get("access")) {
        Some(t) => t,
        None => {
            return None;
        },
    };
    let account_id = text_member(candidate.get("account_id"), root.get("account_id"));
    Some(Credentials { access_token, account_id })
}

/// The credentials in the text of an auth file: none when it is no JSON.
pub fn credentials_from_text(contents: &str) -> (r: Option<Credentials>)
    ensures
        found_text(r) == (match json_parse(contents@) {
            Some(root) => credentials_in(root),
            None => None,
        }),
{
    match parse_json(contents) {
        Some(root) => credentials_from_json(&root),
        None => None,
    }
}

/// `s` holds a character that is not whitespace, so that trimming leaves
/// something.
pub open spec fn has_content(s: Seq<char>) -> bool {
    exists|i: int| 0 <= i < s.len() && !text::is_space(#[trigger] s[i])
}

fn has_content_chars(s: &str) -> (r: bool)
    ensures
        r == has_content(s@),
{
    let v = chars_of(s);
    let mut i: usize = 0;
    while i < v.len()
        invariant
            v@ == s@,
            i <= v.len(),
            forall|k: int| 0 <= k < i ==> text::is_space(#[trigger] v@[k]),
        decreases v.len() - i,
    {
        if !is_space_char(v[i]) {
            return true;
        }
        i = i + 1;
    }
    false
}

/// Credentials given by the environment: a token that is not blank, with
/// the account given beside it.
pub fn credentials_from_env(token: Option<String>, account: Option<String>) -> (r: Option<
    Credentials,
>)
    ensures
        match token {
            Some(t) => if has_content(t@) {
                r matches Some(c) && c.access_token == t && c.account_id == account
            } else {
                r is None
            },
            None => r is None,
        },
{
    match token {
        Some(t) => if has_content_chars(t.as_str()) {
            Some(Credentials { access_token: t, account_id: account })
        } else {
            None
        },
        None => None,
    }
}

/// `items` joined by `sep`.
pub open spec fn joined(items: Seq<Seq<char>>, sep: Seq<char>) -> Seq<char>
    decreases items.len(),
{
    if items.len() == 0 {
        Seq::empty()
    } else if items.len() == 1 {
        items[0]
    } else {
        joined(items.drop_last(), sep) + sep + items.last()
    }
}

/// The error when no source holds credentials, naming the files checked.
pub open spec fn missing_credentials_message(paths: Seq<Seq<char>>) -> Seq<char> {
    "no OpenAI Codex OAuth credentials found (checked "@ + joined(paths, ", "@) + ")"@
}

/// The credentials in what reading an auth file gave: none when the file
/// could not be read (`None`) or its text holds none.
pub open spec fn file_credentials(contents: Option<String>) -> Option<
    (Seq<char>, Option<Seq<char>>),
> {
    match contents {
        Some(c) => match json_parse(c@) {
            Some(root) => credentials_in(root),
            None => None,
        },
        None => None,
    }
}

/// What to do next while looking for credentials.
#[derive(Debug)]
pub enum SearchStep {
    /// Read the auth file at this path and hand the outcome to
    /// `CredentialSearch::resume`.
    Read(String),
    /// The credentials to use.
    Found(Credentials),
    /// No source holds credentials; the message names the files checked.
    Failed(String),
}

/// A search for credentials: first the environment, then the auth files in
/// order, one read at a time, stopping at the first source that holds some.
pub struct CredentialSearch {
    paths: Vec<String>,
    next: usize,
}

impl CredentialSearch {
    /// The auth files to check, in order.
    pub closed spec fn paths(self) -> Seq<Seq<char>> {
        self.paths@.map_values(|p: String| p@)
    }

    /// The index of the file read next.
    pub closed spec fn position(self) -> nat {
        self.next as nat
    }

    /// Starts the search. A token from the environment that is not blank
    /// wins at once, with the account given beside it, and no file is read;
    /// otherwise the first file is to be read, or the search fails when
    /// there is none.
    pub fn begin(env_token: Option<String>, env_account: Option<String>, paths: Vec<String>) -> (r:
        (CredentialSearch, SearchStep))
        ensures
            r.0.paths() == paths@.map_values(|p: String| p@),
            r.0.position() == 0,
            match env_token {
                Some(t) if has_content(t@) => r.1 matches SearchStep::Found(c) && c.access_token
                    == t && c.account_id == env_account,
                _ => if paths@.len() == 0 {
                    r.1 matches SearchStep::Failed(m) && m@ == missing_credentials_message(
                        paths@.map_values(|p: String| p@),
                    )
                } else {
                    r.1 matches SearchStep::Read(p) && p@ == paths@[0]@
                },
            },
    {
        let step = match credentials_from_env(env_token, env_account) {
            Some(c) => SearchStep::Found(c),
            None => if paths.len() == 0 {
                SearchStep::Failed(string_of(&missing_message_chars(&paths)))
            } else {
                SearchStep::Read(paths[0].clone())
            },
        };
        (CredentialSearch { paths, next: 0 }, step)
    }

    /// Continues the search with what reading the file at `position()`
    /// gave (`None` when it could not be read): its credentials when it
    /// holds some; else the next file is to be read, or the search fails
    /// after the last one. With no file left to read it fails.
    pub fn resume(&mut self, contents: Option<String>) -> (r: SearchStep)
        ensures
            final(self).paths() == old(self).paths(),
            old(self).position() >= old(self).paths().len() ==> (final(self).position()
                == old(self).position() && (r matches SearchStep::Failed(m) && m@
                == missing_credentials_message(old(self).paths()))),
            old(self).position() < old(self).paths().len() ==> match file_credentials(contents) {
                Some(found) => final(self).position() == old(self).position() && (r matches SearchStep::Found(c)
                    && credentials_text(c) == found),
                None => final(self).position() == old(self).position() + 1 && (if final(self).position() < old(self).paths().len() {
                    r matches SearchStep::Read(p) && p@ == old(self).paths()[final(self).position() as int]
                } else {
                    r matches SearchStep::Failed(m) && m@ == missing_credentials_message(old(self).paths())
                }),
            },
    {
        if self.next >= self.paths.len() {
            return SearchStep::Failed(string_of(&missing_message_chars(&self.paths)));
        }
        if let Some(text) = &contents {
            if let Some(c) = credentials_from_text(text.as_str()) {
                return SearchStep::Found(c);
            }
        }
        self.next = self.next + 1;
        if self.next < self.paths.len() {
            SearchStep::Read(self.paths[self.next].clone())
        } else {
            SearchStep::Failed(string_of(&missing_message_chars(&self.paths)))
        }
    }
}

fn missing_message_chars(paths: &Vec<String>) -> (r: Vec<char>)
    ensures
        r@ == missing_credentials_message(paths@.map_values(|p: String| p@)),
{
    let ghost items = paths@.map_values(|p: String| p@);
    let mut out = chars_of("no OpenAI Codex OAuth credentials found (checked ");
    let ghost head = out@;
    let sep = chars_of(", ");
    let mut i: usize = 0;
    assert(items.take(0) =~= Seq::<Seq<char>>::empty());
    assert(head + joined(items.take(0), sep@) =~= head);
    while i < paths.len()
        invariant
            items == paths@.map_values(|p: String| p@),
            sep@ == ", "@,
            i <= paths.len(),
            out@ == head + joined(items.take(i as int), sep@),
        decreases paths.len() - i,
    {
        let ghost before = out@;
        if i > 0 {
            append_chars(&mut out, &sep);
        }
        append_chars(&mut out, &chars_of(paths[i].as_str()));
        proof {
            let t = items.take(i + 1);
            assert(t.drop_last() =~= items.take(i as int));
            assert(t.last() == paths@[i as int]@);
            if i == 0 {
                assert(joined(t, sep@) == t[0]);
                assert(out@ =~= head + joined(t, sep@));
            } else {
                assert(out@ =~= head + joined(t, sep@));
            }
        }
        i = i + 1;
    }
    assert(items.take(i as int) =~= items);
    append_chars(&mut out, &chars_of(")"));
    out
}

} // verus!
