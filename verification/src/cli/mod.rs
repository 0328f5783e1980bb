//! The command-line client: its configuration, and the request that each
//! command sends to the manage API.
pub mod commands;

use vstd::prelude::*;
use crate::text::push_char;

verus! {

/// The client's configuration: where the site is, and the token.
#[derive(Debug)]
pub struct Config {
    pub base_url: String,
    pub token: String,
}

/// An HTTP method.
#[derive(PartialEq, Eq, Structural, Clone, Copy, Debug)]
pub enum Method {
    Get,
    Post,
    Put,
    Delete,
}

/// A JSON value of a request body.
#[derive(Debug)]
pub enum JsonValue {
    Null,
    Text(String),
    Int(i64),
}

/// A request to the manage API: method, path below the base address, and a
/// JSON object body (none for reads and removals).
#[derive(Debug)]
pub struct ApiCall {
    pub method: Method,
    pub path: String,
    pub body: Option<Vec<(String, JsonValue)>>,
}

/// An optional text as JSON: the text, or `null`.
pub open spec fn json_text(o: Option<String>) -> JsonValue {
    match o {
        Some(s) => JsonValue::Text(s),
        None => JsonValue::Null,
    }
}

/// An optional number as JSON: the number, or `null`.
pub open spec fn json_int(o: Option<i64>) -> JsonValue {
    match o {
        Some(n) => JsonValue::Int(n),
        None => JsonValue::Null,
    }
}

/// The body's fields are named `names` and hold `values`, in order.
pub open spec fn fields_are(body: Option<Vec<(String, JsonValue)>>, names: Seq<Seq<char>>, values: Seq<JsonValue>) -> bool {
    body matches Some(b) && b@.len() == names.len() && names.len() == values.len() && forall|i: int|
        0 <= i < names.len() ==> (#[trigger] b@[i]).0@ == names[i] && b@[i].1 == values[i]
}

pub fn json_opt_text(o: Option<String>) -> (r: JsonValue)
    ensures
        r == json_text(o),
{
    match o {
        Some(s) => JsonValue::Text(s),
        None => JsonValue::Null,
    }
}

pub fn json_opt_int(o: Option<i64>) -> (r: JsonValue)
    ensures
        r == json_int(o),
{
    match o {
        Some(n) => JsonValue::Int(n),
        None => JsonValue::Null,
    }
}

/// A text without its trailing slashes (`trim_end_matches('/')`).
pub open spec fn trim_slashes(s: Seq<char>) -> Seq<char>
    decreases s.len(),
{
    if s.len() > 0 && s.last() == '/' {
        trim_slashes(s.drop_last())
    } else {
        s
    }
}

/// `s` without its trailing slashes.
pub fn trim_end_slashes(s: &str) -> (r: String)
    ensures
        r@ == trim_slashes(s@),
{
    let n = s.unicode_len();
    let mut end: usize = n;
    assert(s@.take(n as int) =~= s@);
    while end > 0 && s.get_char(end - 1) == '/'
        invariant
            n == s@.len(),
            end <= n,
            trim_slashes(s@.take(end as int)) == trim_slashes(s@),
        decreases end,
    {
        proof {
            assert(s@.take(end as int).drop_last() =~= s@.take(end - 1));
        }
        end = end - 1;
    }
    let mut r = String::new();
    let mut i: usize = 0;
    while i < end
        invariant
            n == s@.len(),
            i <= end <= n,
            r@ == s@.take(i as int),
        decreases end - i,
    {
        let c = s.get_char(i);
        push_char(&mut r, c);
        proof {
            assert(s@.take(i + 1) =~= s@.take(i as int).push(c));
        }
        i = i + 1;
    }
    proof {
        if end > 0 {
            assert(s@.take(end as int).last() == s@[end - 1]);
        }
        assert(trim_slashes(s@.take(end as int)) == s@.take(end as int));
    }
    r
}

impl Config {
    /// The configuration as read from the file, its address without the
    /// trailing slashes.
    pub fn from_file_values(base_url: &str, token: String) -> (r: Config)
        ensures
            r.base_url@ == trim_slashes(base_url@),
            r.token == token,
    {
        Config { base_url: trim_end_slashes(base_url), token }
    }
}

/// `base` joined with the path component `part`, as `PathBuf::join` does
/// for a relative component: a separator in between unless `base` is
/// empty or ends in one.
pub open spec fn path_join(base: Seq<char>, part: Seq<char>) -> Seq<char> {
    if base.len() == 0 || base.last() == '/' {
        base + part
    } else {
        base + "/"@ + part
    }
}

/// The configuration file below the home directory.
pub open spec fn config_file(home: Seq<char>) -> Seq<char> {
    path_join(path_join(path_join(home, ".config"@), "news-cli"@), "config.toml"@)
}

fn join_path(base: String, part: &str) -> (r: String)
    ensures
        r@ == path_join(base@, part@),
{
    let n = base.unicode_len();
    let mut r = base;
    if n > 0 && r.as_str().get_char(n - 1) != '/' {
        r.append("/");
    }
    r.append(part);
    r
}

/// The configuration file, `~/.config/news-cli/config.toml`, for the home
/// directory `home` (`/home/user` when it is not known).
pub fn config_path(home: Option<String>) -> (r: String)
    ensures
        r@ == config_file(match home {
            Some(h) => h@,
            None => "/home/user"@,
        }),
{
    let h = match home {
        Some(h) => h,
        None => String::from_str("/home/user"),
    };
    let a = join_path(h, ".config");
    let b = join_path(a, "news-cli");
    join_path(b, "config.toml")
}

impl ApiCall {
    /// The address of the request below the base address `base_url`.
    pub fn url(&self, base_url: &str) -> (r: String)
        ensures
            r@ == base_url@ + self.path@,
    {
        let mut s = String::from_str(base_url);
        s.append(self.path.as_str());
        s
    }
}

} // verus!
