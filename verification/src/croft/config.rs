//! The defaults of a croft's configuration and where its data lives on
//! disk.

use vstd::prelude::*;
use crate::croft::types::CroftRole;
use crate::text::{chars_of, owned, trim, trim_str};

verus! {

/// The address a croft listens on by default.
pub open spec fn default_addr_text() -> Seq<char> {
    "127.0.0.1:7440"@
}

/// The name of a croft, and of its regent, by default.
pub open spec fn default_name_text() -> Seq<char> {
    "main"@
}

/// The address a croft listens on by default: `127.0.0.1:7440`.
pub fn default_addr() -> (r: String)
    ensures
        r@ == default_addr_text(),
{
    owned("127.0.0.1:7440")
}

/// The name of a croft by default: `main`.
pub fn default_name() -> (r: String)
    ensures
        r@ == default_name_text(),
{
    owned("main")
}

/// The roles of a croft by default: server and worker.
pub fn default_roles() -> (r: Vec<CroftRole>)
    ensures
        r@ == seq![CroftRole::Server, CroftRole::Worker],
{
    let mut r: Vec<CroftRole> = Vec::new();
    r.push(CroftRole::Server);
    r.push(CroftRole::Worker);
    r
}

/// The api url of the address `a`: `http://<a>`.
pub fn http_url(a: &str) -> (r: String)
    ensures
        r@ == "http://"@ + a@,
{
    owned("http://").concat(a)
}

/// A path with `p` appended, as a path buffer appends on unix: `p` itself
/// when it is absolute or `base` is empty; else joined by one separator,
/// added unless `base` ends with one.
pub open spec fn join_path(base: Seq<char>, p: Seq<char>) -> Seq<char> {
    if (p.len() > 0 && p[0] == '/') || base.len() == 0 {
        p
    } else if base.last() == '/' {
        base + p
    } else {
        base + "/"@ + p
    }
}

/// Appends the path `p` to `base` (see `join_path`).
pub fn join(base: &str, p: &str) -> (r: String)
    ensures
        r@ == join_path(base@, p@),
{
    proof {
        reveal_strlit("/");
    }
    let pc = chars_of(p);
    let bc = chars_of(base);
    if (pc.len() > 0 && pc[0] == '/') || bc.len() == 0 {
        owned(p)
    } else if bc[bc.len() - 1] == '/' {
        owned(base).concat(p)
    } else {
        owned(base).concat("/").concat(p)
    }
}

/// The home directory, or `.` when it is not known.
pub open spec fn home_or_here(home: Option<Seq<char>>) -> Seq<char> {
    match home {
        Some(h) => h,
        None => "."@,
    }
}

/// The directory that holds all local crofts: `<home>/.swini/crofts`.
pub open spec fn crofts_dir_spec(home: Option<Seq<char>>) -> Seq<char> {
    join_path(join_path(home_or_here(home), ".swini"@), "crofts"@)
}

/// The data directory of the croft `name` by default:
/// `<home>/.swini/crofts/<name>`.
pub open spec fn default_data_dir_spec(home: Option<Seq<char>>, name: Seq<char>) -> Seq<char> {
    join_path(crofts_dir_spec(home), name)
}

/// The home directory as a path prefix: empty, or ending with a separator.
pub open spec fn home_prefix(home: Option<Seq<char>>) -> Seq<char> {
    let h = home_or_here(home);
    if h.len() == 0 || h.last() == '/' { h } else { h + "/"@ }
}

/// All local crofts live in `.swini/crofts` under the home directory, and
/// the data of a croft whose name is a relative path lies in that
/// directory, one separator below it.
pub proof fn law_data_dir_under_home(home: Option<Seq<char>>, name: Seq<char>)
    ensures
        crofts_dir_spec(home) == home_prefix(home) + ".swini/crofts"@,
        name.len() > 0 && name[0] != '/' ==> default_data_dir_spec(home, name) == crofts_dir_spec(home) + "/"@ + name,
{
    reveal_strlit(".swini");
    reveal_strlit("crofts");
    reveal_strlit("/");
    reveal_strlit(".swini/crofts");
    reveal_strlit(".");
    let h = home_or_here(home);
    let x = join_path(h, ".swini"@);
    if h.len() == 0 {
        assert(x == ".swini"@);
    } else if h.last() == '/' {
        assert(x == h + ".swini"@);
    } else {
        assert(x == h + "/"@ + ".swini"@);
    }
    assert(x.len() > 0 && x.last() == 'i');
    assert(crofts_dir_spec(home) == x + "/"@ + "crofts"@);
    assert(".swini"@ + "/"@ + "crofts"@ =~= ".swini/crofts"@);
    assert(crofts_dir_spec(home) =~= home_prefix(home) + ".swini/crofts"@);
    let c = crofts_dir_spec(home);
    assert(c.len() > 0 && c.last() == 's');
}

/// Text as plain values, when there is some.
pub open spec fn home_view(home: Option<&str>) -> Option<Seq<char>> {
    match home {
        Some(h) => Some(h@),
        None => None,
    }
}

/// The directory that holds all local crofts, given the home directory
/// (`.` when unknown).
pub fn crofts_dir(home: Option<&str>) -> (r: String)
    ensures
        r@ == crofts_dir_spec(home_view(home)),
{
    let h = match home {
        Some(h) => owned(h),
        None => owned("."),
    };
    let swini = join(h.as_str(), ".swini");
    join(swini.as_str(), "crofts")
}

/// The data directory of the croft `name` by default, given the home
/// directory (`.` when unknown).
pub fn default_data_dir(home: Option<&str>, name: &str) -> (r: String)
    ensures
        r@ == default_data_dir_spec(home_view(home), name@),
{
    let dir = crofts_dir(home);
    join(dir.as_str(), name)
}

/// The data directory a configuration ends with: a non-blank
/// `SWINI_DATA_DIR` setting (trimmed) wins; else the directory the
/// configuration file names; else the default one of the croft's name.
pub open spec fn resolved_data_dir(
    home: Option<Seq<char>>,
    name: Seq<char>,
    explicit: Option<Seq<char>>,
    env_dir: Option<Seq<char>>,
) -> Seq<char> {
    if env_dir is Some && trim(env_dir->0).len() > 0 {
        trim(env_dir->0)
    } else {
        match explicit {
            Some(d) => d,
            None => default_data_dir_spec(home, name),
        }
    }
}

/// The environment wins over the configuration file: whenever
/// `SWINI_DATA_DIR` is set to text that is not blank, the data directory is
/// that text trimmed, whatever the file names and whatever the croft's name
/// and home; only without such a setting does the file's `data_dir` count,
/// and only without both the default directory of the croft's name.
pub proof fn law_env_data_dir_wins(
    home: Option<Seq<char>>,
    name: Seq<char>,
    explicit: Option<Seq<char>>,
    env_dir: Option<Seq<char>>,
)
    ensures
        env_dir is Some && trim(env_dir->0).len() > 0 ==> resolved_data_dir(home, name, explicit, env_dir) == trim(
            env_dir->0,
        ),
        env_dir is Some && trim(env_dir->0).len() > 0 ==> forall|other: Option<Seq<char>>|
            #[trigger] resolved_data_dir(home, name, other, env_dir) == resolved_data_dir(home, name, explicit, env_dir),
        !(env_dir is Some && trim(env_dir->0).len() > 0) && explicit is Some ==> resolved_data_dir(
            home,
            name,
            explicit,
            env_dir,
        ) == explicit->0,
        !(env_dir is Some && trim(env_dir->0).len() > 0) && explicit is None ==> resolved_data_dir(
            home,
            name,
            explicit,
            env_dir,
        ) == default_data_dir_spec(home, name),
{
}

/// Decides the data directory of a configuration (see `resolved_data_dir`).
pub fn resolve_data_dir(home: Option<&str>, name: &str, explicit: Option<&str>, env_dir: Option<&str>) -> (r: String)
    ensures
        r@ == resolved_data_dir(home_view(home), name@, home_view(explicit), home_view(env_dir)),
        env_dir is Some && trim(env_dir->0@).len() > 0 ==> r@ == trim(env_dir->0@),
        !(env_dir is Some && trim(env_dir->0@).len() > 0) ==> match explicit {
            Some(d) => r@ == d@,
            None => r@ == default_data_dir_spec(home_view(home), name@),
        },
{
    if let Some(e) = env_dir {
        let t = trim_str(e);
        if !t.as_str().is_empty() {
            return t;
        }
    }
    match explicit {
        Some(d) => owned(d),
        None => default_data_dir(home, name),
    }
}

/// Where the state of the regent `name` may be, in this order: its default
/// data directory, `sandbox/.data/<name>`, `.data/<name>`.
pub fn candidate_data_dirs(home: Option<&str>, name: &str) -> (r: Vec<String>)
    ensures
        r@.len() == 3,
        r@[0]@ == default_data_dir_spec(home_view(home), name@),
        r@[1]@ == join_path("sandbox/.data"@, name@),
        r@[2]@ == join_path(".data"@, name@),
{
    let mut r: Vec<String> = Vec::new();
    r.push(default_data_dir(home, name));
    r.push(join("sandbox/.data", name));
    r.push(join(".data", name));
    r
}

/// The address text a `SWINI_ADDR` setting offers to override the
/// configured address with: the setting trimmed, when it is set and not
/// blank. The override takes effect only when that text parses as a socket
/// address.
pub fn addr_override(setting: Option<&str>) -> (r: Option<String>)
    ensures
        match setting {
            Some(a) => if trim(a@).len() > 0 {
                r matches Some(t) && t@ == trim(a@)
            } else {
                r is None
            },
            None => r is None,
        },
{
    match setting {
        Some(a) => {
            let t = trim_str(a);
            if t.as_str().is_empty() {
                None
            } else {
                Some(t)
            }
        },
        None => None,
    }
}

} // verus!
