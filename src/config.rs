//! Run-wide configuration and the names derived from it: remote script
//! URLs, staged script paths, scratch directories and payload files.

use crate::script::{trim, trimmed_range};
use vstd::prelude::*;

verus! {

/// The repository used when no override file is present.
pub const DEFAULT_REPO: &'static str = "https://raw.githubusercontent.com/irfancahhyo11/packages/main/";

/// The override file, looked up in the working directory.
pub const REPO_FILE: &'static str = "repo.rlpmrepo";

/// Where staged scripts and scratch directories live.
pub const STAGING_DIR: &'static str = "C:/rlpm/sspm";

/// The two script extensions, tried in this order.
#[derive(Clone, Copy, Debug, PartialEq, Eq, Structural)]
pub enum ScriptExt {
    Sspm,
    Rlpm,
}

pub open spec fn ext_text(e: ScriptExt) -> Seq<char> {
    match e {
        ScriptExt::Sspm => seq!['s', 's', 'p', 'm'],
        ScriptExt::Rlpm => seq!['r', 'l', 'p', 'm'],
    }
}

impl ScriptExt {
    pub fn as_str(&self) -> (r: &'static str)
        ensures
            r@ == ext_text(*self),
    {
        proof {
            reveal_strlit("sspm");
            reveal_strlit("rlpm");
        }
        match self {
            ScriptExt::Sspm => "sspm",
            ScriptExt::Rlpm => "rlpm",
        }
    }
}

/// `s` without its trailing `/` characters.
pub open spec fn strip_slashes(s: Seq<char>) -> Seq<char>
    decreases s.len(),
{
    if s.len() > 0 && s.last() == '/' {
        strip_slashes(s.drop_last())
    } else {
        s
    }
}

/// `<base>/<package>.<ext>`, the base's trailing slashes dropped.
pub open spec fn script_url_of(base: Seq<char>, package: Seq<char>, e: ScriptExt) -> Seq<char> {
    strip_slashes(base) + seq!['/'] + package + seq!['.'] + ext_text(e)
}

/// `<dir>/<package>.<ext>`.
pub open spec fn script_file_of(dir: Seq<char>, package: Seq<char>, e: ScriptExt) -> Seq<char> {
    dir + seq!['/'] + package + seq!['.'] + ext_text(e)
}

/// `<dir>/<package>-src`.
pub open spec fn scratch_dir_of(dir: Seq<char>, package: Seq<char>) -> Seq<char> {
    dir + seq!['/'] + package + seq!['-', 's', 'r', 'c']
}

pub open spec fn fallback_name() -> Seq<char> {
    seq!['d', 'o', 'w', 'n', 'l', 'o', 'a', 'd', 'e', 'd']
}

/// The last `/`-separated segment of a source URL, or `downloaded` when the
/// URL has no `/` or ends with one.
pub open spec fn payload_name_of(source: Seq<char>) -> Seq<char>
    decreases source.len(),
{
    if source.len() == 0 {
        fallback_name()
    } else if source.last() == '/' {
        fallback_name()
    } else if !source.contains('/') {
        fallback_name()
    } else {
        last_segment(source)
    }
}

pub open spec fn last_segment(s: Seq<char>) -> Seq<char>
    decreases s.len(),
{
    if s.len() == 0 || s.last() == '/' {
        seq![]
    } else {
        last_segment(s.drop_last()).push(s.last())
    }
}

/// Process-wide settings, fixed once at startup.
#[derive(Debug)]
pub struct Config {
    pub repo_base: String,
    pub staging_dir: String,
}

impl Config {
    /// The repository is the trimmed override text when there is one, else
    /// the built-in default, likewise trimmed.
    pub fn new(repo_override: Option<&str>, staging_dir: &str) -> (r: Config)
        ensures
            r.repo_base@ == trim(
                match repo_override {
                    Some(t) => t@,
                    None => DEFAULT_REPO@,
                },
            ),
            r.staging_dir@ == staging_dir@,
    {
        let text = match repo_override {
            Some(t) => t,
            None => DEFAULT_REPO,
        };
        let n = text.unicode_len();
        proof {
            assert(text@.subrange(0, n as int) =~= text@);
        }
        Config { repo_base: trimmed_range(text, 0, n), staging_dir: String::from_str(staging_dir) }
    }
}

/// `<a><b>`.
fn join2(a: &str, b: &str) -> (r: String)
    ensures
        r@ == a@ + b@,
{
    let mut r = String::from_str(a);
    r.append(b);
    r
}

/// The URL of a package's script on the repository.
pub fn script_url(base: &str, package: &str, e: ScriptExt) -> (r: String)
    ensures
        r@ == script_url_of(base@, package@, e),
{
    let mut j = base.unicode_len();
    proof {
        assert(base@.take(j as int) =~= base@);
    }
    while j > 0 && base.get_char(j - 1) == '/'
        invariant
            j <= base@.len(),
            strip_slashes(base@) == strip_slashes(base@.take(j as int)),
        decreases j,
    {
        assert(base@.take(j as int).drop_last() =~= base@.take(j - 1));
        j = j - 1;
    }
    let mut r = String::from_str(base.substring_char(0, j));
    proof {
        assert(base@.subrange(0, j as int) =~= base@.take(j as int));
        reveal_strlit("/");
        reveal_strlit(".");
    }
    r.append("/");
    r.append(package);
    r.append(".");
    r.append(e.as_str());
    proof {
        assert(r@ =~= script_url_of(base@, package@, e));
    }
    r
}

/// The path of a package's script in a directory.
pub fn script_file(dir: &str, package: &str, e: ScriptExt) -> (r: String)
    ensures
        r@ == script_file_of(dir@, package@, e),
{
    proof {
        reveal_strlit("/");
        reveal_strlit(".");
    }
    let mut r = join2(dir, "/");
    r.append(package);
    r.append(".");
    r.append(e.as_str());
    proof {
        assert(r@ =~= script_file_of(dir@, package@, e));
    }
    r
}

/// The scratch directory of a package.
pub fn scratch_dir(dir: &str, package: &str) -> (r: String)
    ensures
        r@ == scratch_dir_of(dir@, package@),
{
    proof {
        reveal_strlit("/");
        reveal_strlit("-src");
    }
    let mut r = join2(dir, "/");
    r.append(package);
    r.append("-src");
    proof {
        assert(r@ =~= scratch_dir_of(dir@, package@));
    }
    r
}

/// The file name the payload is saved under.
pub fn payload_name(source: &str) -> (r: String)
    ensures
        r@ == payload_name_of(source@),
{
    let n = source.unicode_len();
    proof {
        reveal_strlit("downloaded");
        assert("downloaded"@ =~= fallback_name());
    }
    if n == 0 || source.get_char(n - 1) == '/' {
        return String::from_str("downloaded");
    }
    let mut j = n;
    proof {
        assert(source@.take(j as int) =~= source@);
    }
    while j > 0 && source.get_char(j - 1) != '/'
        invariant
            j <= n == source@.len(),
            source@[n - 1] != '/',
            forall|m: int| j <= m < n ==> source@[m] != '/',
            last_segment(source@) == last_segment(source@.take(j as int)) + source@.subrange(
                j as int,
                n as int,
            ),
        decreases j,
    {
        proof {
            let t = source@.take(j as int);
            assert(t.drop_last() =~= source@.take(j - 1));
            assert(source@.subrange(j - 1, n as int) =~= seq![t.last()] + source@.subrange(
                j as int,
                n as int,
            ));
            assert(last_segment(t) == last_segment(t.drop_last()).push(t.last()));
            assert(last_segment(t.drop_last()).push(t.last()) + source@.subrange(j as int, n as int)
                =~= last_segment(t.drop_last()) + source@.subrange(j - 1, n as int));
        }
        j = j - 1;
    }
    if j == 0 {
        proof {
            assert(!source@.contains('/'));
        }
        return String::from_str("downloaded");
    }
    proof {
        assert(source@.contains('/')) by {
            assert(source@[j - 1] == '/');
        }
        assert(last_segment(source@.take(j as int)) =~= seq![]);
        assert(source@.subrange(j as int, n as int) =~= seq![] + source@.subrange(j as int, n as int));
    }
    String::from_str(source.substring_char(j, n))
}

/// The path of the payload inside the scratch directory.
pub fn payload_path(scratch: &str, name: &str) -> (r: String)
    ensures
        r@ == scratch@ + seq!['/'] + name@,
{
    proof {
        reveal_strlit("/");
    }
    let mut r = join2(scratch, "/");
    r.append(name);
    r
}

} // verus!
