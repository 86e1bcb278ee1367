//! Where the daemon keeps its files, and how a user's path is expanded.

use vstd::prelude::*;
use crate::spec::opt_str_chars;
use crate::text::{
    join_path, joined, skip_slashes, slice_chars, starts_with, trim_bounds, trimmed,
};

verus! {

/// The daemon's directories and files.
#[derive(Clone, Debug, PartialEq, Eq)]
pub struct Paths {
    pub state_dir: String,
    pub runtime_dir: String,
    pub sock_path: String,
    pub log_path: String,
    pub current_path: String,
}

/// Mathematical value of the daemon's paths.
pub struct PathsView {
    pub state_dir: Seq<char>,
    pub runtime_dir: Seq<char>,
    pub sock_path: Seq<char>,
    pub log_path: Seq<char>,
    pub current_path: Seq<char>,
}

impl View for Paths {
    type V = PathsView;

    open spec fn view(&self) -> PathsView {
        PathsView {
            state_dir: self.state_dir@,
            runtime_dir: self.runtime_dir@,
            sock_path: self.sock_path@,
            log_path: self.log_path@,
            current_path: self.current_path@,
        }
    }
}

/// The directory under which state is kept: the user's state directory if
/// there is one, else `.local/state` under the home directory.
pub open spec fn state_base_of(state_dir: Option<Seq<char>>, home: Option<Seq<char>>) -> Option<
    Seq<char>,
> {
    match state_dir {
        Some(d) => Some(d),
        None => match home {
            Some(h) => Some(joined(h, ".local/state"@)),
            None => None,
        },
    }
}

/// The daemon's paths for a state base and, where one is set, a runtime
/// directory; without one the state directory stands in.
pub open spec fn paths_of(state_base: Seq<char>, runtime_base: Option<Seq<char>>) -> PathsView {
    let state_dir = joined(state_base, "gesso"@);
    let runtime_dir = joined(
        match runtime_base {
            Some(r) => r,
            None => state_dir,
        },
        "gesso"@,
    );
    PathsView {
        state_dir,
        runtime_dir,
        sock_path: joined(runtime_dir, "ctl.sock"@),
        log_path: joined(state_dir, "gesso.log"@),
        current_path: joined(state_dir, "current.json"@),
    }
}

/// Works out the directory under which state is kept.
pub fn state_base(state_dir: Option<&str>, home: Option<&str>) -> (r: Option<String>)
    ensures
        crate::spec::opt_chars(r) == state_base_of(opt_str_chars(state_dir), opt_str_chars(home)),
{
    match state_dir {
        Some(d) => Some(String::from_str(d)),
        None => match home {
            Some(h) => Some(join_path(h, ".local/state")),
            None => None,
        },
    }
}

/// Works out the daemon's paths.
pub fn paths(state_base: &str, xdg_runtime_dir: Option<&str>) -> (p: Paths)
    ensures
        p@ == paths_of(state_base@, opt_str_chars(xdg_runtime_dir)),
{
    let state_dir = join_path(state_base, "gesso");
    let runtime_dir = match xdg_runtime_dir {
        Some(r) => join_path(r, "gesso"),
        None => join_path(state_dir.as_str(), "gesso"),
    };
    let sock_path = join_path(runtime_dir.as_str(), "ctl.sock");
    let log_path = join_path(state_dir.as_str(), "gesso.log");
    let current_path = join_path(state_dir.as_str(), "current.json");
    Paths { state_dir, runtime_dir, sock_path, log_path, current_path }
}

/// The home directory is needed and not set.
#[derive(Clone, Copy, Debug, PartialEq, Eq, Structural)]
pub struct HomeUnset;

/// What of a trimmed path follows a reference to the home directory: the
/// rest after `~` (alone or before a slash), after `$HOME` or after
/// `${HOME}`; nothing where the path names the home directory in none of
/// these ways.
pub open spec fn home_rest(s: Seq<char>) -> Option<Seq<char>> {
    if s == "~"@ || "~/"@.is_prefix_of(s) {
        Some(s.subrange(1, s.len() as int))
    } else if "$HOME"@.is_prefix_of(s) {
        Some(s.subrange(5, s.len() as int))
    } else if "${HOME}"@.is_prefix_of(s) {
        Some(s.subrange(7, s.len() as int))
    } else {
        None
    }
}

/// The text without the slashes at its start.
pub open spec fn without_leading_slashes(s: Seq<char>) -> Seq<char> {
    s.subrange(skip_slashes(s, 0), s.len() as int)
}

/// A path with its reference to the home directory replaced: the path is
/// trimmed; where it begins with `~`, `~/`, `$HOME` or `${HOME}` the rest,
/// without leading slashes, is joined to the home directory.
pub open spec fn expanded(p: Seq<char>, home: Option<Seq<char>>) -> Result<Seq<char>, HomeUnset> {
    let s = trimmed(p);
    match home_rest(s) {
        None => Ok(s),
        Some(rest) => match home {
            None => Err(HomeUnset),
            Some(h) => Ok(joined(h, without_leading_slashes(rest))),
        },
    }
}

fn join_home(home: Option<&str>, rest: &str) -> (r: Result<String, HomeUnset>)
    ensures
        r is Ok == home is Some,
        r is Ok ==> r.unwrap()@ == joined(home.unwrap()@, without_leading_slashes(rest@)),
{
    match home {
        None => Err(HomeUnset),
        Some(h) => {
            let n = rest.unicode_len();
            let mut i: usize = 0;
            while i < n && rest.get_char(i) == '/'
                invariant
                    i <= n,
                    n == rest@.len(),
                    skip_slashes(rest@, 0) == skip_slashes(rest@, i as int),
                decreases n - i,
            {
                i += 1;
            }
            let tail = slice_chars(rest, i, n);
            Ok(join_path(h, tail.as_str()))
        },
    }
}

/// Expands `~`, `~/`, `$HOME` and `${HOME}` at the start of a path. Other
/// variables, globs and other users' homes are left as they are.
pub fn expand_user_path(p: &str, home: Option<&str>) -> (r: Result<String, HomeUnset>)
    ensures
        match expanded(p@, opt_str_chars(home)) {
            Ok(s) => r is Ok && r.unwrap()@ == s,
            Err(_) => r is Err,
        },
{
    proof {
        reveal_strlit("~");
        reveal_strlit("~/");
        reveal_strlit("$HOME");
        reveal_strlit("${HOME}");
    }
    let (start, end) = trim_bounds(p);
    let s = slice_chars(p, start, end);
    let n = end - start;
    let tilde = starts_with(s.as_str(), "~");
    let is_tilde = tilde && n == 1;
    assert(is_tilde == (s@ == "~"@)) by {
        if is_tilde {
            assert(s@ =~= "~"@);
        }
    }
    if is_tilde || starts_with(s.as_str(), "~/") {
        let rest = slice_chars(s.as_str(), 1, n);
        return join_home(home, rest.as_str());
    }
    if starts_with(s.as_str(), "$HOME") {
        let rest = slice_chars(s.as_str(), 5, n);
        return join_home(home, rest.as_str());
    }
    if starts_with(s.as_str(), "${HOME}") {
        let rest = slice_chars(s.as_str(), 7, n);
        return join_home(home, rest.as_str());
    }
    Ok(s)
}

} // verus!
