//! Watching sources, and the exit codes of runs.

use crate::text::{decimal, decimal_string, ends_with, has_suffix, same};
use vstd::prelude::*;
use vstd::string::*;

verus! {

/// A file, and when it was changed last.
#[derive(Debug)]
pub struct WatchedFile {
    pub name: String,
    pub modified: Option<u64>,
}

/// A change of a file of this name asks for a new build.
pub open spec fn is_watched(name: Seq<char>) -> bool {
    ends_with(name, ".cute"@) || name == "cute.toml"@
}

/// The latest change of the first `n` files.
pub open spec fn latest_change(v: Seq<WatchedFile>, n: int) -> u64
    decreases n,
{
    if n <= 0 {
        0
    } else {
        let before = latest_change(v, n - 1);
        match v[n - 1].modified {
            Some(t) => if is_watched(v[n - 1].name@) && t > before {
                t
            } else {
                before
            },
            None => before,
        }
    }
}

/// Whether a change of a file of this name asks for a new build.
pub fn watches(name: &str) -> (r: bool)
    ensures
        r == is_watched(name@),
{
    has_suffix(name, ".cute") || same(name, "cute.toml")
}

/// The latest change of the files that are watched.
pub fn collect_max_mtime(files: &Vec<WatchedFile>) -> (r: u64)
    ensures
        r == latest_change(files@, files@.len() as int),
{
    let mut max: u64 = 0;
    let mut i: usize = 0;
    while i < files.len()
        invariant
            i <= files@.len(),
            max == latest_change(files@, i as int),
        decreases files@.len() - i,
    {
        match files[i].modified {
            Some(t) => {
                if watches(files[i].name.as_str()) && t > max {
                    max = t;
                }
            },
            None => {},
        }
        i += 1;
    }
    max
}

/// What is watched: the latest change that was built, and whether the program
/// is running.
#[derive(Debug, Clone, Copy, PartialEq, Eq, Structural)]
pub struct Watch {
    pub last: u64,
    pub running: bool,
}

/// What to do after a look at the files.
#[derive(Debug, Clone, Copy, PartialEq, Eq, Structural)]
pub enum WatchAction {
    Wait,
    /// Build anew; stop the program before that, where `stop` holds.
    Rebuild { stop: bool },
}

impl Watch {
    /// The state after a look at the files: `exited` says that the program has
    /// ended, and `latest` is the latest change.
    pub fn look(self, exited: bool, latest: u64) -> (r: (Watch, WatchAction))
        ensures
            latest <= self.last ==> r == (
                (Watch { last: self.last, running: self.running && !exited }),
                WatchAction::Wait,
            ),
            latest > self.last ==> r == (
                (Watch { last: latest, running: false }),
                (WatchAction::Rebuild { stop: self.running && !exited }),
            ),
    {
        let running = self.running && !exited;
        if latest > self.last {
            (Watch { last: latest, running: false }, WatchAction::Rebuild { stop: running })
        } else {
            (Watch { last: self.last, running }, WatchAction::Wait)
        }
    }

    /// The state after a build.
    pub fn built(self, launched: bool) -> (r: Watch)
        ensures
            r == (Watch { last: self.last, running: launched }),
    {
        Watch { last: self.last, running: launched }
    }
}

// ---- exit codes -----------------------------------------------------------------------

/// The exit code of a test run: that of the program, where it has one that
/// fits.
pub fn exit_code(status: Option<i32>) -> (r: u8)
    ensures
        r == match status {
            Some(c) => if 0 <= c <= 255 {
                c as u8
            } else {
                1
            },
            None => 1,
        },
{
    match status {
        Some(c) => if c >= 0 && c <= 255 {
            c as u8
        } else {
            1
        },
        None => 1,
    }
}

/// How many errors there are, in words; nothing where there is none.
pub fn error_summary(errors: u64) -> (r: Option<String>)
    ensures
        match r {
            Some(s) => errors > 0 && s@ == decimal(errors as nat) + (if errors == 1 {
                " error"@
            } else {
                " errors"@
            }),
            None => errors == 0,
        },
{
    if errors == 0 {
        None
    } else if errors == 1 {
        Some(decimal_string(errors).concat(" error"))
    } else {
        Some(decimal_string(errors).concat(" errors"))
    }
}

/// What to do with a source and its formatted text.
#[derive(Debug, Clone, Copy, PartialEq, Eq, Structural)]
pub enum FmtAction {
    Keep,
    Complain,
    Write,
}

/// A source that is formatted is left alone. Of another one `check` only says
/// so.
pub fn fmt_action(check: bool, source: &str, formatted: &str) -> (r: FmtAction)
    ensures
        r == if source@ == formatted@ {
            FmtAction::Keep
        } else if check {
            FmtAction::Complain
        } else {
            FmtAction::Write
        },
{
    if same(source, formatted) {
        FmtAction::Keep
    } else if check {
        FmtAction::Complain
    } else {
        FmtAction::Write
    }
}

// ---- laws ---------------------------------------------------------------------------

/// The latest change is one of a file that is watched, or there is none; and
/// no file that is watched was changed later.
pub proof fn law_latest_change(v: Seq<WatchedFile>, n: int)
    requires
        0 <= n <= v.len(),
    ensures
        forall|i: int|
            0 <= i < n && is_watched((#[trigger] v[i]).name@) && v[i].modified is Some
                ==> v[i].modified->0 <= latest_change(v, n),
        latest_change(v, n) == 0 || exists|i: int|
            0 <= i < n && is_watched((#[trigger] v[i]).name@) && v[i].modified == Some(
                latest_change(v, n),
            ),
    decreases n,
{
    if n > 0 {
        law_latest_change(v, n - 1);
        let before = latest_change(v, n - 1);
        let now = latest_change(v, n);
        if now == before {
            if before != 0 {
                let i = choose|i: int|
                    0 <= i < n - 1 && is_watched((#[trigger] v[i]).name@) && v[i].modified == Some(
                        before,
                    );
                assert(is_watched(v[i].name@) && v[i].modified == Some(now));
            }
        } else {
            assert(is_watched(v[n - 1].name@) && v[n - 1].modified == Some(now));
        }
    }
}

} // verus!
