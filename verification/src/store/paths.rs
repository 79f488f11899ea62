//! Where the tasks are kept: the data directory and the tasks file in it.
//!
//! Nothing here looks at the environment or touches the disk. The caller
//! hands in what it found there and creates what is returned.

use vstd::prelude::*;
use vstd::string::StrSliceExecFns;
use vstd::string::StringExecFns;

verus! {

/// The name of the tasks file.
pub const OPEN_TASKS_FILE: &'static str = "open_tasks.ndjson";

/// The name of the directory that the tasks file stands in by default,
/// below the data directory of the platform.
pub const APPLICATION_NAME: &'static str = "rustwarrior";

/// The path of the entry `name` in the directory `dir`: the two are put
/// together with one `/` between them, unless `dir` is empty or ends in one.
pub open spec fn joined(dir: Seq<char>, name: Seq<char>) -> Seq<char> {
    if dir.len() == 0 {
        name
    } else if dir.last() == '/' {
        dir + name
    } else {
        dir + seq!['/'] + name
    }
}

/// The data directory, given the directory that the user asked for, if any,
/// and the data directory of the platform, if it has one.
pub open spec fn data_dir_of(custom_dir: Option<Seq<char>>, platform_dir: Option<Seq<char>>)
    -> Option<Seq<char>> {
    match (custom_dir, platform_dir) {
        (Some(custom), _) => Some(custom),
        (None, Some(platform)) => Some(joined(platform, APPLICATION_NAME@)),
        (None, None) => None,
    }
}

/// The path of the entry `name` in the directory `dir`.
#[must_use]
pub fn join(dir: &str, name: &str) -> (path: String)
    ensures
        path@ == joined(dir@, name@),
{
    let len = dir.unicode_len();
    let mut path = String::from_str(dir);
    if len > 0 && dir.get_char(len - 1) != '/' {
        proof {
            reveal_strlit("/");
            assert("/"@ =~= seq!['/']);
        }
        path.append("/");
    }
    path.append(name);
    proof {
        if len == 0 {
            assert(dir@ + name@ =~= name@);
        }
    }
    path
}

/// Get the data directory for storing tasks.
///
/// A directory that the user asked for is taken as it is. Otherwise the
/// tasks are kept in their own directory below the data directory of the
/// platform, and there is no data directory where the platform has none.
#[must_use]
pub fn get_data_dir(custom_dir: Option<&str>, platform_dir: Option<&str>) -> (dir: Option<String>)
    ensures
        match data_dir_of(
            match custom_dir {
                Some(c) => Some(c@),
                None => None,
            },
            match platform_dir {
                Some(p) => Some(p@),
                None => None,
            },
        ) {
            Some(expected) => dir matches Some(d) && d@ == expected,
            None => dir is None,
        },
{
    match custom_dir {
        Some(custom) => Some(String::from_str(custom)),
        None => match platform_dir {
            Some(platform) => Some(join(platform, APPLICATION_NAME)),
            None => None,
        },
    }
}

/// Get the full path to the tasks file in the data directory `data_dir`.
#[must_use]
pub fn get_tasks_file(data_dir: &str) -> (file: String)
    ensures
        file@ == joined(data_dir@, OPEN_TASKS_FILE@),
{
    join(data_dir, OPEN_TASKS_FILE)
}

} // verus!
