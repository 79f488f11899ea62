//! The operations on a store that the front ends offer: create, list, get,
//! complete, delete, set a priority, search.
//!
//! Each operation works on a store that the caller has loaded and, where
//! the operation changed it, saves again.

use vstd::prelude::*;
use vstd::string::StringExecFns;

use crate::priority::level_of;
use crate::priority::priority_of;
use crate::priority::Priority;
use crate::store::has_id;
use crate::store::index_of;
use crate::store::views;
use crate::store::OpenTask;
use crate::store::OpenTaskView;
use crate::store::Store;
use crate::time::timestamp_text;

pub use self::tools::TaskInfo;
pub use self::tools::types::TaskInfoView;

pub mod tools;

verus! {

/// `text` without the whitespace at its start and at its end, as `str::trim`
/// of the standard library gives it. Whitespace is what Unicode calls so.
pub uninterp spec fn trimmed(text: Seq<char>) -> Seq<char>;

/// `text` in lower case, as `str::to_lowercase` of the standard library
/// gives it, by the rules of Unicode.
pub uninterp spec fn lowercased(text: Seq<char>) -> Seq<char>;

/// Whether `part` occurs in `text` as one piece.
pub open spec fn contains_text(text: Seq<char>, part: Seq<char>) -> bool {
    exists|at: int|
        0 <= at && at + part.len() <= text.len() && #[trigger] text.subrange(
            at,
            at + part.len(),
        ) == part
}

/// Calls `str::trim` of the standard library.
///
/// Trusted: the result is what [`trimmed`] names.
#[verifier::external_body]
fn trim<'a>(text: &'a str) -> (part: &'a str)
    ensures
        part@ == trimmed(text@),
{
    text.trim()
}

/// Calls `str::to_lowercase` of the standard library.
///
/// Trusted: the result is what [`lowercased`] names.
#[verifier::external_body]
fn to_lowercase(text: &str) -> (lower: String)
    ensures
        lower@ == lowercased(text@),
{
    text.to_lowercase()
}

/// Calls `str::contains` of the standard library with a string as the
/// pattern.
///
/// Trusted: the answer is yes exactly if `part` occurs in `text` as one
/// piece, which it does at the very start if it is empty.
#[verifier::external_body]
fn contains(text: &str, part: &str) -> (found: bool)
    ensures
        found == contains_text(text@, part@),
{
    text.contains(part)
}

/// Why an operation was turned down. Both are faults of the request, none
/// of the store.
#[derive(Debug, Clone, Copy, PartialEq, Eq)]
pub enum Error {
    /// The request names a priority that is none of the levels.
    InvalidPriority(crate::priority::Error<u8>),
    /// No task has the identifier that the request names.
    NotFound(usize),
}

/// The filter that a request gives, made ready for use: trimmed and in lower
/// case, and no filter at all where nothing but whitespace was given.
pub open spec fn normalized(input: Option<Seq<char>>) -> Option<Seq<char>> {
    match input {
        Some(value) => if trimmed(value).len() == 0 {
            None
        } else {
            Some(lowercased(trimmed(value)))
        },
        None => None,
    }
}

/// What a front end shows of `task`.
pub open spec fn info_of(task: OpenTaskView) -> TaskInfoView {
    TaskInfoView {
        id: task.id,
        description: task.task.description,
        priority: level_of(task.task.priority),
        created: timestamp_text(task.task.created.seconds(), task.task.created.subsec_nanos()),
        completed: match task.task.completed {
            Some(when) => Some(timestamp_text(when.seconds(), when.subsec_nanos())),
            None => None,
        },
        is_completed: task.task.completed is Some,
    }
}

/// Whether `task` passes the filter and has the priority asked for.
///
/// With `keywords` the filters `active` and `completed` ask for the state of
/// the task. Every other filter asks for a text that the description holds,
/// whatever the case of its letters.
pub open spec fn passes(
    task: OpenTaskView,
    filter: Option<Seq<char>>,
    keywords: bool,
    priority: Option<Priority>,
) -> bool {
    &&& match filter {
        Some(text) => if keywords && text == "active"@ {
            task.task.completed is None
        } else if keywords && text == "completed"@ {
            task.task.completed is Some
        } else {
            contains_text(lowercased(task.task.description), text)
        },
        None => true,
    }
    &&& match priority {
        Some(p) => task.task.priority == Some(p),
        None => true,
    }
}

/// The tasks of `tasks` that pass, in their order.
pub open spec fn selected(
    tasks: Seq<OpenTaskView>,
    filter: Option<Seq<char>>,
    keywords: bool,
    priority: Option<Priority>,
) -> Seq<OpenTaskView>
    decreases tasks.len(),
{
    if tasks.len() == 0 {
        Seq::empty()
    } else {
        let before = selected(tasks.drop_last(), filter, keywords, priority);
        if passes(tasks.last(), filter, keywords, priority) {
            before.push(tasks.last())
        } else {
            before
        }
    }
}

/// What a front end shows of each of `tasks`, in order.
pub open spec fn infos_of(tasks: Seq<OpenTaskView>) -> Seq<TaskInfoView> {
    Seq::new(tasks.len(), |i: int| info_of(tasks[i]))
}

/// The views of `infos`, in order.
pub open spec fn info_views(infos: Seq<TaskInfo>) -> Seq<TaskInfoView> {
    Seq::new(infos.len(), |i: int| infos[i]@)
}

/// The view of an optional string.
pub open spec fn text_view(text: Option<String>) -> Option<Seq<char>> {
    match text {
        Some(t) => Some(t@),
        None => None,
    }
}

/// Reads the priority of a request: no priority where none was given, the
/// priority of the level that was given, and an error for a level that is
/// none.
pub fn parse_priority(input: Option<u8>) -> (parsed: Result<Option<Priority>, Error>)
    ensures
        match priority_of(input) {
            Ok(priority) => parsed == Ok::<Option<Priority>, Error>(priority),
            Err(e) => parsed == Err::<Option<Priority>, Error>(Error::InvalidPriority(e)),
        },
{
    match input {
        Some(value) => match Priority::try_from(value) {
            Ok(priority) => Ok(Some(priority)),
            Err(e) => Err(Error::InvalidPriority(e)),
        },
        None => Ok(None),
    }
}

/// Makes the filter of a request ready for use: trimmed and in lower case.
/// A filter of nothing but whitespace is no filter.
pub fn normalize_filter(input: Option<&String>) -> (filter: Option<String>)
    ensures
        text_view(filter) == normalized(
            match input {
                Some(value) => Some(value@),
                None => None,
            },
        ),
{
    match input {
        Some(value) => {
            let part = trim(value.as_str());
            if part.is_empty() {
                None
            } else {
                Some(to_lowercase(part))
            }
        },
        None => None,
    }
}

/// What a front end shows of `task`.
pub fn to_task_info(task: &OpenTask) -> (info: TaskInfo)
    ensures
        info@ == info_of(task@),
{
    let inner = task.task();
    TaskInfo {
        id: task.id(),
        description: inner.description().clone(),
        priority: match inner.priority() {
            Some(p) => Some(u8::from(p)),
            None => None,
        },
        created: inner.created().to_string(),
        completed: match inner.completed() {
            Some(when) => Some(when.to_string()),
            None => None,
        },
        is_completed: inner.is_completed(),
    }
}

/// Whether `task` passes the filter and has the priority asked for.
pub fn is_selected(
    task: &OpenTask,
    filter: &Option<String>,
    keywords: bool,
    priority: Option<Priority>,
) -> (pass: bool)
    ensures
        pass == passes(task@, text_view(*filter), keywords, priority),
{
    let inner = task.task();
    match filter {
        Some(text) => {
            let active = String::from_str("active");
            let completed = String::from_str("completed");
            if keywords && *text == active {
                if inner.is_completed() {
                    return false;
                }
            } else if keywords && *text == completed {
                if !inner.is_completed() {
                    return false;
                }
            } else {
                let lower = to_lowercase(inner.description().as_str());
                if !contains(lower.as_str(), text.as_str()) {
                    return false;
                }
            }
        },
        None => {},
    }
    match priority {
        Some(wanted) => match inner.priority() {
            Some(has) => has == wanted,
            None => false,
        },
        None => true,
    }
}

/// What a front end shows of the tasks of `store` that pass the filter and
/// have the priority asked for, in the order of the store.
pub fn select(
    store: &Store,
    filter: &Option<String>,
    keywords: bool,
    priority: Option<Priority>,
) -> (infos: Vec<TaskInfo>)
    ensures
        info_views(infos@) == infos_of(selected(store@, text_view(*filter), keywords, priority)),
{
    let tasks = store.as_slice();
    let ghost all = store@;
    let ghost rule = text_view(*filter);
    let mut infos: Vec<TaskInfo> = Vec::new();
    let mut i: usize = 0;
    assert(all.take(0) =~= Seq::<OpenTaskView>::empty());
    assert(info_views(infos@) =~= infos_of(selected(all.take(0), rule, keywords, priority)));
    while i < tasks.len()
        invariant
            i <= tasks.len(),
            all == views(tasks@),
            all.len() == tasks@.len(),
            rule == text_view(*filter),
            info_views(infos@) == infos_of(selected(all.take(i as int), rule, keywords, priority)),
        decreases tasks.len() - i,
    {
        let task = &tasks[i];
        let ghost chosen = selected(all.take(i as int), rule, keywords, priority);
        let ghost before = info_views(infos@);
        proof {
            assert(all[i as int] == task@);
            assert(all.take(i + 1).drop_last() =~= all.take(i as int));
            assert(all.take(i + 1).last() == task@);
        }
        if is_selected(task, filter, keywords, priority) {
            infos.push(to_task_info(task));
            proof {
                let after = info_views(infos@);
                let wanted = infos_of(chosen.push(task@));
                assert(before.len() == infos_of(chosen).len());
                assert(infos_of(chosen).len() == chosen.len());
                assert(after.len() == infos@.len());
                assert(wanted.len() == chosen.len() + 1);
                assert(after.len() == wanted.len());
                assert forall|k: int| 0 <= k < after.len() implies after[k] == wanted[k] by {
                    if k < before.len() {
                        assert(after[k] == before[k]);
                        assert(before[k] == infos_of(chosen)[k]);
                    }
                }
                assert(after =~= wanted);
            }
        }
        i += 1;
    }
    assert(all.take(i as int) =~= all);
    infos
}

/// The task with the identifier `id`, to be changed, or the error that
/// says that there is none.
pub fn find_mut(store: &mut Store, id: usize) -> (found: Result<&mut crate::task::Task, Error>)
    ensures
        match found {
            Ok(task) => {
                &&& has_id(old(store)@, id)
                &&& task@ == old(store)@[index_of(old(store)@, id)].task
                &&& final(store)@ == old(store)@.update(
                    index_of(old(store)@, id),
                    OpenTaskView { id, task: final(task)@ },
                )
            },
            Err(e) => e == Error::NotFound(id) && !has_id(old(store)@, id) && final(store)@ == old(store)@,
        },
{
    match store.get_mut(id) {
        Some(task) => Ok(task),
        None => Err(Error::NotFound(id)),
    }
}

} // verus!
