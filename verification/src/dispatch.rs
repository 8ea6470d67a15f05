//! The completion dispatcher: from the cursor's argument position, the
//! word being typed and the word before it, decide what one invocation
//! does — offer candidates, fetch the task list, fetch one task's
//! argument descriptions, or run the cache-clearing command.
//!
//! External work is returned as a decision rather than performed: the
//! binary around the library runs the task runner when asked to and hands
//! its output back to [`finish_short_list`] or
//! [`complete_fab_command_args`](crate::tasks::complete_fab_command_args).

use vstd::prelude::*;
use vstd::string::*;
use crate::cache::{clone_lines, spec_get, CacheStore};
use crate::tasks::{parse_task_list, spec_parse_task_list};
use crate::text::str_eq;

verus! {

/// The sentinel completion token: offered among the top-level candidates,
/// and when it stands as the previous word of the second argument
/// position, the dispatcher clears the cache instead of completing.
pub open spec fn clear_token() -> Seq<char> {
    "_cache_clear"@
}

/// The sentinel token as a value.
pub fn cache_clear_token() -> (r: &'static str)
    ensures
        r@ == clear_token(),
{
    "_cache_clear"
}

/// The confirmation marker printed once when the cache-clearing command
/// has run; a human-visible side effect, not a completion candidate.
pub fn cleared_marker() -> (r: &'static str)
    ensures
        r@ == "_CACHE_CLEARED"@,
{
    "_CACHE_CLEARED"
}

/// The fixed namespace that prefixes every derived cache key.
pub fn cache_namespace() -> (r: &'static str)
    ensures
        r@ == "fab_completion"@,
{
    "fab_completion"
}

/// The name of the single cached artifact within one cache directory.
pub fn cache_filename() -> (r: &'static str)
    ensures
        r@ == "tasks"@,
{
    "tasks"
}

/// A completion decision, at the specification level.
pub enum Decision {
    /// Offer these candidates to the shell; no external work is needed.
    Offer { candidates: Seq<Seq<char>> },
    /// The task list must be fetched from the runner's short listing.
    /// When `after_clear` holds, the fetch only repopulates the cache the
    /// clearing command just emptied, and no candidates are owed.
    FetchTaskList { after_clear: bool },
    /// The named task's argument descriptions must be fetched from the
    /// runner's detail output.
    FetchTaskDetail { task: Seq<char> },
}

/// A completion decision, as executable data.  Its view is the
/// [`Decision`] it stands for.
pub enum Outcome {
    /// Offer these candidates; nothing more to do.
    Done { candidates: Vec<String> },
    /// Run the task runner's short listing and hand its output to
    /// [`finish_short_list`].
    RunShortList { after_clear: bool },
    /// Run the task runner's detail query for `task` and hand its output
    /// to [`complete_fab_command_args`](crate::tasks::complete_fab_command_args).
    RunDescribe { task: String },
}

impl View for Outcome {
    type V = Decision;

    open spec fn view(&self) -> Decision {
        match self {
            Outcome::Done { candidates } => Decision::Offer {
                candidates: candidates.deep_view(),
            },
            Outcome::RunShortList { after_clear } => Decision::FetchTaskList {
                after_clear: *after_clear,
            },
            Outcome::RunDescribe { task } => Decision::FetchTaskDetail { task: task@ },
        }
    }
}

/// The dispatcher's decision, keyed on the argument index of the word
/// being completed.  At the top level a hit whose current word already
/// names a task delegates to argument completion; otherwise the cached
/// tasks are offered with the sentinel appended.  At the second position
/// a sentinel as the previous word turns the request into the
/// cache-clearing command.  Beyond it, nothing is offered.
pub open spec fn spec_dispatch(
    index: int,
    cur: Seq<char>,
    prev: Seq<char>,
    cached: Seq<Seq<char>>,
) -> Decision {
    if index == 1 {
        if cached.len() == 0 {
            Decision::FetchTaskList { after_clear: false }
        } else if cached.contains(cur) {
            Decision::FetchTaskDetail { task: cur }
        } else {
            Decision::Offer { candidates: cached.push(clear_token()) }
        }
    } else if index == 2 {
        if prev == clear_token() {
            Decision::FetchTaskList { after_clear: true }
        } else {
            Decision::FetchTaskDetail { task: cur }
        }
    } else {
        Decision::Offer { candidates: Seq::empty() }
    }
}

fn contains_string(v: &Vec<String>, x: &String) -> (r: bool)
    ensures
        r == v.deep_view().contains(x@),
{
    let mut i: usize = 0;
    while i < v.len()
        invariant
            0 <= i <= v@.len(),
            forall|j: int| 0 <= j < i ==> v.deep_view()[j] != x@,
        decreases v@.len() - i,
    {
        if v[i] == *x {
            proof {
                assert(v.deep_view()[i as int] == x@);
            }
            return true;
        }
        i = i + 1;
    }
    proof {
        if v.deep_view().contains(x@) {
            let j = choose|j: int| 0 <= j < v.deep_view().len() && v.deep_view()[j] == x@;
            assert(false);
        }
    }
    false
}

/// The cache read behind top-level completion: the lines cached under
/// `key`, together with whether the task source must be consulted.  An
/// empty cached value is never trusted, so the flag asks the caller to
/// fetch the task list and store it back whenever nothing usable is
/// cached.
pub fn get_cached(store: &CacheStore, key: &String) -> (r: (Vec<String>, bool))
    requires
        store.wf(),
    ensures
        r.0.deep_view() == spec_get(store@, key@),
        r.1 == (spec_get(store@, key@).len() == 0),
{
    let cached = store.get(key);
    let needs_fetch = cached.len() == 0;
    proof {
        assert(cached.deep_view().len() == cached@.len());
    }
    (cached, needs_fetch)
}

/// Dispatches one completion request.  The store is only changed when the
/// request is the cache-clearing command, which removes the entry under
/// `key`; every other request leaves it as it was.
pub fn complete(
    arg_index: usize,
    current_word: &String,
    previous_word: &String,
    store: &mut CacheStore,
    key: &String,
) -> (r: Outcome)
    requires
        arg_index >= 1,
        old(store).wf(),
    ensures
        final(store).wf(),
        final(store)@ == if arg_index == 2 && previous_word@ == clear_token() {
            old(store)@.remove(key@)
        } else {
            old(store)@
        },
        r@ == spec_dispatch(
            arg_index as int,
            current_word@,
            previous_word@,
            spec_get(old(store)@, key@),
        ),
{
    if arg_index == 1 {
        let (cached, needs_fetch) = get_cached(store, key);
        if needs_fetch {
            Outcome::RunShortList { after_clear: false }
        } else if contains_string(&cached, current_word) {
            Outcome::RunDescribe { task: current_word.clone() }
        } else {
            let mut candidates = cached;
            let ghost c0 = candidates.deep_view();
            candidates.push(cache_clear_token().to_owned());
            proof {
                assert(candidates.deep_view() =~= c0.push(clear_token()));
            }
            Outcome::Done { candidates }
        }
    } else if arg_index == 2 {
        if str_eq(previous_word.as_str(), cache_clear_token()) {
            store.clear(key);
            Outcome::RunShortList { after_clear: true }
        } else {
            Outcome::RunDescribe { task: current_word.clone() }
        }
    } else {
        let candidates: Vec<String> = Vec::new();
        proof {
            assert(candidates.deep_view() =~= Seq::<Seq<char>>::empty());
        }
        Outcome::Done { candidates }
    }
}

/// Completes a dispatch that asked for the task list: parses the runner's
/// short listing, stores it under `key`, and returns the candidates owed
/// for the invocation — none when the fetch only repopulated the cache
/// after clearing, otherwise the fresh task list with the sentinel
/// appended.
pub fn finish_short_list(
    store: &mut CacheStore,
    key: &String,
    list_output: &str,
    after_clear: bool,
) -> (r: Vec<String>)
    requires
        old(store).wf(),
    ensures
        final(store).wf(),
        final(store)@ == old(store)@.insert(key@, spec_parse_task_list(list_output@)),
        r.deep_view() == if after_clear {
            Seq::<Seq<char>>::empty()
        } else {
            spec_parse_task_list(list_output@).push(clear_token())
        },
{
    let tasks = parse_task_list(list_output);
    if after_clear {
        store.set(key, tasks);
        let r: Vec<String> = Vec::new();
        proof {
            assert(r.deep_view() =~= Seq::<Seq<char>>::empty());
        }
        r
    } else {
        let mut candidates = clone_lines(&tasks);
        store.set(key, tasks);
        let ghost c0 = candidates.deep_view();
        candidates.push(cache_clear_token().to_owned());
        proof {
            assert(candidates.deep_view() =~= c0.push(clear_token()));
        }
        candidates
    }
}

/// A cache hit suppresses recomputation: whenever a non-empty task list
/// is already cached, a top-level completion request never decides to
/// fetch the task list again.  When the current word names no cached
/// task, the request offers the cached tasks (with the sentinel appended)
/// outright, asking for no external work at all.
pub proof fn lemma_cache_hit_suppresses_fetch(cur: Seq<char>, prev: Seq<char>, cached: Seq<Seq<char>>)
    requires
        cached.len() > 0,
    ensures
        !(spec_dispatch(1, cur, prev, cached) is FetchTaskList),
        !cached.contains(cur) ==> spec_dispatch(1, cur, prev, cached) == (Decision::Offer {
            candidates: cached.push(clear_token()),
        }),
{
}

} // verus!
