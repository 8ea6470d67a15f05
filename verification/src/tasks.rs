//! Parsers for the task runner's text output: the short task listing and
//! the per-task detail output.  The runner itself is invoked by the binary
//! around the library; what it printed is handed in here as a string.

use vstd::prelude::*;
use vstd::string::*;
use crate::text::{replace_spec, replace_str, split_lines, split_lines_spec, trim, trim_spec};

verus! {

/// The label in the task runner's detail output that announces a task's
/// argument list.
pub open spec fn arguments_label() -> Seq<char> {
    "Arguments: "@
}

/// Each line of `lines` from position `i` on, trimmed of surrounding
/// whitespace; blank lines are kept.
pub open spec fn spec_trimmed_from(lines: Seq<Seq<char>>, i: int) -> Seq<Seq<char>>
    decreases lines.len() - i,
    when 0 <= i
{
    if i >= lines.len() {
        Seq::empty()
    } else {
        seq![trim_spec(lines[i])] + spec_trimmed_from(lines, i + 1)
    }
}

/// What the runner's short listing parses to: the output split into lines
/// and each line trimmed, with nothing filtered out.  An empty or
/// unusable listing so parses to an empty (and therefore untrusted) task
/// list.
pub open spec fn spec_parse_task_list(s: Seq<char>) -> Seq<Seq<char>> {
    spec_trimmed_from(split_lines_spec(s), 0)
}

/// The argument-description lines for `task` among `lines`, from position
/// `i` on: each line trimmed, blank lines dropped, and the arguments
/// label rewritten to the task's own name followed by a colon.
pub open spec fn spec_args_from(lines: Seq<Seq<char>>, task: Seq<char>, i: int) -> Seq<Seq<char>>
    decreases lines.len() - i,
    when 0 <= i
{
    if i >= lines.len() {
        Seq::empty()
    } else {
        let t = trim_spec(lines[i]);
        let rest = spec_args_from(lines, task, i + 1);
        if t.len() == 0 {
            rest
        } else {
            seq![replace_spec(t, arguments_label(), task + seq![':'])] + rest
        }
    }
}

/// What the runner's detail output for `task` parses to: the three fixed
/// header lines are skipped, the remainder is trimmed line by line, blank
/// lines are dropped, and the arguments label becomes `<task>:`.
pub open spec fn spec_parse_task_args(s: Seq<char>, task: Seq<char>) -> Seq<Seq<char>> {
    spec_args_from(split_lines_spec(s), task, 3)
}

/// Parses the runner's short listing, as [`spec_parse_task_list`]
/// describes.
pub fn parse_task_list(s: &str) -> (r: Vec<String>)
    ensures
        r.deep_view() == spec_parse_task_list(s@),
{
    let lines = split_lines(s);
    let ghost ldv = lines.deep_view();
    let mut r: Vec<String> = Vec::new();
    let mut i: usize = 0;
    proof {
        assert(Seq::<Seq<char>>::empty() + spec_trimmed_from(ldv, 0) =~= spec_trimmed_from(
            ldv,
            0,
        ));
        assert(r.deep_view() =~= Seq::<Seq<char>>::empty());
    }
    while i < lines.len()
        invariant
            0 <= i <= lines@.len(),
            ldv == lines.deep_view(),
            ldv == split_lines_spec(s@),
            spec_parse_task_list(s@) == r.deep_view() + spec_trimmed_from(ldv, i as int),
        decreases lines@.len() - i,
    {
        let ghost r0 = r.deep_view();
        let t = trim(lines[i].as_str());
        r.push(t);
        proof {
            assert(ldv[i as int] == lines@[i as int]@);
            assert(r.deep_view() =~= r0.push(trim_spec(ldv[i as int])));
            assert(r0 + spec_trimmed_from(ldv, i as int) =~= r.deep_view() + spec_trimmed_from(
                ldv,
                i + 1,
            ));
        }
        i = i + 1;
    }
    proof {
        assert(spec_trimmed_from(ldv, ldv.len() as int) == Seq::<Seq<char>>::empty());
        assert(r.deep_view() + Seq::<Seq<char>>::empty() =~= r.deep_view());
    }
    r
}

/// Parses the runner's detail output for `task`, as
/// [`spec_parse_task_args`] describes.
pub fn parse_task_args(s: &str, task: &String) -> (r: Vec<String>)
    ensures
        r.deep_view() == spec_parse_task_args(s@, task@),
{
    let lines = split_lines(s);
    let ghost ldv = lines.deep_view();
    let rep = task.clone().concat(":");
    proof {
        reveal_strlit(":");
        assert(rep@ =~= task@ + seq![':']);
    }
    let mut r: Vec<String> = Vec::new();
    let mut i: usize = 3;
    proof {
        assert(Seq::<Seq<char>>::empty() + spec_args_from(ldv, task@, 3) =~= spec_args_from(
            ldv,
            task@,
            3,
        ));
        assert(r.deep_view() =~= Seq::<Seq<char>>::empty());
    }
    while i < lines.len()
        invariant
            3 <= i,
            ldv == lines.deep_view(),
            ldv == split_lines_spec(s@),
            rep@ == task@ + seq![':'],
            spec_parse_task_args(s@, task@) == r.deep_view() + spec_args_from(
                ldv,
                task@,
                i as int,
            ),
        decreases lines@.len() - i,
    {
        let t = trim(lines[i].as_str());
        proof {
            assert(ldv[i as int] == lines@[i as int]@);
        }
        if t.unicode_len() > 0 {
            let ghost r0 = r.deep_view();
            proof {
                reveal_strlit("Arguments: ");
            }
            let rewritten = replace_str(t.as_str(), "Arguments: ", rep.as_str());
            r.push(rewritten);
            proof {
                assert(r.deep_view() =~= r0.push(
                    replace_spec(trim_spec(ldv[i as int]), arguments_label(), task@ + seq![':']),
                ));
                assert(r0 + spec_args_from(ldv, task@, i as int) =~= r.deep_view()
                    + spec_args_from(ldv, task@, i + 1));
            }
        } else {
            proof {
                assert(trim_spec(ldv[i as int]).len() == 0);
                assert(spec_args_from(ldv, task@, i as int) == spec_args_from(
                    ldv,
                    task@,
                    i + 1,
                ));
            }
        }
        i = i + 1;
    }
    proof {
        assert(i >= ldv.len());
        assert(spec_args_from(ldv, task@, i as int) == Seq::<Seq<char>>::empty());
        assert(r.deep_view() + Seq::<Seq<char>>::empty() =~= r.deep_view());
    }
    r
}

/// The candidate set for completing a task's arguments: the argument
/// descriptions parsed from the runner's detail output, with the task
/// name itself appended as a final fallback candidate.
pub fn complete_fab_command_args(task: &String, detail_output: &str) -> (r: Vec<String>)
    ensures
        r.deep_view() == spec_parse_task_args(detail_output@, task@).push(task@),
{
    let mut r = parse_task_args(detail_output, task);
    let ghost r0 = r.deep_view();
    r.push(task.clone());
    proof {
        assert(r.deep_view() =~= r0.push(task@));
    }
    r
}

} // verus!
