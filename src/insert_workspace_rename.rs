//! Insertion for window managers that move a workspace to the end of its
//! output's list when it is renamed, even to its own name.
use vstd::prelude::*;
use vstd::string::*;

use crate::command::{move_container_cmd, move_container_command, texts};
use crate::tree::WorkspaceSummary;
use crate::util::{InsertionDestination, InsertionError};

verus! {

/// `i` is the first position of `ws` holding the workspace named `p`.
pub open spec fn is_first_named(ws: Seq<WorkspaceSummary>, p: Seq<char>, i: int) -> bool {
    &&& 0 <= i < ws.len()
    &&& ws[i].name@ == p
    &&& forall|j: int| 0 <= j < i ==> ws[j].name@ != p
}

/// The position of the first workspace named `p`, or -1.
pub open spec fn pivot_index(ws: Seq<WorkspaceSummary>, p: Seq<char>) -> int {
    if exists|i: int| is_first_named(ws, p, i) {
        choose|i: int| is_first_named(ws, p, i)
    } else {
        -1
    }
}

/// `k` ends the run of workspaces on output `out` that starts at `from`.
pub open spec fn is_output_end(ws: Seq<WorkspaceSummary>, from: int, out: Seq<char>, k: int) -> bool {
    &&& from <= k <= ws.len()
    &&& (k == ws.len() || ws[k].output@ != out)
    &&& forall|j: int| from <= j < k ==> ws[j].output@ == out
}

/// The first position at or after `from` whose workspace is not on output
/// `out`, or the length of the list.
pub open spec fn output_end(ws: Seq<WorkspaceSummary>, from: int, out: Seq<char>) -> int {
    choose|k: int| is_output_end(ws, from, out, k)
}

/// The names of the workspaces of `s`, in order, leaving out `name`.
pub open spec fn renamed(s: Seq<WorkspaceSummary>, name: Seq<char>) -> Seq<Seq<char>>
    decreases s.len(),
{
    if s.len() == 0 {
        Seq::empty()
    } else if s.last().name@ == name {
        renamed(s.drop_last(), name)
    } else {
        renamed(s.drop_last(), name).push(s.last().name@)
    }
}

pub open spec fn switch_quoted_cmd(name: Seq<char>) -> Seq<char> {
    "workspace \""@ + name + "\""@
}

pub open spec fn move_to_output_cmd(output: Seq<char>) -> Seq<char> {
    "move workspace to output "@ + output
}

/// Renaming a workspace to its own name, which sends it to the end of its output.
pub open spec fn rename_cmd(ws: Seq<char>) -> Seq<char> {
    "rename workspace \""@ + ws + "\" to \""@ + ws + "\""@
}

/// The command that brings workspace `name` into being: the container is moved
/// there, or, without one, the workspace is switched to.
pub open spec fn creation_cmd(name: Seq<char>, container: Option<i64>) -> Seq<char> {
    match container {
        Some(c) => move_container_cmd(c, name),
        None => switch_quoted_cmd(name),
    }
}

/// The first workspace that has to be pushed behind the new one.
pub open spec fn start_index(ws: Seq<WorkspaceSummary>, pivot: Seq<char>, before: bool) -> int {
    if before {
        pivot_index(ws, pivot)
    } else {
        pivot_index(ws, pivot) + 1
    }
}

/// The end of the pivot's output in the list.
pub open spec fn stop_index(ws: Seq<WorkspaceSummary>, pivot: Seq<char>) -> int {
    let p = pivot_index(ws, pivot);
    output_end(ws, p, ws[p].output@)
}

/// The workspaces whose renaming puts the new one in its place.
pub open spec fn rename_names(
    ws: Seq<WorkspaceSummary>,
    pivot: Seq<char>,
    before: bool,
    name: Seq<char>,
) -> Seq<Seq<char>> {
    renamed(ws.subrange(start_index(ws, pivot, before), stop_index(ws, pivot)), name)
}

/// The batch of the rename strategy, for a list in which the pivot occurs.
pub open spec fn rename_batch(
    ws: Seq<WorkspaceSummary>,
    pivot: Seq<char>,
    before: bool,
    name: Seq<char>,
    container: Option<i64>,
) -> Seq<Seq<char>> {
    seq![
        creation_cmd(name, container),
        move_to_output_cmd(ws[pivot_index(ws, pivot)].output@),
    ] + rename_names(ws, pivot, before, name).map_values(|w: Seq<char>| rename_cmd(w))
}

proof fn lemma_pivot_index_found(ws: Seq<WorkspaceSummary>, p: Seq<char>, i: int)
    requires
        is_first_named(ws, p, i),
    ensures
        pivot_index(ws, p) == i,
{
    let k = pivot_index(ws, p);
    assert(is_first_named(ws, p, k));
    if k < i {
        assert(ws[k].name@ != p);
    } else if i < k {
        assert(ws[i].name@ != p);
    }
}

proof fn lemma_output_end_found(ws: Seq<WorkspaceSummary>, from: int, out: Seq<char>, k: int)
    requires
        is_output_end(ws, from, out, k),
    ensures
        output_end(ws, from, out) == k,
{
    let e = output_end(ws, from, out);
    assert(is_output_end(ws, from, out, e));
    if e < k {
        assert(ws[e].output@ == out);
    } else if k < e {
        assert(ws[k].output@ == out);
    }
}

proof fn lemma_output_end_exists(ws: Seq<WorkspaceSummary>, from: int, out: Seq<char>, k: int)
    requires
        from <= k <= ws.len(),
        forall|j: int| from <= j < k ==> ws[j].output@ == out,
    ensures
        exists|e: int| is_output_end(ws, from, out, e),
    decreases ws.len() - k,
{
    if k == ws.len() || ws[k].output@ != out {
        assert(is_output_end(ws, from, out, k));
    } else {
        lemma_output_end_exists(ws, from, out, k + 1);
    }
}

/// The shifted range lies inside the list: the pivot comes before the end of
/// its output, so the range starts no later than it stops.
pub proof fn lemma_start_stop(ws: Seq<WorkspaceSummary>, pivot: Seq<char>, before: bool)
    requires
        pivot_index(ws, pivot) >= 0,
    ensures
        0 <= pivot_index(ws, pivot) < stop_index(ws, pivot) <= ws.len(),
        0 <= start_index(ws, pivot, before) <= stop_index(ws, pivot),
{
    let p = pivot_index(ws, pivot);
    assert(exists|i: int| is_first_named(ws, pivot, i));
    let out = ws[p].output@;
    lemma_output_end_exists(ws, p, out, p);
    let e = output_end(ws, p, out);
    assert(is_output_end(ws, p, out, e));
    if e == p {
        assert(ws[p].output@ == out);
    }
}

proof fn lemma_renamed_is_filter(s: Seq<WorkspaceSummary>, name: Seq<char>)
    ensures
        renamed(s, name) == s.filter(|w: WorkspaceSummary| w.name@ != name).map_values(
            |w: WorkspaceSummary| w.name@,
        ),
    decreases s.len(),
{
    let pred = |w: WorkspaceSummary| w.name@ != name;
    let nm = |w: WorkspaceSummary| w.name@;
    reveal(Seq::filter);
    if s.len() > 0 {
        lemma_renamed_is_filter(s.drop_last(), name);
        let f = s.drop_last().filter(pred);
        if pred(s.last()) {
            assert(s.filter(pred) == f.push(s.last()));
            assert(f.push(s.last()).map_values(nm) =~= f.map_values(nm).push(s.last().name@));
        } else {
            assert(s.filter(pred) == f);
        }
    } else {
        assert(s.filter(pred).map_values(nm) =~= Seq::empty());
    }
}

proof fn lemma_renamed_excludes(s: Seq<WorkspaceSummary>, name: Seq<char>)
    ensures
        forall|k: int| 0 <= k < renamed(s, name).len() ==> renamed(s, name)[k] != name,
    decreases s.len(),
{
    if s.len() > 0 {
        lemma_renamed_excludes(s.drop_last(), name);
        let r = renamed(s.drop_last(), name);
        if s.last().name@ != name {
            assert forall|k: int| 0 <= k < r.push(s.last().name@).len() implies r.push(
                s.last().name@,
            )[k] != name by {
                if k < r.len() {
                    assert(r.push(s.last().name@)[k] == r[k]);
                }
            }
        }
    }
}

/// The rename strategy never renames the workspace that carries the new
/// workspace's name.
pub proof fn lemma_new_name_never_renamed(
    ws: Seq<WorkspaceSummary>,
    pivot: Seq<char>,
    before: bool,
    name: Seq<char>,
)
    ensures
        forall|k: int|
            0 <= k < rename_names(ws, pivot, before, name).len() ==> rename_names(
                ws,
                pivot,
                before,
                name,
            )[k] != name,
{
    lemma_renamed_excludes(
        ws.subrange(start_index(ws, pivot, before), stop_index(ws, pivot)),
        name,
    );
}

/// Whenever the pivot is present, the shifted range starts no later than it
/// stops, and the renamed workspaces are exactly those of that range, in their
/// order, less any that carries the new name.
pub proof fn lemma_rename_set(
    ws: Seq<WorkspaceSummary>,
    pivot: Seq<char>,
    before: bool,
    name: Seq<char>,
)
    requires
        pivot_index(ws, pivot) >= 0,
    ensures
        0 <= start_index(ws, pivot, before) <= stop_index(ws, pivot) <= ws.len(),
        rename_names(ws, pivot, before, name) == ws.subrange(
            start_index(ws, pivot, before),
            stop_index(ws, pivot),
        ).filter(|w: WorkspaceSummary| w.name@ != name).map_values(|w: WorkspaceSummary| w.name@),
{
    lemma_start_stop(ws, pivot, before);
    lemma_renamed_is_filter(
        ws.subrange(start_index(ws, pivot, before), stop_index(ws, pivot)),
        name,
    );
}

/// The position of the first workspace named `p`.
pub fn position_of_name(ws: &Vec<WorkspaceSummary>, p: &String) -> (r: Option<usize>)
    ensures
        match r {
            Some(i) => pivot_index(ws@, p@) == i as int,
            None => pivot_index(ws@, p@) == -1,
        },
{
    let mut i: usize = 0;
    while i < ws.len()
        invariant
            i <= ws.len(),
            forall|j: int| 0 <= j < i ==> ws@[j].name@ != p@,
        decreases ws.len() - i,
    {
        if ws[i].name == *p {
            proof {
                lemma_pivot_index_found(ws@, p@, i as int);
            }
            return Some(i);
        }
        i = i + 1;
    }
    None
}

/// Inserts workspace `name` next to the pivot by renaming every workspace that
/// has to come after it, so that each moves to the end of the output in turn.
///
/// `workspaces` is the window manager's list, each output's workspaces next to
/// each other. Returns the batch of commands to submit.
pub fn insert_workspace(
    workspaces: &Vec<WorkspaceSummary>,
    insertion_marker: &InsertionDestination,
    name: &str,
    container: Option<i64>,
) -> (r: Result<Vec<String>, InsertionError>)
    ensures
        r is Err <==> pivot_index(workspaces@, insertion_marker.pivot_view()) == -1,
        match r {
            Ok(cmds) => texts(cmds@) == rename_batch(
                workspaces@,
                insertion_marker.pivot_view(),
                insertion_marker.is_before(),
                name@,
                container,
            ),
            Err(InsertionError::NoPivotWorkspace(p)) => p@ == insertion_marker.pivot_view(),
            Err(_) => false,
        },
{
    let pivot = String::from_str(insertion_marker.pivot());
    let new_name = String::from_str(name);
    let ghost ws = workspaces@;
    let ghost before = insertion_marker.is_before();
    let p = match position_of_name(workspaces, &pivot) {
        Some(p) => p,
        None => {
            return Err(InsertionError::NoPivotWorkspace(pivot));
        },
    };
    let output = &workspaces[p].output;
    let mut stop: usize = p;
    while stop < workspaces.len() && workspaces[stop].output == *output
        invariant
            p <= stop <= workspaces.len(),
            workspaces@ == ws,
            output@ == ws[p as int].output@,
            forall|j: int| p <= j < stop ==> ws[j].output@ == output@,
        decreases workspaces.len() - stop,
    {
        stop = stop + 1;
    }
    proof {
        lemma_output_end_found(ws, p as int, output@, stop as int);
        lemma_start_stop(ws, pivot@, before);
    }
    let start: usize = match insertion_marker {
        InsertionDestination::After { .. } => p + 1,
        InsertionDestination::Before { .. } => p,
    };
    let creation = match container {
        Some(id) => move_container_command(id, name),
        None => {
            let mut s = String::from_str("workspace \"");
            s.append(name);
            s.append("\"");
            s
        },
    };
    let mut to_output = String::from_str("move workspace to output ");
    to_output.append(output.as_str());
    let mut cmds: Vec<String> = Vec::new();
    cmds.push(creation);
    cmds.push(to_output);
    let ghost head = seq![creation_cmd(name@, container), move_to_output_cmd(output@)];
    assert(texts(cmds@) =~= head);
    let mut i: usize = start;
    while i < stop
        invariant
            start <= i <= stop,
            stop <= ws.len(),
            workspaces@ == ws,
            new_name@ == name@,
            texts(cmds@) == head + renamed(ws.subrange(start as int, i as int), name@).map_values(
                |w: Seq<char>| rename_cmd(w),
            ),
        decreases stop - i,
    {
        let ghost prev = renamed(ws.subrange(start as int, i as int), name@);
        assert(ws.subrange(start as int, i + 1).drop_last() =~= ws.subrange(start as int, i as int));
        assert(ws.subrange(start as int, i + 1).last() == ws[i as int]);
        let w = &workspaces[i].name;
        if !(*w == new_name) {
            let mut c = String::from_str("rename workspace \"");
            c.append(w.as_str());
            c.append("\" to \"");
            c.append(w.as_str());
            c.append("\"");
            let ghost before_push = cmds@;
            cmds.push(c);
            assert(renamed(ws.subrange(start as int, i + 1), name@) == prev.push(w@));
            assert(prev.push(w@).map_values(|w: Seq<char>| rename_cmd(w)) =~= prev.map_values(
                |w: Seq<char>| rename_cmd(w),
            ).push(rename_cmd(w@)));
            assert(texts(cmds@) =~= texts(before_push).push(c@));
        }
        i = i + 1;
    }
    Ok(cmds)
}

} // verus!
