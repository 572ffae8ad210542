//! Insertion for window managers that order workspaces by when they were
//! attached: every workspace after the insertion point is emptied into a
//! disposable workspace that then takes its name, at the end of the output.
use vstd::prelude::*;
use vstd::string::*;

use crate::command::{move_container_cmd, move_container_command, texts};
use crate::tree::{is_focused_spec, position_of_id, NodeKind, TreeNode};
use crate::util::{InsertionDestination, InsertionError};

verus! {

pub open spec fn switch_cmd(name: Seq<char>) -> Seq<char> {
    "workspace "@ + name
}

pub open spec fn rename_back_cmd(disposable: Seq<char>, name: Seq<char>) -> Seq<char> {
    "rename workspace "@ + disposable + " to "@ + name
}

/// The command that brings workspace `name` into being: the container is moved
/// there, or, without one, the workspace is switched to.
pub open spec fn creation_cmd(name: Seq<char>, container: Option<i64>) -> Seq<char> {
    match container {
        Some(c) => move_container_cmd(c, name),
        None => switch_cmd(name),
    }
}

/// The moves of the containers of `s` to the disposable workspace, leaving
/// out the container being relocated.
pub open spec fn move_cmds(s: Seq<TreeNode>, container: Option<i64>, disposable: Seq<char>) -> Seq<
    Seq<char>,
>
    decreases s.len(),
{
    if s.len() == 0 {
        Seq::empty()
    } else if container == Some(s.last().id) {
        move_cmds(s.drop_last(), container, disposable)
    } else {
        move_cmds(s.drop_last(), container, disposable).push(
            move_container_cmd(s.last().id, disposable),
        )
    }
}

/// What empties `ws` into the disposable workspace: its tiled, then its
/// floating containers, and, when some were moved while a container is
/// relocated away from the focused workspace, a switch that keeps the view on
/// the moved content.
pub open spec fn evacuation_moves(ws: TreeNode, container: Option<i64>, disposable: Seq<char>) -> Seq<
    Seq<char>,
> {
    let m = move_cmds(ws.nodes@, container, disposable) + move_cmds(
        ws.floating_nodes@,
        container,
        disposable,
    );
    if m.len() > 0 && container is Some && is_focused_spec(ws) {
        m.push(switch_cmd(disposable))
    } else {
        m
    }
}

/// The commands that shift `ws` to the end of its output, or `None` when it
/// has something to move but no name to give back. A workspace none of whose
/// containers is moved gets no command.
pub open spec fn evacuation(ws: TreeNode, container: Option<i64>, disposable: Seq<char>) -> Option<
    Seq<Seq<char>>,
> {
    let m = evacuation_moves(ws, container, disposable);
    if m.len() == 0 {
        Some(m)
    } else {
        match ws.name {
            Some(n) => Some(m.push(rename_back_cmd(disposable, n@))),
            None => None,
        }
    }
}

/// The commands that shift every workspace of `wss`, in order, or `None` when
/// one of them cannot be.
pub open spec fn evacuate_all(wss: Seq<TreeNode>, container: Option<i64>, disposable: Seq<char>) -> Option<
    Seq<Seq<char>>,
>
    decreases wss.len(),
{
    if wss.len() == 0 {
        Some(Seq::empty())
    } else {
        match (
            evacuate_all(wss.drop_last(), container, disposable),
            evacuation(wss.last(), container, disposable),
        ) {
            (Some(a), Some(b)) => Some(a + b),
            _ => None,
        }
    }
}

pub open spec fn is_named(node: TreeNode, p: Seq<char>) -> bool {
    node.name is Some && node.name->Some_0@ == p
}

/// The pivot is workspace `w` of output `o`: the first so named in the first
/// output that has one.
pub open spec fn is_pivot_at(root: TreeNode, p: Seq<char>, o: int, w: int) -> bool {
    &&& 0 <= o < root.nodes@.len()
    &&& 0 <= w < root.nodes@[o].nodes@.len()
    &&& is_named(root.nodes@[o].nodes@[w], p)
    &&& forall|j: int| 0 <= j < w ==> !is_named(#[trigger] root.nodes@[o].nodes@[j], p)
    &&& forall|a: int, j: int|
        0 <= a < o && 0 <= j < root.nodes@[a].nodes@.len() ==> !is_named(
            #[trigger] root.nodes@[a].nodes@[j],
            p,
        )
}

pub open spec fn has_pivot(root: TreeNode, p: Seq<char>) -> bool {
    exists|o: int, w: int| is_pivot_at(root, p, o, w)
}

/// Where the pivot is, when `has_pivot` holds.
pub open spec fn pivot_at(root: TreeNode, p: Seq<char>) -> (int, int) {
    choose|o: int, w: int| is_pivot_at(root, p, o, w)
}

/// The workspaces of the pivot's output that the new one pushes back.
pub open spec fn shifted(root: TreeNode, p: Seq<char>, before: bool) -> Seq<TreeNode> {
    let (o, w) = pivot_at(root, p);
    let first = if before {
        w
    } else {
        w + 1
    };
    root.nodes@[o].nodes@.subrange(first, root.nodes@[o].nodes@.len() as int)
}

/// The snapshot has the shape that the swap strategy reads: a root whose
/// children are outputs, whose children are workspaces.
pub open spec fn is_workspace_tree(root: TreeNode) -> bool {
    &&& root.kind == NodeKind::Root
    &&& forall|o: int| 0 <= o < root.nodes@.len() ==> (#[trigger] root.nodes@[o]).kind == NodeKind::Output
    &&& forall|o: int, w: int|
        0 <= o < root.nodes@.len() && 0 <= w < root.nodes@[o].nodes@.len() ==> (
        #[trigger] root.nodes@[o].nodes@[w]).kind == NodeKind::Workspace
}

/// `disposable` is neither the new workspace's name nor that of any workspace
/// of the snapshot.
pub open spec fn is_fresh_name(root: TreeNode, name: Seq<char>, disposable: Seq<char>) -> bool {
    &&& disposable != name
    &&& forall|o: int, w: int|
        0 <= o < root.nodes@.len() && 0 <= w < root.nodes@[o].nodes@.len() ==> !is_named(
            #[trigger] root.nodes@[o].nodes@[w],
            disposable,
        )
}

/// Whether the snapshot has the shape that the swap strategy reads.
pub fn has_workspace_tree_shape(root: &TreeNode) -> (r: bool)
    ensures
        r == is_workspace_tree(*root),
{
    if root.kind != NodeKind::Root {
        return false;
    }
    let mut o: usize = 0;
    while o < root.nodes.len()
        invariant
            o <= root.nodes@.len(),
            root.kind == NodeKind::Root,
            forall|a: int| 0 <= a < o ==> (#[trigger] root.nodes@[a]).kind == NodeKind::Output,
            forall|a: int, w: int|
                0 <= a < o && 0 <= w < root.nodes@[a].nodes@.len() ==> (
                #[trigger] root.nodes@[a].nodes@[w]).kind == NodeKind::Workspace,
        decreases root.nodes@.len() - o,
    {
        let out = &root.nodes[o];
        if out.kind != NodeKind::Output {
            return false;
        }
        let mut w: usize = 0;
        while w < out.nodes.len()
            invariant
                o < root.nodes@.len(),
                *out == root.nodes@[o as int],
                w <= out.nodes@.len(),
                forall|j: int| 0 <= j < w ==> (#[trigger] out.nodes@[j]).kind == NodeKind::Workspace,
            decreases out.nodes@.len() - w,
        {
            if out.nodes[w].kind != NodeKind::Workspace {
                return false;
            }
            w = w + 1;
        }
        assert forall|a: int, j: int|
            0 <= a < o + 1 && 0 <= j < root.nodes@[a].nodes@.len() implies (
            #[trigger] root.nodes@[a].nodes@[j]).kind == NodeKind::Workspace by {
            if a == o {
                assert(root.nodes@[a].nodes@[j] == out.nodes@[j]);
            }
        }
        o = o + 1;
    }
    true
}

/// Whether `disposable` can serve as the workspace that containers pass
/// through: it is neither `name` nor the name of any workspace of the snapshot.
pub fn is_fresh_disposable(root: &TreeNode, name: &str, disposable: &str) -> (r: bool)
    ensures
        r == is_fresh_name(*root, name@, disposable@),
{
    let d = String::from_str(disposable);
    let n = String::from_str(name);
    if d == n {
        return false;
    }
    let mut o: usize = 0;
    while o < root.nodes.len()
        invariant
            o <= root.nodes@.len(),
            d@ == disposable@,
            forall|a: int, j: int|
                0 <= a < o && 0 <= j < root.nodes@[a].nodes@.len() ==> !is_named(
                    #[trigger] root.nodes@[a].nodes@[j],
                    disposable@,
                ),
        decreases root.nodes@.len() - o,
    {
        let out = &root.nodes[o];
        let mut w: usize = 0;
        while w < out.nodes.len()
            invariant
                o < root.nodes@.len(),
                *out == root.nodes@[o as int],
                w <= out.nodes@.len(),
                d@ == disposable@,
                forall|j: int| 0 <= j < w ==> !is_named(#[trigger] out.nodes@[j], disposable@),
            decreases out.nodes@.len() - w,
        {
            let taken = match &out.nodes[w].name {
                Some(x) => *x == d,
                None => false,
            };
            if taken {
                assert(is_named(root.nodes@[o as int].nodes@[w as int], disposable@));
                return false;
            }
            w = w + 1;
        }
        assert forall|a: int, j: int|
            0 <= a < o + 1 && 0 <= j < root.nodes@[a].nodes@.len() implies !is_named(
            #[trigger] root.nodes@[a].nodes@[j],
            disposable@,
        ) by {
            if a == o {
                assert(root.nodes@[a].nodes@[j] == out.nodes@[j]);
            }
        }
        o = o + 1;
    }
    true
}

proof fn lemma_pivot_at_unique(root: TreeNode, p: Seq<char>, o: int, w: int)
    requires
        is_pivot_at(root, p, o, w),
    ensures
        pivot_at(root, p) == (o, w),
{
    let (a, b) = pivot_at(root, p);
    assert(is_pivot_at(root, p, a, b));
    if a < o {
        assert(!is_named(root.nodes@[a].nodes@[b], p));
    } else if o < a {
        assert(!is_named(root.nodes@[o].nodes@[w], p));
    } else if b < w {
        assert(!is_named(root.nodes@[o].nodes@[b], p));
    } else if w < b {
        assert(!is_named(root.nodes@[o].nodes@[w], p));
    }
}

/// Finds the output that holds the workspace named `p`: its index under the
/// root, and the workspace's index in it.
fn find_workspaces_output(root: &TreeNode, p: &String) -> (r: Option<(usize, usize)>)
    ensures
        match r {
            Some((o, w)) => {
                &&& has_pivot(*root, p@)
                &&& is_pivot_at(*root, p@, o as int, w as int)
                &&& pivot_at(*root, p@) == (o as int, w as int)
            },
            None => !has_pivot(*root, p@),
        },
{
    let mut o: usize = 0;
    while o < root.nodes.len()
        invariant
            o <= root.nodes@.len(),
            forall|a: int, j: int|
                0 <= a < o && 0 <= j < root.nodes@[a].nodes@.len() ==> !is_named(
                    #[trigger] root.nodes@[a].nodes@[j],
                    p@,
                ),
        decreases root.nodes@.len() - o,
    {
        let out = &root.nodes[o];
        let mut w: usize = 0;
        while w < out.nodes.len()
            invariant
                o < root.nodes@.len(),
                *out == root.nodes@[o as int],
                w <= out.nodes@.len(),
                forall|j: int| 0 <= j < w ==> !is_named(#[trigger] out.nodes@[j], p@),
                forall|a: int, j: int|
                    0 <= a < o && 0 <= j < root.nodes@[a].nodes@.len() ==> !is_named(
                        #[trigger] root.nodes@[a].nodes@[j],
                        p@,
                    ),
            decreases out.nodes@.len() - w,
        {
            let found = match &out.nodes[w].name {
                Some(n) => *n == *p,
                None => false,
            };
            if found {
                proof {
                    assert(is_pivot_at(*root, p@, o as int, w as int));
                    lemma_pivot_at_unique(*root, p@, o as int, w as int);
                }
                return Some((o, w));
            }
            w = w + 1;
        }
        o = o + 1;
    }
    proof {
        if has_pivot(*root, p@) {
            let (a, b) = pivot_at(*root, p@);
            assert(is_pivot_at(*root, p@, a, b));
        }
    }
    None
}

/// Whether `ws`, or the end of its chain of most recently focused children, is
/// the focused node.
pub fn is_focused(ws: &TreeNode) -> (r: bool)
    ensures
        r == is_focused_spec(*ws),
    decreases *ws,
{
    if ws.focused {
        return true;
    }
    if ws.focus.len() == 0 {
        return false;
    }
    let id = ws.focus[0];
    match position_of_id(&ws.nodes, id) {
        Some(i) => is_focused(&ws.nodes[i]),
        None => match position_of_id(&ws.floating_nodes, id) {
            Some(k) => is_focused(&ws.floating_nodes[k]),
            None => false,
        },
    }
}

fn push_moves(
    cmds: &mut Vec<String>,
    s: &Vec<TreeNode>,
    container: Option<i64>,
    disposable: &str,
)
    ensures
        texts(final(cmds)@) == texts(old(cmds)@) + move_cmds(s@, container, disposable@),
{
    let ghost start = texts(cmds@);
    let mut i: usize = 0;
    while i < s.len()
        invariant
            i <= s@.len(),
            texts(cmds@) == start + move_cmds(s@.take(i as int), container, disposable@),
        decreases s@.len() - i,
    {
        assert(s@.take(i + 1).drop_last() =~= s@.take(i as int));
        assert(s@.take(i + 1).last() == s@[i as int]);
        let id = s[i].id;
        let skip = match container {
            Some(c) => c == id,
            None => false,
        };
        if !skip {
            let ghost prev = cmds@;
            let c = move_container_command(id, disposable);
            cmds.push(c);
            assert(texts(cmds@) =~= texts(prev).push(c@));
        }
        i = i + 1;
    }
    assert(s@.take(i as int) =~= s@);
}

/// The commands that empty workspace `source` into the disposable workspace
/// and give that workspace the name of `source`.
pub fn move_workspace_to_end(source: &TreeNode, container: Option<i64>, disposable: &str) -> (r: Result<
    Vec<String>,
    InsertionError,
>)
    ensures
        match evacuation(*source, container, disposable@) {
            Some(e) => r is Ok && texts(r->Ok_0@) == e,
            None => r is Err && r->Err_0 is UnnamedWorkspace,
        },
{
    let mut movings: Vec<String> = Vec::new();
    assert(texts(movings@) =~= Seq::<Seq<char>>::empty());
    push_moves(&mut movings, &source.nodes, container, disposable);
    push_moves(&mut movings, &source.floating_nodes, container, disposable);
    assert(texts(movings@) =~= move_cmds(source.nodes@, container, disposable@) + move_cmds(
        source.floating_nodes@,
        container,
        disposable@,
    ));
    if movings.len() > 0 && container.is_some() && is_focused(source) {
        let ghost prev = movings@;
        let mut c = String::from_str("workspace ");
        c.append(disposable);
        movings.push(c);
        assert(texts(movings@) =~= texts(prev).push(c@));
    }
    if movings.len() > 0 {
        match &source.name {
            Some(n) => {
                let ghost prev = movings@;
                let mut c = String::from_str("rename workspace ");
                c.append(disposable);
                c.append(" to ");
                c.append(n.as_str());
                movings.push(c);
                assert(c@ =~= rename_back_cmd(disposable@, n@));
                assert(texts(movings@) =~= texts(prev).push(c@));
            },
            None => {
                return Err(InsertionError::UnnamedWorkspace);
            },
        }
    }
    Ok(movings)
}

proof fn lemma_evacuate_all_fails(s: Seq<TreeNode>, container: Option<i64>, disposable: Seq<char>, k: int)
    requires
        0 <= k < s.len(),
        evacuation(s[k], container, disposable) is None,
    ensures
        evacuate_all(s, container, disposable) is None,
    decreases s.len(),
{
    if k < s.len() - 1 {
        assert(s.drop_last()[k] == s[k]);
        lemma_evacuate_all_fails(s.drop_last(), container, disposable, k);
    }
}

proof fn lemma_move_cmds_nonempty(s: Seq<TreeNode>, container: Option<i64>, disposable: Seq<char>, j: int)
    requires
        0 <= j < s.len(),
        container != Some(s[j].id),
    ensures
        move_cmds(s, container, disposable).len() > 0,
    decreases s.len(),
{
    if j < s.len() - 1 {
        assert(s.drop_last()[j] == s[j]);
        lemma_move_cmds_nonempty(s.drop_last(), container, disposable, j);
    }
}

/// A workspace without tiled or floating containers gets no command.
pub proof fn lemma_empty_workspace_untouched(ws: TreeNode, container: Option<i64>, disposable: Seq<char>)
    requires
        ws.nodes@.len() == 0,
        ws.floating_nodes@.len() == 0,
    ensures
        evacuation(ws, container, disposable) == Some(Seq::<Seq<char>>::empty()),
{
    assert(move_cmds(ws.nodes@, container, disposable) + move_cmds(
        ws.floating_nodes@,
        container,
        disposable,
    ) =~= Seq::<Seq<char>>::empty());
}

/// When a container is relocated, the shifted workspace holds the focus and
/// some other container of it is moved, its commands end by switching to the
/// disposable workspace and then giving that workspace the shifted one's name.
pub proof fn lemma_focused_workspace_switches(
    ws: TreeNode,
    container: Option<i64>,
    disposable: Seq<char>,
    j: int,
)
    requires
        container is Some,
        is_focused_spec(ws),
        ws.name is Some,
        0 <= j < ws.nodes@.len() + ws.floating_nodes@.len(),
        container != Some((ws.nodes@ + ws.floating_nodes@)[j].id),
    ensures
        evacuation(ws, container, disposable) is Some,
        evacuation(ws, container, disposable)->Some_0.len() >= 2,
        evacuation(ws, container, disposable)->Some_0[evacuation(
            ws,
            container,
            disposable,
        )->Some_0.len() - 2] == switch_cmd(disposable),
        evacuation(ws, container, disposable)->Some_0[evacuation(
            ws,
            container,
            disposable,
        )->Some_0.len() - 1] == rename_back_cmd(disposable, ws.name->Some_0@),
{
    if j < ws.nodes@.len() {
        lemma_move_cmds_nonempty(ws.nodes@, container, disposable, j);
    } else {
        assert(ws.floating_nodes@[j - ws.nodes@.len()] == (ws.nodes@ + ws.floating_nodes@)[j]);
        lemma_move_cmds_nonempty(ws.floating_nodes@, container, disposable, j - ws.nodes@.len());
    }
}

/// A shifted workspace that has containers to move but no name makes the swap
/// strategy fail as a whole.
pub proof fn lemma_unnamed_workspace_fails(
    root: TreeNode,
    pivot: Seq<char>,
    before: bool,
    container: Option<i64>,
    disposable: Seq<char>,
    k: int,
)
    requires
        0 <= k < shifted(root, pivot, before).len(),
        shifted(root, pivot, before)[k].name is None,
        evacuation_moves(shifted(root, pivot, before)[k], container, disposable).len() > 0,
    ensures
        evacuate_all(shifted(root, pivot, before), container, disposable) is None,
{
    lemma_evacuate_all_fails(shifted(root, pivot, before), container, disposable, k);
}

/// Inserts workspace `name` next to the pivot by shifting every workspace that
/// has to come after it: each one is emptied into the workspace `disposable`,
/// which then takes its name.
///
/// The snapshot must have the shape of a root over outputs over workspaces, and
/// `disposable` must be neither `name` nor the name of any workspace of it.
/// Returns the batch of commands to submit.
pub fn insert_workspace(
    root: &TreeNode,
    insertion_marker: &InsertionDestination,
    name: &str,
    container: Option<i64>,
    disposable: &str,
) -> (r: Result<Vec<String>, InsertionError>)
    requires
        is_workspace_tree(*root),
        is_fresh_name(*root, name@, disposable@),
    ensures
        match r {
            Ok(cmds) => {
                &&& has_pivot(*root, insertion_marker.pivot_view())
                &&& evacuate_all(
                    shifted(*root, insertion_marker.pivot_view(), insertion_marker.is_before()),
                    container,
                    disposable@,
                ) is Some
                &&& texts(cmds@) == seq![creation_cmd(name@, container)] + evacuate_all(
                    shifted(*root, insertion_marker.pivot_view(), insertion_marker.is_before()),
                    container,
                    disposable@,
                )->Some_0
            },
            Err(InsertionError::NoPivotWorkspace(p)) => {
                &&& !has_pivot(*root, insertion_marker.pivot_view())
                &&& p@ == insertion_marker.pivot_view()
            },
            Err(InsertionError::UnnamedWorkspace) => {
                &&& has_pivot(*root, insertion_marker.pivot_view())
                &&& evacuate_all(
                    shifted(*root, insertion_marker.pivot_view(), insertion_marker.is_before()),
                    container,
                    disposable@,
                ) is None
            },
            Err(InsertionError::CommandError(_)) => false,
        },
{
    let pivot = String::from_str(insertion_marker.pivot());
    let (o, w) = match find_workspaces_output(root, &pivot) {
        Some(loc) => loc,
        None => {
            return Err(InsertionError::NoPivotWorkspace(pivot));
        },
    };
    let out = &root.nodes[o];
    assert(w < out.nodes.len());
    let first: usize = match insertion_marker {
        InsertionDestination::After { .. } => w + 1,
        InsertionDestination::Before { .. } => w,
    };
    let ghost wss = shifted(*root, insertion_marker.pivot_view(), insertion_marker.is_before());
    let creation = match container {
        Some(id) => move_container_command(id, name),
        None => {
            let mut s = String::from_str("workspace ");
            s.append(name);
            s
        },
    };
    let mut commands: Vec<String> = Vec::new();
    commands.push(creation);
    let ghost head = seq![creation_cmd(name@, container)];
    assert(texts(commands@) =~= head);
    let mut i: usize = first;
    while i < out.nodes.len()
        invariant
            first <= i <= out.nodes@.len(),
            has_pivot(*root, insertion_marker.pivot_view()),
            wss == shifted(*root, insertion_marker.pivot_view(), insertion_marker.is_before()),
            wss == out.nodes@.subrange(first as int, out.nodes@.len() as int),
            evacuate_all(wss.take(i - first), container, disposable@) is Some,
            texts(commands@) == head + evacuate_all(
                wss.take(i - first),
                container,
                disposable@,
            )->Some_0,
        decreases out.nodes@.len() - i,
    {
        assert(wss.take(i - first + 1).drop_last() =~= wss.take(i - first));
        assert(wss.take(i - first + 1).last() == out.nodes@[i as int]);
        match move_workspace_to_end(&out.nodes[i], container, disposable) {
            Ok(mut moves) => {
                let ghost prev = commands@;
                let ghost added = moves@;
                commands.append(&mut moves);
                assert(texts(commands@) =~= texts(prev) + texts(added));
            },
            Err(_) => {
                proof {
                    assert(wss[i - first] == out.nodes@[i as int]);
                    lemma_evacuate_all_fails(wss, container, disposable@, i - first);
                }
                return Err(InsertionError::UnnamedWorkspace);
            },
        }
        i = i + 1;
    }
    assert(wss.take(i - first) =~= wss);
    Ok(commands)
}

} // verus!
