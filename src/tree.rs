use vstd::prelude::*;

verus! {

/// The kind of a node of the window manager's layout tree.
#[derive(Clone, Copy, Debug, PartialEq, Eq, Structural)]
pub enum NodeKind {
    Root,
    Output,
    Workspace,
    Container,
    FloatingContainer,
    DockArea,
    Unknown,
}

/// One node of a snapshot of the layout tree.
///
/// `focus` lists the ids of the node's children, most recently focused first.
/// Floating containers are kept apart from the tiled children.
#[derive(Debug)]
pub struct TreeNode {
    pub id: i64,
    pub name: Option<String>,
    pub kind: NodeKind,
    pub focused: bool,
    pub focus: Vec<i64>,
    pub nodes: Vec<TreeNode>,
    pub floating_nodes: Vec<TreeNode>,
}

/// A workspace as listed by the window manager: its name and the output it is on.
#[derive(Debug)]
pub struct WorkspaceSummary {
    pub name: String,
    pub output: String,
}

/// Whether some listed workspace is named `candidate`; a freshly drawn name is
/// kept only when this is false.
pub fn name_in_use(workspaces: &Vec<WorkspaceSummary>, candidate: &String) -> (r: bool)
    ensures
        r == exists|j: int| 0 <= j < workspaces@.len() && workspaces@[j].name@ == candidate@,
{
    let mut i: usize = 0;
    while i < workspaces.len()
        invariant
            i <= workspaces@.len(),
            forall|j: int| 0 <= j < i ==> workspaces@[j].name@ != candidate@,
        decreases workspaces@.len() - i,
    {
        if workspaces[i].name == *candidate {
            return true;
        }
        i = i + 1;
    }
    false
}

/// `i` is the first position of `s` holding a node with the given id.
pub open spec fn is_first_with_id(s: Seq<TreeNode>, id: i64, i: int) -> bool {
    &&& 0 <= i < s.len()
    &&& s[i].id == id
    &&& forall|j: int| 0 <= j < i ==> s[j].id != id
}

/// The first position of `s` holding a node with the given id, or -1.
pub open spec fn index_of_id(s: Seq<TreeNode>, id: i64) -> int {
    if exists|i: int| is_first_with_id(s, id, i) {
        choose|i: int| is_first_with_id(s, id, i)
    } else {
        -1
    }
}

pub proof fn lemma_index_of_id_found(s: Seq<TreeNode>, id: i64, i: int)
    requires
        is_first_with_id(s, id, i),
    ensures
        index_of_id(s, id) == i,
{
    let k = index_of_id(s, id);
    assert(is_first_with_id(s, id, k));
    if k < i {
        assert(s[k].id != id);
    } else if i < k {
        assert(s[i].id != id);
    }
}

pub proof fn lemma_index_of_id_absent(s: Seq<TreeNode>, id: i64)
    requires
        forall|j: int| 0 <= j < s.len() ==> s[j].id != id,
    ensures
        index_of_id(s, id) == -1,
{
}

/// The position of the first node with the given id in `v`.
pub fn position_of_id(v: &Vec<TreeNode>, id: i64) -> (r: Option<usize>)
    ensures
        match r {
            Some(i) => index_of_id(v@, id) == i as int,
            None => index_of_id(v@, id) == -1,
        },
{
    let mut i: usize = 0;
    while i < v.len()
        invariant
            i <= v.len(),
            forall|j: int| 0 <= j < i ==> v@[j].id != id,
        decreases v.len() - i,
    {
        if v[i].id == id {
            proof {
                lemma_index_of_id_found(v@, id, i as int);
            }
            return Some(i);
        }
        i = i + 1;
    }
    proof {
        lemma_index_of_id_absent(v@, id);
    }
    None
}

/// The child that `node` focused most recently: the first entry of its focus
/// history, looked up among the tiled children first, then the floating ones.
pub open spec fn focus_child(node: TreeNode) -> Option<TreeNode> {
    if node.focus@.len() == 0 {
        None
    } else {
        let id = node.focus@[0];
        let i = index_of_id(node.nodes@, id);
        let k = index_of_id(node.floating_nodes@, id);
        if i >= 0 {
            Some(node.nodes@[i])
        } else if k >= 0 {
            Some(node.floating_nodes@[k])
        } else {
            None
        }
    }
}

/// Whether `node`, or the end of the chain of most recently focused children
/// below it, is the focused node.
pub open spec fn is_focused_spec(node: TreeNode) -> bool
    decreases node,
{
    if node.focused {
        true
    } else if node.focus@.len() == 0 {
        false
    } else {
        let id = node.focus@[0];
        let i = index_of_id(node.nodes@, id);
        let k = index_of_id(node.floating_nodes@, id);
        if i >= 0 {
            is_focused_spec(node.nodes@[i])
        } else if k >= 0 {
            is_focused_spec(node.floating_nodes@[k])
        } else {
            false
        }
    }
}

} // verus!
