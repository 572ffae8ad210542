//! Finding the focused output, workspace and container of a tree snapshot.
use vstd::prelude::*;

use crate::tree::{index_of_id, is_focused_spec, position_of_id, NodeKind, TreeNode};

verus! {

/// Why the focused location could not be read from a tree.
#[derive(Clone, Copy, Debug, PartialEq, Eq, Structural)]
pub enum FocusError {
    /// A node on the way down is not focused and has no focus history.
    BrokenFocusChain,
    /// A focus history names a child that the node does not have.
    IncorrectFocusEntry,
    /// An output on the way down has no name.
    UnnamedOutput,
    /// A workspace on the way down has no name.
    UnnamedWorkspace,
    /// The focused node was reached without passing an output.
    OutputNameNotFound,
    /// The focused node was reached without passing a workspace.
    WorkspaceNameNotFound,
}

/// The output, workspace and container that hold the focus.
#[derive(Debug)]
pub struct FocusLocation {
    pub output: String,
    pub workspace: String,
    pub container: i64,
}

pub open spec fn opt_view(o: Option<String>) -> Option<Seq<char>> {
    match o {
        Some(s) => Some(s@),
        None => None,
    }
}

/// The walk down the chain of most recently focused children, from `node`.
///
/// `output` and `workspace` are the names of the last output and workspace
/// passed; when `record` holds, `node` itself counts as passed. The result is
/// (output, workspace, id of the focused node).
pub open spec fn resolve_from(
    node: TreeNode,
    record: bool,
    output: Option<Seq<char>>,
    workspace: Option<Seq<char>>,
) -> Result<(Seq<char>, Seq<char>, i64), FocusError>
    decreases node,
{
    if record && node.kind == NodeKind::Output && node.name is None {
        Err(FocusError::UnnamedOutput)
    } else if record && node.kind == NodeKind::Workspace && node.name is None {
        Err(FocusError::UnnamedWorkspace)
    } else {
        let out = if record && node.kind == NodeKind::Output {
            opt_view(node.name)
        } else {
            output
        };
        let ws = if record && node.kind == NodeKind::Workspace {
            opt_view(node.name)
        } else {
            workspace
        };
        if node.focused {
            match (out, ws) {
                (None, _) => Err(FocusError::OutputNameNotFound),
                (Some(_), None) => Err(FocusError::WorkspaceNameNotFound),
                (Some(o), Some(w)) => Ok((o, w, node.id)),
            }
        } else if node.focus@.len() == 0 {
            Err(FocusError::BrokenFocusChain)
        } else {
            let id = node.focus@[0];
            let i = index_of_id(node.nodes@, id);
            let k = index_of_id(node.floating_nodes@, id);
            if i >= 0 {
                resolve_from(node.nodes@[i], true, out, ws)
            } else if k >= 0 {
                resolve_from(node.floating_nodes@[k], true, out, ws)
            } else {
                Err(FocusError::IncorrectFocusEntry)
            }
        }
    }
}

/// The focused location of a tree whose root is `root`.
pub open spec fn resolve(root: TreeNode) -> Result<(Seq<char>, Seq<char>, i64), FocusError> {
    resolve_from(root, false, None, None)
}

/// The node at the end of the chain of most recently focused children: the
/// first one on the way down that is flagged focused.
pub open spec fn focus_target(node: TreeNode) -> Option<TreeNode>
    decreases node,
{
    if node.focused {
        Some(node)
    } else if node.focus@.len() == 0 {
        None
    } else {
        let id = node.focus@[0];
        let i = index_of_id(node.nodes@, id);
        let k = index_of_id(node.floating_nodes@, id);
        if i >= 0 {
            focus_target(node.nodes@[i])
        } else if k >= 0 {
            focus_target(node.floating_nodes@[k])
        } else {
            None
        }
    }
}

fn resolve_exec(
    node: &TreeNode,
    record: bool,
    output: Option<String>,
    workspace: Option<String>,
) -> (r: Result<FocusLocation, FocusError>)
    ensures
        match r {
            Ok(l) => resolve_from(*node, record, opt_view(output), opt_view(workspace)) == Ok::<
                (Seq<char>, Seq<char>, i64),
                FocusError,
            >((l.output@, l.workspace@, l.container)),
            Err(e) => resolve_from(*node, record, opt_view(output), opt_view(workspace)) == Err::<
                (Seq<char>, Seq<char>, i64),
                FocusError,
            >(e),
        },
    decreases *node,
{
    let mut out = output;
    let mut ws = workspace;
    if record {
        match node.kind {
            NodeKind::Output => match &node.name {
                Some(n) => {
                    out = Some(n.clone());
                },
                None => {
                    return Err(FocusError::UnnamedOutput);
                },
            },
            NodeKind::Workspace => match &node.name {
                Some(n) => {
                    ws = Some(n.clone());
                },
                None => {
                    return Err(FocusError::UnnamedWorkspace);
                },
            },
            _ => {},
        }
    }
    if node.focused {
        match (out, ws) {
            (None, _) => Err(FocusError::OutputNameNotFound),
            (Some(_), None) => Err(FocusError::WorkspaceNameNotFound),
            (Some(o), Some(w)) => Ok(FocusLocation { output: o, workspace: w, container: node.id }),
        }
    } else if node.focus.len() == 0 {
        Err(FocusError::BrokenFocusChain)
    } else {
        let id = node.focus[0];
        match position_of_id(&node.nodes, id) {
            Some(i) => resolve_exec(&node.nodes[i], true, out, ws),
            None => match position_of_id(&node.floating_nodes, id) {
                Some(k) => resolve_exec(&node.floating_nodes[k], true, out, ws),
                None => Err(FocusError::IncorrectFocusEntry),
            },
        }
    }
}

/// Follows the chain of most recently focused children from the root down to
/// the focused node, and reports the last output and workspace passed on the
/// way together with the focused node's id.
pub fn focused(root: &TreeNode) -> (r: Result<FocusLocation, FocusError>)
    ensures
        match r {
            Ok(l) => resolve(*root) == Ok::<(Seq<char>, Seq<char>, i64), FocusError>(
                (l.output@, l.workspace@, l.container),
            ),
            Err(e) => resolve(*root) == Err::<(Seq<char>, Seq<char>, i64), FocusError>(e),
        },
{
    resolve_exec(root, false, None, None)
}

proof fn lemma_resolve_from_target(
    node: TreeNode,
    record: bool,
    output: Option<Seq<char>>,
    workspace: Option<Seq<char>>,
)
    requires
        resolve_from(node, record, output, workspace) is Ok,
    ensures
        focus_target(node) is Some,
        focus_target(node)->Some_0.focused,
        focus_target(node)->Some_0.id == resolve_from(node, record, output, workspace)->Ok_0.2,
    decreases node,
{
    if !node.focused {
        let id = node.focus@[0];
        let i = index_of_id(node.nodes@, id);
        let k = index_of_id(node.floating_nodes@, id);
        let out = if record && node.kind == NodeKind::Output {
            opt_view(node.name)
        } else {
            output
        };
        let ws = if record && node.kind == NodeKind::Workspace {
            opt_view(node.name)
        } else {
            workspace
        };
        if i >= 0 {
            lemma_resolve_from_target(node.nodes@[i], true, out, ws);
        } else {
            lemma_resolve_from_target(node.floating_nodes@[k], true, out, ws);
        }
    }
}

/// When the focus resolves, the container it reports is the node flagged
/// focused at the end of the chain of most recently focused children.
pub proof fn lemma_resolved_is_focus_target(root: TreeNode)
    requires
        resolve(root) is Ok,
    ensures
        focus_target(root) is Some,
        focus_target(root)->Some_0.focused,
        focus_target(root)->Some_0.id == resolve(root)->Ok_0.2,
{
    lemma_resolve_from_target(root, false, None, None);
}

/// A node counts as focused, in the sense that the swap strategy tests, exactly
/// when the walk down its chain of most recently focused children reaches a
/// node flagged focused: the node that the resolver reports.
pub proof fn lemma_is_focused_iff_target(node: TreeNode)
    ensures
        is_focused_spec(node) == (focus_target(node) is Some),
    decreases node,
{
    if !node.focused && node.focus@.len() > 0 {
        let id = node.focus@[0];
        let i = index_of_id(node.nodes@, id);
        let k = index_of_id(node.floating_nodes@, id);
        if i >= 0 {
            lemma_is_focused_iff_target(node.nodes@[i]);
        } else if k >= 0 {
            lemma_is_focused_iff_target(node.floating_nodes@[k]);
        }
    }
}

} // verus!
