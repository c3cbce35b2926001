//! The tree of dependencies around a package.
//!
//! The tree is grown breadth first from the package asked for: forward
//! along what a package needs and can use, backward along what needs and
//! can use it, or both ways. Every package is a node once; every pair of
//! packages is joined by at most one edge in each direction. The growth
//! stops at the depth asked for, and at a number of nodes beyond which a
//! tree is of no use to a reader.

use vstd::prelude::*;
use vstd::string::*;

use crate::callbacks::{reason_name, reason_to_string};
use crate::config::same_text;
use crate::engine::PackageReason;
use crate::events::text_of;
use crate::text::{concat3, decimal, occurs_in, str_contains, views};

verus! {

/// The number of nodes from which on the tree is grown no further.
pub const MAX_NODES: usize = 500;

/// A package of the databases, with what it needs and what needs it.
#[derive(Debug, Clone, PartialEq, Eq)]
pub struct GraphPackage {
    pub name: String,
    pub version: String,
    /// The reason for which the package is installed, where it is.
    pub reason: Option<PackageReason>,
    /// The repository that offers the package, where one does.
    pub repository: Option<String>,
    pub depends: Vec<String>,
    pub optdepends: Vec<String>,
    pub required_by: Vec<String>,
    pub optional_for: Vec<String>,
}

/// A node of the tree.
#[derive(Debug, Clone, PartialEq, Eq)]
pub struct DependencyNode {
    pub id: String,
    pub name: String,
    pub version: String,
    pub depth: u32,
    pub installed: bool,
    pub reason: Option<String>,
    pub repository: Option<String>,
}

/// An edge of the tree.
#[derive(Debug, Clone, PartialEq, Eq)]
pub struct DependencyEdge {
    pub source: String,
    pub target: String,
    pub edge_type: String,
}

/// The tree as the caller is told of it.
#[derive(Debug, Clone, PartialEq, Eq)]
pub struct DependencyTreeResponse {
    pub nodes: Vec<DependencyNode>,
    pub edges: Vec<DependencyEdge>,
    pub root: String,
    pub max_depth_reached: bool,
    pub warnings: Vec<String>,
}

/// The mathematical content of a [`DependencyNode`]; the name is the
/// identity.
pub struct NodeView {
    pub name: Seq<char>,
    pub version: Seq<char>,
    pub depth: u32,
    pub installed: bool,
    pub reason: Option<Seq<char>>,
    pub repository: Option<Seq<char>>,
}

/// The mathematical content of a [`DependencyEdge`].
pub struct EdgeView {
    pub source: Seq<char>,
    pub target: Seq<char>,
    pub edge_type: Seq<char>,
}

/// The mathematical content of a tree while it grows.
pub struct TreeView {
    pub nodes: Seq<NodeView>,
    pub edges: Seq<EdgeView>,
    pub warnings: Seq<Seq<char>>,
    pub max_depth_reached: bool,
}

/// The mathematical content of a node.
pub open spec fn node_view(n: DependencyNode) -> NodeView {
    NodeView {
        name: n.name@,
        version: n.version@,
        depth: n.depth,
        installed: n.installed,
        reason: text_of(n.reason),
        repository: text_of(n.repository),
    }
}

/// The mathematical content of an edge.
pub open spec fn edge_view(e: DependencyEdge) -> EdgeView {
    EdgeView { source: e.source@, target: e.target@, edge_type: e.edge_type@ }
}

/// The contents of a list of nodes, element by element.
pub open spec fn node_views(v: Seq<DependencyNode>) -> Seq<NodeView> {
    Seq::new(v.len(), |i: int| node_view(v[i]))
}

/// The contents of a list of edges, element by element.
pub open spec fn edge_views(v: Seq<DependencyEdge>) -> Seq<EdgeView> {
    Seq::new(v.len(), |i: int| edge_view(v[i]))
}

/// The index of the first package with the name `name`, or -1.
pub open spec fn found_at(packages: Seq<GraphPackage>, name: Seq<char>, from: int) -> int
    decreases packages.len() - from,
{
    if from < 0 || from >= packages.len() {
        -1
    } else if packages[from].name@ == name {
        from
    } else {
        found_at(packages, name, from + 1)
    }
}

/// Whether the tree has a node with the name `name`.
pub open spec fn has_node(nodes: Seq<NodeView>, name: Seq<char>) -> bool {
    exists|i: int| 0 <= i < nodes.len() && (#[trigger] nodes[i]).name == name
}

/// Whether the tree has an edge from `source` to `target`.
pub open spec fn has_edge(edges: Seq<EdgeView>, source: Seq<char>, target: Seq<char>) -> bool {
    exists|i: int|
        0 <= i < edges.len() && (#[trigger] edges[i]).source == source && edges[i].target
            == target
}

/// Whether some warning mentions the name `name`.
pub open spec fn warned_of(warnings: Seq<Seq<char>>, name: Seq<char>) -> bool {
    exists|i: int| 0 <= i < warnings.len() && occurs_in(#[trigger] warnings[i], name)
}

/// The node for the package `name` at the depth `depth`: what the
/// databases know of it, or an unknown version where they know nothing.
pub open spec fn node_for(packages: Seq<GraphPackage>, name: Seq<char>, depth: u32) -> NodeView {
    let at = found_at(packages, name, 0);
    if at >= 0 {
        let p = packages[at];
        NodeView {
            name,
            version: p.version@,
            depth,
            installed: p.reason is Some,
            reason: match p.reason {
                Some(r) => Some(reason_name(r)),
                None => None,
            },
            repository: text_of(p.repository),
        }
    } else {
        NodeView {
            name,
            version: "unknown"@,
            depth,
            installed: false,
            reason: None,
            repository: None,
        }
    }
}

/// Whether an edge of this kind points from the other package to the one
/// that is looked at.
pub open spec fn points_back(edge_type: Seq<char>) -> bool {
    edge_type == "required_by"@ || edge_type == "optional_for"@
}

/// The tree after the package `other` was met as a neighbour of `name`: the
/// edge between the two is added unless the tree has one in that
/// direction; the package becomes a node at the depth `depth` unless it is
/// one; a package that the databases do not know is warned of once.
pub open spec fn met(
    t: TreeView,
    packages: Seq<GraphPackage>,
    other: Seq<char>,
    name: Seq<char>,
    edge_type: Seq<char>,
    depth: u32,
) -> TreeView {
    let (source, target) = if points_back(edge_type) {
        (other, name)
    } else {
        (name, other)
    };
    let edges = if has_edge(t.edges, source, target) {
        t.edges
    } else {
        t.edges.push(EdgeView { source, target, edge_type })
    };
    if has_node(t.nodes, other) {
        TreeView { edges, ..t }
    } else {
        TreeView {
            edges,
            nodes: t.nodes.push(node_for(packages, other, depth)),
            warnings: if found_at(packages, other, 0) < 0 && !warned_of(t.warnings, other) {
                t.warnings.push("Package '"@ + other + "' not found in databases"@)
            } else {
                t.warnings
            },
            ..t
        }
    }
}

/// The tree after the packages `others` were met, in order.
pub open spec fn met_all(
    t: TreeView,
    packages: Seq<GraphPackage>,
    others: Seq<Seq<char>>,
    name: Seq<char>,
    edge_type: Seq<char>,
    depth: u32,
) -> TreeView
    decreases others.len(),
{
    if others.len() == 0 {
        t
    } else {
        met(
            met_all(t, packages, others.drop_last(), name, edge_type, depth),
            packages,
            others.last(),
            name,
            edge_type,
            depth,
        )
    }
}

/// The tree after the neighbours of the package `p` were met, in the
/// directions asked for.
pub open spec fn expanded(
    t: TreeView,
    packages: Seq<GraphPackage>,
    p: GraphPackage,
    name: Seq<char>,
    depth: u32,
    direction: Seq<char>,
) -> TreeView {
    let forward = direction == "forward"@ || direction == "both"@;
    let reverse = direction == "reverse"@ || direction == "both"@;
    let a = if forward {
        met_all(
            met_all(t, packages, views(p.depends@), name, "depends"@, depth),
            packages,
            views(p.optdepends@),
            name,
            "optdepends"@,
            depth,
        )
    } else {
        t
    };
    if reverse {
        met_all(
            met_all(a, packages, views(p.required_by@), name, "required_by"@, depth),
            packages,
            views(p.optional_for@),
            name,
            "optional_for"@,
            depth,
        )
    } else {
        a
    }
}

/// The text that warns of a tree that was cut.
pub open spec fn truncation_warning() -> Seq<char> {
    "Graph truncated at "@ + decimal(MAX_NODES as nat) + " nodes for performance"@
}

/// The tree grown from the node at the place `at` on. The nodes are looked
/// at in the order in which they came into the tree. A node at the depth
/// asked for is not grown from. Once the tree has `MAX_NODES` nodes, the
/// first node that would be grown from ends the growth with a warning.
pub open spec fn grown(
    t: TreeView,
    packages: Seq<GraphPackage>,
    at: int,
    max_depth: u32,
    direction: Seq<char>,
) -> TreeView
    decreases
        (if t.nodes.len() < MAX_NODES {
            MAX_NODES - at
        } else {
            0
        }),
        t.nodes.len() - at,
{
    if at < 0 || at >= t.nodes.len() {
        t
    } else {
        let node = t.nodes[at];
        if node.depth >= max_depth {
            grown(TreeView { max_depth_reached: true, ..t }, packages, at + 1, max_depth, direction)
        } else if t.nodes.len() >= MAX_NODES {
            TreeView { warnings: t.warnings.push(truncation_warning()), ..t }
        } else {
            let found = found_at(packages, node.name, 0);
            if found < 0 {
                grown(t, packages, at + 1, max_depth, direction)
            } else {
                let next = expanded(
                    t,
                    packages,
                    packages[found],
                    node.name,
                    (node.depth + 1) as u32,
                    direction,
                );
                if next.nodes.len() >= t.nodes.len() {
                    grown(next, packages, at + 1, max_depth, direction)
                } else {
                    t
                }
            }
        }
    }
}

/// The tree around the package `name`, or nothing where the databases do
/// not know the package.
pub open spec fn tree_of(
    packages: Seq<GraphPackage>,
    name: Seq<char>,
    max_depth: u32,
    direction: Seq<char>,
) -> Option<TreeView> {
    if found_at(packages, name, 0) < 0 {
        None
    } else {
        Some(
            grown(
                TreeView {
                    nodes: seq![node_for(packages, name, 0)],
                    edges: Seq::empty(),
                    warnings: Seq::empty(),
                    max_depth_reached: false,
                },
                packages,
                0,
                max_depth,
                direction,
            ),
        )
    }
}

/// Meeting a package never takes a node out of the tree.
pub proof fn lemma_met_keeps_nodes(
    t: TreeView,
    packages: Seq<GraphPackage>,
    other: Seq<char>,
    name: Seq<char>,
    edge_type: Seq<char>,
    depth: u32,
)
    ensures
        met(t, packages, other, name, edge_type, depth).nodes.len() >= t.nodes.len(),
        met(t, packages, other, name, edge_type, depth).nodes.take(t.nodes.len() as int)
            == t.nodes,
{
    let after = met(t, packages, other, name, edge_type, depth);
    assert(after.nodes.take(t.nodes.len() as int) =~= t.nodes);
}

/// Meeting packages never takes a node out of the tree.
pub proof fn lemma_met_all_keeps_nodes(
    t: TreeView,
    packages: Seq<GraphPackage>,
    others: Seq<Seq<char>>,
    name: Seq<char>,
    edge_type: Seq<char>,
    depth: u32,
)
    ensures
        met_all(t, packages, others, name, edge_type, depth).nodes.len() >= t.nodes.len(),
        met_all(t, packages, others, name, edge_type, depth).nodes.take(t.nodes.len() as int)
            == t.nodes,
    decreases others.len(),
{
    if others.len() > 0 {
        let before = met_all(t, packages, others.drop_last(), name, edge_type, depth);
        lemma_met_all_keeps_nodes(t, packages, others.drop_last(), name, edge_type, depth);
        lemma_met_keeps_nodes(before, packages, others.last(), name, edge_type, depth);
        let after = met(before, packages, others.last(), name, edge_type, depth);
        assert(after.nodes.take(t.nodes.len() as int) =~= before.nodes.take(
            t.nodes.len() as int,
        ));
    } else {
        assert(t.nodes.take(t.nodes.len() as int) =~= t.nodes);
    }
}

/// Growing from a package never takes a node out of the tree.
pub proof fn lemma_expanded_keeps_nodes(
    t: TreeView,
    packages: Seq<GraphPackage>,
    p: GraphPackage,
    name: Seq<char>,
    depth: u32,
    direction: Seq<char>,
)
    ensures
        expanded(t, packages, p, name, depth, direction).nodes.len() >= t.nodes.len(),
        expanded(t, packages, p, name, depth, direction).nodes.take(t.nodes.len() as int)
            == t.nodes,
{
    let forward = direction == "forward"@ || direction == "both"@;
    let reverse = direction == "reverse"@ || direction == "both"@;
    let a1 = met_all(t, packages, views(p.depends@), name, "depends"@, depth);
    let a2 = met_all(a1, packages, views(p.optdepends@), name, "optdepends"@, depth);
    lemma_met_all_keeps_nodes(t, packages, views(p.depends@), name, "depends"@, depth);
    lemma_met_all_keeps_nodes(a1, packages, views(p.optdepends@), name, "optdepends"@, depth);
    assert(a2.nodes.take(t.nodes.len() as int) =~= a1.nodes.take(t.nodes.len() as int));
    let a = if forward {
        a2
    } else {
        t
    };
    assert(a.nodes.take(t.nodes.len() as int) =~= t.nodes);
    let b1 = met_all(a, packages, views(p.required_by@), name, "required_by"@, depth);
    let b2 = met_all(b1, packages, views(p.optional_for@), name, "optional_for"@, depth);
    lemma_met_all_keeps_nodes(a, packages, views(p.required_by@), name, "required_by"@, depth);
    lemma_met_all_keeps_nodes(b1, packages, views(p.optional_for@), name, "optional_for"@, depth);
    assert(b1.nodes.take(t.nodes.len() as int) =~= a.nodes.take(t.nodes.len() as int));
    assert(b2.nodes.take(t.nodes.len() as int) =~= b1.nodes.take(t.nodes.len() as int));
}

/// The state of a tree while it grows.
struct Tree {
    nodes: Vec<DependencyNode>,
    edges: Vec<DependencyEdge>,
    warnings: Vec<String>,
    max_depth_reached: bool,
}

impl View for Tree {
    type V = TreeView;

    closed spec fn view(&self) -> TreeView {
        TreeView {
            nodes: node_views(self.nodes@),
            edges: edge_views(self.edges@),
            warnings: views(self.warnings@),
            max_depth_reached: self.max_depth_reached,
        }
    }
}

/// The index of the first package with the name `name`.
fn lookup(packages: &Vec<GraphPackage>, name: &str) -> (r: Option<usize>)
    ensures
        match r {
            Some(i) => i < packages@.len() && found_at(packages@, name@, 0) == i,
            None => found_at(packages@, name@, 0) == -1,
        },
{
    let mut i: usize = 0;
    while i < packages.len()
        invariant
            i <= packages.len(),
            found_at(packages@, name@, 0) == found_at(packages@, name@, i as int),
        decreases packages.len() - i,
    {
        if same_text(packages[i].name.as_str(), name) {
            return Some(i);
        }
        i += 1;
    }
    None
}

/// The node for the package `name` at the depth `depth`.
fn make_node(packages: &Vec<GraphPackage>, name: &str, depth: u32) -> (n: DependencyNode)
    ensures
        node_view(n) == node_for(packages@, name@, depth),
        n.id@ == name@,
{
    match lookup(packages, name) {
        Some(at) => {
            let p = &packages[at];
            DependencyNode {
                id: String::from_str(name),
                name: String::from_str(name),
                version: p.version.clone(),
                depth,
                installed: p.reason.is_some(),
                reason: match p.reason {
                    Some(r) => Some(String::from_str(reason_to_string(r))),
                    None => None,
                },
                repository: p.repository.clone(),
            }
        },
        None => DependencyNode {
            id: String::from_str(name),
            name: String::from_str(name),
            version: String::from_str("unknown"),
            depth,
            installed: false,
            reason: None,
            repository: None,
        },
    }
}

impl Tree {
    /// Whether the tree has a node with the name `name`.
    fn knows(&self, name: &str) -> (r: bool)
        ensures
            r == has_node(self@.nodes, name@),
    {
        let mut i: usize = 0;
        while i < self.nodes.len()
            invariant
                i <= self.nodes.len(),
                forall|j: int| 0 <= j < i ==> (#[trigger] self@.nodes[j]).name != name@,
            decreases self.nodes.len() - i,
        {
            if same_text(self.nodes[i].name.as_str(), name) {
                assert(self@.nodes[i as int].name == name@);
                return true;
            }
            i += 1;
        }
        false
    }

    /// Whether the tree has an edge from `source` to `target`.
    fn joins(&self, source: &str, target: &str) -> (r: bool)
        ensures
            r == has_edge(self@.edges, source@, target@),
    {
        let mut i: usize = 0;
        while i < self.edges.len()
            invariant
                i <= self.edges.len(),
                forall|j: int|
                    0 <= j < i ==> !((#[trigger] self@.edges[j]).source == source@
                        && self@.edges[j].target == target@),
            decreases self.edges.len() - i,
        {
            if same_text(self.edges[i].source.as_str(), source) && same_text(
                self.edges[i].target.as_str(),
                target,
            ) {
                assert(self@.edges[i as int].source == source@);
                return true;
            }
            i += 1;
        }
        false
    }

    /// Whether some warning mentions the name `name`.
    fn warned(&self, name: &str) -> (r: bool)
        ensures
            r == warned_of(self@.warnings, name@),
    {
        let mut i: usize = 0;
        while i < self.warnings.len()
            invariant
                i <= self.warnings.len(),
                forall|j: int| 0 <= j < i ==> !occurs_in(#[trigger] self@.warnings[j], name@),
            decreases self.warnings.len() - i,
        {
            if str_contains(self.warnings[i].as_str(), name) {
                assert(occurs_in(self@.warnings[i as int], name@));
                return true;
            }
            i += 1;
        }
        false
    }

    /// Meets the package `other` as a neighbour of `name`.
    fn meet(
        &mut self,
        packages: &Vec<GraphPackage>,
        other: &str,
        name: &str,
        edge_type: &str,
        depth: u32,
    )
        ensures
            final(self)@ == met(old(self)@, packages@, other@, name@, edge_type@, depth),
    {
        let back = same_text(edge_type, "required_by") || same_text(edge_type, "optional_for");
        let (source, target) = if back {
            (other, name)
        } else {
            (name, other)
        };
        if !self.joins(source, target) {
            let ghost before = edge_views(self.edges@);
            let edge = DependencyEdge {
                source: String::from_str(source),
                target: String::from_str(target),
                edge_type: String::from_str(edge_type),
            };
            self.edges.push(edge);
            assert(edge_views(self.edges@) =~= before.push(edge_view(edge)));
        }
        if self.knows(other) {
            return ;
        }
        if lookup(packages, other).is_none() && !self.warned(other) {
            let ghost before = views(self.warnings@);
            let text = concat3("Package '", other, "' not found in databases");
            self.warnings.push(text);
            assert(views(self.warnings@) =~= before.push(text@));
        }
        let ghost before = node_views(self.nodes@);
        let node = make_node(packages, other, depth);
        self.nodes.push(node);
        assert(node_views(self.nodes@) =~= before.push(node_view(node)));
    }

    /// Meets the packages `others` as neighbours of `name`, in order.
    fn meet_all(
        &mut self,
        packages: &Vec<GraphPackage>,
        others: &Vec<String>,
        name: &str,
        edge_type: &str,
        depth: u32,
    )
        ensures
            final(self)@ == met_all(
                old(self)@,
                packages@,
                views(others@),
                name@,
                edge_type@,
                depth,
            ),
    {
        let mut i: usize = 0;
        let ghost all = views(others@);
        assert(all.take(0) =~= Seq::<Seq<char>>::empty());
        while i < others.len()
            invariant
                i <= others.len(),
                all == views(others@),
                self@ == met_all(old(self)@, packages@, all.take(i as int), name@, edge_type@, depth),
            decreases others.len() - i,
        {
            proof {
                let next = all.take(i + 1);
                assert(next.drop_last() =~= all.take(i as int));
                assert(next.last() == others@[i as int]@);
            }
            self.meet(packages, others[i].as_str(), name, edge_type, depth);
            i += 1;
        }
        assert(all.take(all.len() as int) =~= all);
    }
}

/// The content of a grown tree, or of the rejection of the request.
pub open spec fn tree_result(r: Result<DependencyTreeResponse, String>) -> Result<
    (TreeView, Seq<char>),
    Seq<char>,
> {
    match r {
        Ok(t) => Ok(
            (
                TreeView {
                    nodes: node_views(t.nodes@),
                    edges: edge_views(t.edges@),
                    warnings: views(t.warnings@),
                    max_depth_reached: t.max_depth_reached,
                },
                t.root@,
            ),
        ),
        Err(e) => Err(e@),
    }
}

/// Grows the tree of dependencies around the package `name` to the depth
/// `depth`, in the direction `direction`. The packages of the databases
/// are given with the installed ones first, so that a name stands for the
/// installed package where there is one. A package that the databases do
/// not know has no tree.
pub fn get_dependency_tree(packages: &Vec<GraphPackage>, name: &str, depth: u32, direction: &str) -> (r:
    Result<DependencyTreeResponse, String>)
    ensures
        tree_result(r) == (match tree_of(packages@, name@, depth, direction@) {
            Some(t) => Ok::<(TreeView, Seq<char>), Seq<char>>((t, name@)),
            None => Err("Package '"@ + name@ + "' not found"@),
        }),
{
    if lookup(packages, name).is_none() {
        return Err(concat3("Package '", name, "' not found"));
    }
    let root = make_node(packages, name, 0);
    let mut tree = Tree {
        nodes: Vec::new(),
        edges: Vec::new(),
        warnings: Vec::new(),
        max_depth_reached: false,
    };
    tree.nodes.push(root);
    proof {
        assert(tree@.nodes =~= seq![node_for(packages@, name@, 0)]);
        assert(tree@.edges =~= Seq::empty());
        assert(tree@.warnings =~= Seq::empty());
    }
    let ghost target = tree_of(packages@, name@, depth, direction@)->0;
    let forward = same_text(direction, "forward") || same_text(direction, "both");
    let reverse = same_text(direction, "reverse") || same_text(direction, "both");
    let mut at: usize = 0;
    loop
        invariant_except_break
            target == grown(tree@, packages@, at as int, depth, direction@),
        invariant
            at <= tree.nodes@.len(),
            forward == (direction@ == "forward"@ || direction@ == "both"@),
            reverse == (direction@ == "reverse"@ || direction@ == "both"@),
        ensures
            tree@ == target,
        decreases
            (if tree.nodes@.len() < MAX_NODES {
                MAX_NODES - at
            } else {
                0
            }),
            tree.nodes@.len() - at,
    {
        if at >= tree.nodes.len() {
            break ;
        }
        let node_depth = tree.nodes[at].depth;
        assert(tree@.nodes[at as int].depth == node_depth);
        if node_depth >= depth {
            tree.max_depth_reached = true;
            at += 1;
            continue ;
        }
        if tree.nodes.len() >= MAX_NODES {
            let ghost before = views(tree.warnings@);
            let n = crate::text::decimal_string(MAX_NODES as u64);
            let text = concat3("Graph truncated at ", n.as_str(), " nodes for performance");
            tree.warnings.push(text);
            assert(views(tree.warnings@) =~= before.push(text@));
            break ;
        }
        let node_name = tree.nodes[at].name.clone();
        assert(tree@.nodes[at as int].name == node_name@);
        match lookup(packages, node_name.as_str()) {
            Some(found) => {
                let p = &packages[found];
                let next_depth: u32 = node_depth + 1;
                let ghost before = tree@;
                proof {
                    lemma_expanded_keeps_nodes(
                        before,
                        packages@,
                        packages@[found as int],
                        node_name@,
                        next_depth,
                        direction@,
                    );
                }
                if forward {
                    tree.meet_all(packages, &p.depends, node_name.as_str(), "depends", next_depth);
                    tree.meet_all(
                        packages,
                        &p.optdepends,
                        node_name.as_str(),
                        "optdepends",
                        next_depth,
                    );
                }
                if reverse {
                    tree.meet_all(
                        packages,
                        &p.required_by,
                        node_name.as_str(),
                        "required_by",
                        next_depth,
                    );
                    tree.meet_all(
                        packages,
                        &p.optional_for,
                        node_name.as_str(),
                        "optional_for",
                        next_depth,
                    );
                }
                assert(tree@ == expanded(
                    before,
                    packages@,
                    packages@[found as int],
                    node_name@,
                    next_depth,
                    direction@,
                ));
            },
            None => {},
        }
        at += 1;
    }
    Ok(
        DependencyTreeResponse {
            nodes: tree.nodes,
            edges: tree.edges,
            root: String::from_str(name),
            max_depth_reached: tree.max_depth_reached,
            warnings: tree.warnings,
        },
    )
}

/// A node is never grown from beyond the depth asked for: meeting a
/// package from a node adds nodes at exactly the depth behind that node's.
pub proof fn lemma_met_adds_at_depth(
    t: TreeView,
    packages: Seq<GraphPackage>,
    other: Seq<char>,
    name: Seq<char>,
    edge_type: Seq<char>,
    depth: u32,
)
    ensures
        ({
            let after = met(t, packages, other, name, edge_type, depth);
            &&& after.nodes.len() <= t.nodes.len() + 1
            &&& after.nodes.len() == t.nodes.len() + 1 ==> after.nodes.last().depth == depth
                && after.nodes.last().name == other && !has_node(t.nodes, other)
            &&& after.edges.len() <= t.edges.len() + 1
        }),
{
}

} // verus!
