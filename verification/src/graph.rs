//! The graph of an expression: a node for each operation, an edge from each
//! operation to each of its operands, for drawing with GraphViz.

use crate::ast::{DisplayFormat, Join, RelationalOp};
use crate::error::Error;
use crate::format::{
    attribute_text, Format, natural_join_text, projected_attribute_text, rename_pair_texts,
    render_attributes, render_projected_attributes, render_rename_pairs, render_term,
    set_operator_text, term_text,
};
use crate::text::joined;
use vstd::prelude::*;

verus! {

/// A node of the graph of an expression.
#[derive(Clone, Debug)]
pub struct GraphNode {
    pub id: String,
    pub label: String,
    pub filled: bool,
}

/// An edge of the graph of an expression, from an operation to an operand.
#[derive(Clone, Debug)]
pub struct GraphEdge {
    pub from: String,
    pub to: String,
}

/// The graph of an expression.
#[derive(Clone, Debug)]
pub struct OperatorGraph {
    pub root: String,
    pub nodes: Vec<GraphNode>,
    pub edges: Vec<GraphEdge>,
}

/// The mathematical content of a node.
pub ghost struct NodeView {
    pub id: Seq<char>,
    pub label: Seq<char>,
    pub filled: bool,
}

/// The mathematical content of an edge.
pub ghost struct EdgeView {
    pub from: Seq<char>,
    pub to: Seq<char>,
}

/// The mathematical content of a graph.
pub ghost struct GraphView {
    pub root: Seq<char>,
    pub nodes: Seq<NodeView>,
    pub edges: Seq<EdgeView>,
}

impl View for GraphNode {
    type V = NodeView;

    open spec fn view(&self) -> NodeView {
        NodeView { id: self.id@, label: self.label@, filled: self.filled }
    }
}

impl View for GraphEdge {
    type V = EdgeView;

    open spec fn view(&self) -> EdgeView {
        EdgeView { from: self.from@, to: self.to@ }
    }
}

impl View for OperatorGraph {
    type V = GraphView;

    open spec fn view(&self) -> GraphView {
        GraphView {
            root: self.root@,
            nodes: self.nodes@.map_values(|n: GraphNode| n@),
            edges: self.edges@.map_values(|e: GraphEdge| e@),
        }
    }
}

/// The number of operations in an expression, references to relations
/// included.
pub open spec fn node_count(op: RelationalOp) -> nat
    decreases op,
{
    match op {
        RelationalOp::Relation(_) => 1,
        RelationalOp::SetOperation(s) => 1 + node_count(*s.lhs) + node_count(*s.rhs),
        RelationalOp::Selection(s) => 1 + node_count(*s.rhs),
        RelationalOp::Projection(s) => 1 + node_count(*s.rhs),
        RelationalOp::Rename(s) => 1 + node_count(*s.rhs),
        RelationalOp::Order(s) => 1 + node_count(*s.rhs),
        RelationalOp::Group(s) => 1 + node_count(*s.rhs),
        RelationalOp::Join(Join::Natural(s)) => 1 + node_count(*s.lhs) + node_count(*s.rhs),
        RelationalOp::Join(Join::Theta(s)) => 1 + node_count(*s.lhs) + node_count(*s.rhs),
    }
}

/// The label of the node of an operation: the name of a relation; the symbol
/// of a set operation or join; for the others their symbol and, on a second
/// line, their arguments.
pub open spec fn node_label(op: RelationalOp) -> Seq<char> {
    match op {
        RelationalOp::Relation(n) => n@,
        RelationalOp::SetOperation(s) => set_operator_text(s.op, DisplayFormat::ToStringUnicode),
        RelationalOp::Selection(s) => "\u{3c3}\n"@ + term_text(
            s.criteria,
            DisplayFormat::ToStringUnicode,
        ),
        RelationalOp::Projection(s) => "\u{3a0}\n"@ + joined(
            s.attributes@.map_values(|a: crate::ast::ProjectedAttribute| projected_attribute_text(a)),
            ", "@,
        ),
        RelationalOp::Rename(s) => "\u{3c1}\n"@ + joined(rename_pair_texts(s.renames@), ", "@),
        RelationalOp::Order(s) => "\u{3c4}\n"@ + joined(
            s.attributes@.map_values(|a: crate::ast::Attribute| attribute_text(a)),
            ", "@,
        ),
        RelationalOp::Group(s) => "\u{3b3}\n"@ + joined(
            s.attributes@.map_values(|a: crate::ast::Attribute| attribute_text(a)),
            ", "@,
        ),
        RelationalOp::Join(Join::Natural(_)) => natural_join_text(DisplayFormat::ToStringUnicode),
        RelationalOp::Join(Join::Theta(s)) => natural_join_text(DisplayFormat::ToStringUnicode)
            + "\n"@ + term_text(s.criteria, DisplayFormat::ToStringUnicode),
    }
}

/// The node of an operation under the identifier `id`. Only the node of a
/// relation is filled.
pub open spec fn node_of(op: RelationalOp, id: Seq<char>) -> NodeView {
    NodeView { id, label: node_label(op), filled: op is Relation }
}

/// The graph of an operation with one operand.
pub open spec fn unary_graph(node: NodeView, operand: GraphView) -> GraphView {
    GraphView {
        root: node.id,
        nodes: seq![node] + operand.nodes,
        edges: seq![EdgeView { from: node.id, to: operand.root }] + operand.edges,
    }
}

/// The graph of an operation with two operands.
pub open spec fn binary_graph(node: NodeView, lhs: GraphView, rhs: GraphView) -> GraphView {
    GraphView {
        root: node.id,
        nodes: seq![node] + lhs.nodes + rhs.nodes,
        edges: seq![
            EdgeView { from: node.id, to: lhs.root },
            EdgeView { from: node.id, to: rhs.root },
        ] + lhs.edges + rhs.edges,
    }
}

/// The graph of an operation whose node has the identifier `id`. The node of
/// the left or only operand has that identifier followed by `0`, the node of
/// the right operand that identifier followed by `1`. The node of an
/// operation comes before the nodes of its operands, those of the left before
/// those of the right, and so do the edges.
pub open spec fn graph_of(op: RelationalOp, id: Seq<char>) -> GraphView
    decreases op,
{
    match op {
        RelationalOp::Relation(_) => GraphView {
            root: id,
            nodes: seq![node_of(op, id)],
            edges: Seq::empty(),
        },
        RelationalOp::SetOperation(s) => binary_graph(
            node_of(op, id),
            graph_of(*s.lhs, id + "0"@),
            graph_of(*s.rhs, id + "1"@),
        ),
        RelationalOp::Selection(s) => unary_graph(node_of(op, id), graph_of(*s.rhs, id + "0"@)),
        RelationalOp::Projection(s) => unary_graph(node_of(op, id), graph_of(*s.rhs, id + "0"@)),
        RelationalOp::Rename(s) => unary_graph(node_of(op, id), graph_of(*s.rhs, id + "0"@)),
        RelationalOp::Order(s) => unary_graph(node_of(op, id), graph_of(*s.rhs, id + "0"@)),
        RelationalOp::Group(s) => unary_graph(node_of(op, id), graph_of(*s.rhs, id + "0"@)),
        RelationalOp::Join(Join::Natural(s)) => binary_graph(
            node_of(op, id),
            graph_of(*s.lhs, id + "0"@),
            graph_of(*s.rhs, id + "1"@),
        ),
        RelationalOp::Join(Join::Theta(s)) => binary_graph(
            node_of(op, id),
            graph_of(*s.lhs, id + "0"@),
            graph_of(*s.rhs, id + "1"@),
        ),
    }
}

/// A graph has a node for each operation, and an edge for each but the top
/// one; its root is the node of the top operation.
pub proof fn lemma_graph_size(op: RelationalOp, id: Seq<char>)
    ensures
        graph_of(op, id).root == id,
        graph_of(op, id).nodes.len() == node_count(op),
        graph_of(op, id).edges.len() == node_count(op) - 1,
        graph_of(op, id).nodes[0] == node_of(op, id),
    decreases op,
{
    match op {
        RelationalOp::Relation(_) => {},
        RelationalOp::SetOperation(s) => {
            lemma_graph_size(*s.lhs, id + "0"@);
            lemma_graph_size(*s.rhs, id + "1"@);
        },
        RelationalOp::Selection(s) => {
            lemma_graph_size(*s.rhs, id + "0"@);
        },
        RelationalOp::Projection(s) => {
            lemma_graph_size(*s.rhs, id + "0"@);
        },
        RelationalOp::Rename(s) => {
            lemma_graph_size(*s.rhs, id + "0"@);
        },
        RelationalOp::Order(s) => {
            lemma_graph_size(*s.rhs, id + "0"@);
        },
        RelationalOp::Group(s) => {
            lemma_graph_size(*s.rhs, id + "0"@);
        },
        RelationalOp::Join(Join::Natural(s)) => {
            lemma_graph_size(*s.lhs, id + "0"@);
            lemma_graph_size(*s.rhs, id + "1"@);
        },
        RelationalOp::Join(Join::Theta(s)) => {
            lemma_graph_size(*s.lhs, id + "0"@);
            lemma_graph_size(*s.rhs, id + "1"@);
        },
    }
}

/// Whether a text begins with another.
pub open spec fn begins_with(text: Seq<char>, start: Seq<char>) -> bool {
    start.len() <= text.len() && text.subrange(0, start.len() as int) == start
}

/// Whether the identifier of every node of a graph begins with `id`.
pub open spec fn identifiers_under(graph: GraphView, id: Seq<char>) -> bool {
    forall|i: int| 0 <= i < graph.nodes.len() ==> begins_with((#[trigger] graph.nodes[i]).id, id)
}

/// Whether no two nodes of a graph have the same identifier.
pub open spec fn identifiers_distinct(graph: GraphView) -> bool {
    forall|i: int, j: int|
        0 <= i < graph.nodes.len() && 0 <= j < graph.nodes.len() && i != j ==> (
        #[trigger] graph.nodes[i]).id != (#[trigger] graph.nodes[j]).id
}

proof fn lemma_begins_with_longer(text: Seq<char>, id: Seq<char>, branch: Seq<char>)
    requires
        branch.len() == 1,
        begins_with(text, id + branch),
    ensures
        begins_with(text, id),
        text.len() > id.len(),
        text[id.len() as int] == branch[0],
{
    let longer = id + branch;
    assert(text.subrange(0, longer.len() as int) == longer);
    assert(text[id.len() as int] == text.subrange(0, longer.len() as int)[id.len() as int]);
    assert(longer[id.len() as int] == branch[0]);
    assert(text.subrange(0, id.len() as int) =~= id) by {
        assert forall|k: int| 0 <= k < id.len() implies text.subrange(0, id.len() as int)[k]
            == id[k] by {
            assert(text[k] == text.subrange(0, longer.len() as int)[k]);
            assert(longer[k] == id[k]);
        }
    }
}

proof fn lemma_unary_identifiers(node: NodeView, operand: GraphView, branch: Seq<char>)
    requires
        branch.len() == 1,
        identifiers_under(operand, node.id + branch),
        identifiers_distinct(operand),
    ensures
        identifiers_under(unary_graph(node, operand), node.id),
        identifiers_distinct(unary_graph(node, operand)),
{
    let graph = unary_graph(node, operand);
    assert(node.id.subrange(0, node.id.len() as int) =~= node.id);
    assert forall|i: int| 0 <= i < graph.nodes.len() implies begins_with(
        (#[trigger] graph.nodes[i]).id,
        node.id,
    ) && (i > 0 ==> graph.nodes[i].id.len() > node.id.len()) by {
        if i > 0 {
            assert(graph.nodes[i] == operand.nodes[i - 1]);
            lemma_begins_with_longer(operand.nodes[i - 1].id, node.id, branch);
        }
    }
    assert forall|i: int, j: int|
        0 <= i < graph.nodes.len() && 0 <= j < graph.nodes.len() && i != j implies (
    #[trigger] graph.nodes[i]).id != (#[trigger] graph.nodes[j]).id by {
        if i > 0 && j > 0 {
            assert(graph.nodes[i] == operand.nodes[i - 1]);
            assert(graph.nodes[j] == operand.nodes[j - 1]);
        }
    }
}

proof fn lemma_binary_identifiers(
    node: NodeView,
    lhs: GraphView,
    rhs: GraphView,
    left: Seq<char>,
    right: Seq<char>,
)
    requires
        left.len() == 1,
        right.len() == 1,
        left[0] != right[0],
        identifiers_under(lhs, node.id + left),
        identifiers_under(rhs, node.id + right),
        identifiers_distinct(lhs),
        identifiers_distinct(rhs),
    ensures
        identifiers_under(binary_graph(node, lhs, rhs), node.id),
        identifiers_distinct(binary_graph(node, lhs, rhs)),
{
    let graph = binary_graph(node, lhs, rhs);
    let n = lhs.nodes.len() as int;
    let at = node.id.len() as int;
    assert(node.id.subrange(0, node.id.len() as int) =~= node.id);
    assert forall|i: int| 0 <= i < graph.nodes.len() implies begins_with(
        (#[trigger] graph.nodes[i]).id,
        node.id,
    ) && (0 < i <= n ==> graph.nodes[i].id.len() > at && graph.nodes[i].id[at] == left[0]) && (i
        > n ==> graph.nodes[i].id.len() > at && graph.nodes[i].id[at] == right[0]) by {
        if 0 < i <= n {
            assert(graph.nodes[i] == lhs.nodes[i - 1]);
            lemma_begins_with_longer(lhs.nodes[i - 1].id, node.id, left);
        } else if i > n {
            assert(graph.nodes[i] == rhs.nodes[i - 1 - n]);
            lemma_begins_with_longer(rhs.nodes[i - 1 - n].id, node.id, right);
        }
    }
    assert forall|i: int, j: int|
        0 <= i < graph.nodes.len() && 0 <= j < graph.nodes.len() && i != j implies (
    #[trigger] graph.nodes[i]).id != (#[trigger] graph.nodes[j]).id by {
        if 0 < i <= n && 0 < j <= n {
            assert(graph.nodes[i] == lhs.nodes[i - 1]);
            assert(graph.nodes[j] == lhs.nodes[j - 1]);
        } else if i > n && j > n {
            assert(graph.nodes[i] == rhs.nodes[i - 1 - n]);
            assert(graph.nodes[j] == rhs.nodes[j - 1 - n]);
        }
    }
}

/// In the graph of an operation every node has an identifier of its own, and
/// each identifier begins with the identifier of the top node: so each edge
/// names exactly one operation and one of its operands.
pub proof fn law_graph_identifiers(op: RelationalOp, id: Seq<char>)
    ensures
        identifiers_under(graph_of(op, id), id),
        identifiers_distinct(graph_of(op, id)),
    decreases op,
{
    reveal_strlit("0");
    reveal_strlit("1");
    let node = node_of(op, id);
    match op {
        RelationalOp::Relation(_) => {
            assert(id.subrange(0, id.len() as int) =~= id);
        },
        RelationalOp::SetOperation(s) => {
            law_graph_identifiers(*s.lhs, id + "0"@);
            law_graph_identifiers(*s.rhs, id + "1"@);
            lemma_binary_identifiers(
                node,
                graph_of(*s.lhs, id + "0"@),
                graph_of(*s.rhs, id + "1"@),
                "0"@,
                "1"@,
            );
        },
        RelationalOp::Selection(s) => {
            law_graph_identifiers(*s.rhs, id + "0"@);
            lemma_unary_identifiers(node, graph_of(*s.rhs, id + "0"@), "0"@);
        },
        RelationalOp::Projection(s) => {
            law_graph_identifiers(*s.rhs, id + "0"@);
            lemma_unary_identifiers(node, graph_of(*s.rhs, id + "0"@), "0"@);
        },
        RelationalOp::Rename(s) => {
            law_graph_identifiers(*s.rhs, id + "0"@);
            lemma_unary_identifiers(node, graph_of(*s.rhs, id + "0"@), "0"@);
        },
        RelationalOp::Order(s) => {
            law_graph_identifiers(*s.rhs, id + "0"@);
            lemma_unary_identifiers(node, graph_of(*s.rhs, id + "0"@), "0"@);
        },
        RelationalOp::Group(s) => {
            law_graph_identifiers(*s.rhs, id + "0"@);
            lemma_unary_identifiers(node, graph_of(*s.rhs, id + "0"@), "0"@);
        },
        RelationalOp::Join(Join::Natural(s)) => {
            law_graph_identifiers(*s.lhs, id + "0"@);
            law_graph_identifiers(*s.rhs, id + "1"@);
            lemma_binary_identifiers(
                node,
                graph_of(*s.lhs, id + "0"@),
                graph_of(*s.rhs, id + "1"@),
                "0"@,
                "1"@,
            );
        },
        RelationalOp::Join(Join::Theta(s)) => {
            law_graph_identifiers(*s.lhs, id + "0"@);
            law_graph_identifiers(*s.rhs, id + "1"@);
            lemma_binary_identifiers(
                node,
                graph_of(*s.lhs, id + "0"@),
                graph_of(*s.rhs, id + "1"@),
                "0"@,
                "1"@,
            );
        },
    }
}

fn label_of(op: &RelationalOp) -> (r: String)
    ensures
        r@ == node_label(*op),
{
    let unicode = DisplayFormat::ToStringUnicode;
    match op {
        RelationalOp::Relation(n) => n.to_string(),
        RelationalOp::SetOperation(s) => s.op.to_formatted_string(unicode),
        RelationalOp::Selection(s) => {
            let mut r = "\u{3c3}\n".to_string();
            r.append(render_term(&s.criteria, unicode).as_str());
            r
        },
        RelationalOp::Projection(s) => {
            let mut r = "\u{3a0}\n".to_string();
            r.append(render_projected_attributes(&s.attributes).as_str());
            r
        },
        RelationalOp::Rename(s) => {
            let mut r = "\u{3c1}\n".to_string();
            r.append(render_rename_pairs(&s.renames).as_str());
            r
        },
        RelationalOp::Order(s) => {
            let mut r = "\u{3c4}\n".to_string();
            r.append(render_attributes(&s.attributes).as_str());
            r
        },
        RelationalOp::Group(s) => {
            let mut r = "\u{3b3}\n".to_string();
            r.append(render_attributes(&s.attributes).as_str());
            r
        },
        RelationalOp::Join(Join::Natural(_)) => "\u{2a1d}".to_string(),
        RelationalOp::Join(Join::Theta(s)) => {
            let mut r = "\u{2a1d}".to_string();
            r.append("\n");
            r.append(render_term(&s.criteria, unicode).as_str());
            r
        },
    }
}

fn child_id(id: &String, branch: &str) -> (r: String)
    ensures
        r@ == id@ + branch@,
{
    let mut r = id.clone();
    r.append(branch);
    r
}

fn build_unary(op: &RelationalOp, id: String, operand: OperatorGraph) -> (r: OperatorGraph)
    ensures
        r@ == unary_graph(node_of(*op, id@), operand@),
{
    let OperatorGraph { root, nodes, edges } = operand;
    let ghost sub_nodes = nodes@.map_values(|n: GraphNode| n@);
    let ghost sub_edges = edges@.map_values(|e: GraphEdge| e@);
    let mut all_nodes: Vec<GraphNode> = Vec::new();
    all_nodes.push(GraphNode { id: id.clone(), label: label_of(op), filled: op.is_relation() });
    let mut nodes = nodes;
    all_nodes.append(&mut nodes);
    let mut all_edges: Vec<GraphEdge> = Vec::new();
    all_edges.push(GraphEdge { from: id.clone(), to: root });
    let mut edges = edges;
    all_edges.append(&mut edges);
    let r = OperatorGraph { root: id, nodes: all_nodes, edges: all_edges };
    assert(r@.nodes =~= seq![node_of(*op, id@)] + sub_nodes);
    assert(r@.edges =~= seq![EdgeView { from: id@, to: root@ }] + sub_edges);
    r
}

fn build_binary(op: &RelationalOp, id: String, lhs: OperatorGraph, rhs: OperatorGraph) -> (r:
    OperatorGraph)
    ensures
        r@ == binary_graph(node_of(*op, id@), lhs@, rhs@),
{
    let ghost l = lhs@;
    let ghost rv = rhs@;
    let OperatorGraph { root: left_root, nodes: left_nodes, edges: left_edges } = lhs;
    let OperatorGraph { root: right_root, nodes: right_nodes, edges: right_edges } = rhs;
    let mut all_nodes: Vec<GraphNode> = Vec::new();
    all_nodes.push(GraphNode { id: id.clone(), label: label_of(op), filled: op.is_relation() });
    let mut left_nodes = left_nodes;
    let mut right_nodes = right_nodes;
    all_nodes.append(&mut left_nodes);
    all_nodes.append(&mut right_nodes);
    let mut all_edges: Vec<GraphEdge> = Vec::new();
    all_edges.push(GraphEdge { from: id.clone(), to: left_root });
    all_edges.push(GraphEdge { from: id.clone(), to: right_root });
    let mut left_edges = left_edges;
    let mut right_edges = right_edges;
    all_edges.append(&mut left_edges);
    all_edges.append(&mut right_edges);
    let r = OperatorGraph { root: id, nodes: all_nodes, edges: all_edges };
    assert(r@.nodes =~= seq![node_of(*op, id@)] + l.nodes + rv.nodes);
    assert(r@.edges =~= seq![
        EdgeView { from: id@, to: l.root },
        EdgeView { from: id@, to: rv.root },
    ] + l.edges + rv.edges);
    r
}

fn build_graph(op: &RelationalOp, id: String) -> (r: OperatorGraph)
    ensures
        r@ == graph_of(*op, id@),
    decreases *op,
{
    match op {
        RelationalOp::Relation(_) => {
            let mut nodes: Vec<GraphNode> = Vec::new();
            nodes.push(GraphNode { id: id.clone(), label: label_of(op), filled: true });
            let r = OperatorGraph { root: id, nodes, edges: Vec::new() };
            assert(r@.nodes =~= seq![node_of(*op, id@)]);
            assert(r@.edges =~= Seq::<EdgeView>::empty());
            r
        },
        RelationalOp::SetOperation(s) => {
            let lhs = build_graph(&s.lhs, child_id(&id, "0"));
            let rhs = build_graph(&s.rhs, child_id(&id, "1"));
            build_binary(op, id, lhs, rhs)
        },
        RelationalOp::Selection(s) => {
            let rhs = build_graph(&s.rhs, child_id(&id, "0"));
            build_unary(op, id, rhs)
        },
        RelationalOp::Projection(s) => {
            let rhs = build_graph(&s.rhs, child_id(&id, "0"));
            build_unary(op, id, rhs)
        },
        RelationalOp::Rename(s) => {
            let rhs = build_graph(&s.rhs, child_id(&id, "0"));
            build_unary(op, id, rhs)
        },
        RelationalOp::Order(s) => {
            let rhs = build_graph(&s.rhs, child_id(&id, "0"));
            build_unary(op, id, rhs)
        },
        RelationalOp::Group(s) => {
            let rhs = build_graph(&s.rhs, child_id(&id, "0"));
            build_unary(op, id, rhs)
        },
        RelationalOp::Join(Join::Natural(s)) => {
            let lhs = build_graph(&s.lhs, child_id(&id, "0"));
            let rhs = build_graph(&s.rhs, child_id(&id, "1"));
            build_binary(op, id, lhs, rhs)
        },
        RelationalOp::Join(Join::Theta(s)) => {
            let lhs = build_graph(&s.lhs, child_id(&id, "0"));
            let rhs = build_graph(&s.rhs, child_id(&id, "1"));
            build_binary(op, id, lhs, rhs)
        },
    }
}

/// The graph of an expression. The node of the top operation has the
/// identifier `n`.
pub fn relational_to_graph(op: &RelationalOp) -> (r: OperatorGraph)
    ensures
        r@ == graph_of(*op, "n"@),
        r@.root == "n"@,
        r@.nodes.len() == node_count(*op),
        r@.edges.len() == node_count(*op) - 1,
        identifiers_distinct(r@),
{
    proof {
        lemma_graph_size(*op, "n"@);
        law_graph_identifiers(*op, "n"@);
    }
    build_graph(op, "n".to_string())
}

/// Declares `simple_dot::RootGraph`, a GraphViz graph, as a type whose
/// inside is not looked at.
#[verifier::external_type_specification]
#[verifier::external_body]
pub struct ExRootGraph(simple_dot::RootGraph);

/// The nodes that a GraphViz graph holds, in the order in which they were
/// added: for each its identifier, its label and whether its style is
/// filled.
pub uninterp spec fn dot_nodes(graph: simple_dot::RootGraph) -> Seq<(Seq<char>, Seq<char>, bool)>;

/// The edges that a GraphViz graph holds, in the order in which they were
/// added: for each the identifiers of the node it leaves and of the node it
/// reaches.
pub uninterp spec fn dot_edges(graph: simple_dot::RootGraph) -> Seq<(Seq<char>, Seq<char>)>;

/// The value of the `root` attribute of a GraphViz graph.
pub uninterp spec fn dot_root(graph: simple_dot::RootGraph) -> Seq<char>;

/// Trusted: `simple_dot::RootGraph::anonymous` for a directed graph that is
/// not strict, with the `root` attribute set to `root` by
/// `Styled::set_attributes`. The graph is made without nodes and edges.
#[verifier::external_body]
fn dot_graph(root: &str) -> (r: simple_dot::RootGraph)
    ensures
        dot_root(r) == root@,
        dot_nodes(r) == Seq::<(Seq<char>, Seq<char>, bool)>::empty(),
        dot_edges(r) == Seq::<(Seq<char>, Seq<char>)>::empty(),
{
    simple_dot::attributes::Styled::set_attributes(
        simple_dot::RootGraph::anonymous(false, true),
        simple_dot::attributes::GraphAttributes::default().root(root.to_string()),
    )
}

/// Trusted: `simple_dot::graph::Graph::add_node` with a node made by
/// `simple_dot::Node::new` that has the identifier `id` and the label
/// `label`. The node is added after the nodes that the graph holds; nothing
/// else changes.
#[verifier::external_body]
fn dot_add_node(graph: simple_dot::RootGraph, id: &str, label: &str) -> (r: simple_dot::RootGraph)
    ensures
        dot_nodes(r) == dot_nodes(graph).push((id@, label@, false)),
        dot_edges(r) == dot_edges(graph),
        dot_root(r) == dot_root(graph),
{
    let attributes = simple_dot::attributes::NodeAttributes::default().label(
        simple_dot::attributes::LabelString::new_unchecked(label),
    );
    let node = simple_dot::Node::new(simple_dot::Identifier::new_unchecked(id));
    simple_dot::graph::Graph::add_node(
        graph,
        simple_dot::attributes::Styled::set_attributes(node, attributes),
    )
}

/// Trusted: as `dot_add_node`, with the node's style set to filled by
/// `NodeAttributes::style`.
#[verifier::external_body]
fn dot_add_filled_node(graph: simple_dot::RootGraph, id: &str, label: &str) -> (r:
    simple_dot::RootGraph)
    ensures
        dot_nodes(r) == dot_nodes(graph).push((id@, label@, true)),
        dot_edges(r) == dot_edges(graph),
        dot_root(r) == dot_root(graph),
{
    let attributes = simple_dot::attributes::NodeAttributes::default().style(
        vec![simple_dot::attributes::NodeStyles::Filled],
    ).label(simple_dot::attributes::LabelString::new_unchecked(label));
    let node = simple_dot::Node::new(simple_dot::Identifier::new_unchecked(id));
    simple_dot::graph::Graph::add_node(
        graph,
        simple_dot::attributes::Styled::set_attributes(node, attributes),
    )
}

/// Trusted: `simple_dot::graph::Graph::add_edge` with an edge made by
/// `simple_dot::Edge::new` from the node `from` to the node `to`. The edge is
/// added after the edges that the graph holds; nothing else changes.
#[verifier::external_body]
fn dot_add_edge(graph: simple_dot::RootGraph, from: &str, to: &str) -> (r: simple_dot::RootGraph)
    ensures
        dot_edges(r) == dot_edges(graph).push((from@, to@)),
        dot_nodes(r) == dot_nodes(graph),
        dot_root(r) == dot_root(graph),
{
    simple_dot::graph::Graph::add_edge(
        graph,
        simple_dot::Edge::new(
            simple_dot::Identifier::new_unchecked(from),
            simple_dot::Identifier::new_unchecked(to),
        ),
    )
}

/// The nodes of a graph as GraphViz holds them.
pub open spec fn node_tuples(nodes: Seq<NodeView>) -> Seq<(Seq<char>, Seq<char>, bool)> {
    nodes.map_values(|n: NodeView| (n.id, n.label, n.filled))
}

/// The edges of a graph as GraphViz holds them.
pub open spec fn edge_tuples(edges: Seq<EdgeView>) -> Seq<(Seq<char>, Seq<char>)> {
    edges.map_values(|e: EdgeView| (e.from, e.to))
}

/// The graph of an expression as a GraphViz graph: directed, with the node of
/// the top operation as its root, and with the nodes and edges of
/// [`relational_to_graph`] in their order.
pub fn relational_to_graphviz(op: &RelationalOp) -> (r: Result<simple_dot::RootGraph, Error>)
    ensures
        r is Ok,
        dot_root(r->Ok_0) == "n"@,
        dot_nodes(r->Ok_0) == node_tuples(graph_of(*op, "n"@).nodes),
        dot_edges(r->Ok_0) == edge_tuples(graph_of(*op, "n"@).edges),
{
    let graph = relational_to_graph(op);
    let ghost nodes = graph@.nodes;
    let ghost edges = graph@.edges;
    let mut dot = dot_graph(graph.root.as_str());
    let mut i: usize = 0;
    assert(node_tuples(nodes.take(0)) =~= Seq::<(Seq<char>, Seq<char>, bool)>::empty());
    while i < graph.nodes.len()
        invariant
            i <= graph.nodes.len(),
            nodes == graph@.nodes,
            dot_root(dot) == graph.root@,
            dot_nodes(dot) == node_tuples(nodes.take(i as int)),
            dot_edges(dot) == Seq::<(Seq<char>, Seq<char>)>::empty(),
        decreases graph.nodes.len() - i,
    {
        let node = &graph.nodes[i];
        assert(nodes[i as int] == node@);
        dot = if node.filled {
            dot_add_filled_node(dot, node.id.as_str(), node.label.as_str())
        } else {
            dot_add_node(dot, node.id.as_str(), node.label.as_str())
        };
        assert(node_tuples(nodes.take(i + 1)) =~= node_tuples(nodes.take(i as int)).push(
            (node.id@, node.label@, node.filled),
        ));
        i += 1;
    }
    assert(nodes.take(i as int) =~= nodes);
    let mut j: usize = 0;
    assert(edge_tuples(edges.take(0)) =~= Seq::<(Seq<char>, Seq<char>)>::empty());
    while j < graph.edges.len()
        invariant
            j <= graph.edges.len(),
            edges == graph@.edges,
            dot_root(dot) == graph.root@,
            dot_nodes(dot) == node_tuples(nodes),
            dot_edges(dot) == edge_tuples(edges.take(j as int)),
        decreases graph.edges.len() - j,
    {
        let edge = &graph.edges[j];
        assert(edges[j as int] == edge@);
        dot = dot_add_edge(dot, edge.from.as_str(), edge.to.as_str());
        assert(edge_tuples(edges.take(j + 1)) =~= edge_tuples(edges.take(j as int)).push(
            (edge.from@, edge.to@),
        ));
        j += 1;
    }
    assert(edges.take(j as int) =~= edges);
    Ok(dot)
}

} // verus!
