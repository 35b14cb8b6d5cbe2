use relational_algebra::ast::{Attribute, ProjectedAttribute, RelationalOp, Term};
use relational_algebra::graph::{relational_to_graph, relational_to_graphviz};
use relational_algebra::Name;
use simple_dot::writer::write_graph_to_string;

#[test]
fn test_generate_dot() {
    let expr = RelationalOp::natural_join(
        Name::new_unchecked("people"),
        RelationalOp::union(Name::new_unchecked("visits"), Name::new_unchecked("places")),
    );

    println!("{:#?}", expr);

    let graph = relational_to_graphviz(&expr).unwrap();

    println!("{}", write_graph_to_string(&graph).unwrap());
}

#[test]
fn test_graph_of_expression() {
    let expr = RelationalOp::natural_join(
        Name::new_unchecked("people"),
        RelationalOp::union(Name::new_unchecked("visits"), Name::new_unchecked("places")),
    );
    let graph = relational_to_graph(&expr);
    assert_eq!(graph.root, "n");
    let nodes: Vec<(String, String, bool)> = graph
        .nodes
        .iter()
        .map(|n| (n.id.clone(), n.label.clone(), n.filled))
        .collect();
    assert_eq!(
        nodes,
        vec![
            ("n".to_string(), "⨝".to_string(), false),
            ("n0".to_string(), "people".to_string(), true),
            ("n1".to_string(), "∪".to_string(), false),
            ("n10".to_string(), "visits".to_string(), true),
            ("n11".to_string(), "places".to_string(), true),
        ]
    );
    let edges: Vec<(String, String)> = graph
        .edges
        .iter()
        .map(|e| (e.from.clone(), e.to.clone()))
        .collect();
    assert_eq!(
        edges,
        vec![
            ("n".to_string(), "n0".to_string()),
            ("n".to_string(), "n1".to_string()),
            ("n1".to_string(), "n10".to_string()),
            ("n1".to_string(), "n11".to_string()),
        ]
    );
}

#[test]
fn test_graph_labels() {
    let name = |s: &str| Name::new_unchecked(s);
    let expr = RelationalOp::project(
        vec![ProjectedAttribute::Index(0), name("b").into()],
        RelationalOp::select(
            Term::equals(0, 1),
            RelationalOp::rename(
                vec![(Attribute::Index(0), name("x"))],
                RelationalOp::sort_by(
                    vec![Attribute::Index(1)],
                    RelationalOp::group_by(
                        vec![name("g").into()],
                        RelationalOp::theta_join(name("l"), Term::less_than(0, 1), name("r")),
                    ),
                ),
            )
            .unwrap(),
        ),
    );
    let labels: Vec<String> = relational_to_graph(&expr)
        .nodes
        .iter()
        .map(|n| n.label.clone())
        .collect();
    assert_eq!(
        labels,
        vec![
            "Π\n0, b", "σ\n0=1", "ρ\n0/x", "τ\n1", "γ\ng", "⨝\n0<1", "l", "r"
        ]
    );
}

#[test]
fn test_dot_text() {
    let expr = RelationalOp::union(Name::new_unchecked("a"), Name::new_unchecked("b"));
    let text = write_graph_to_string(&relational_to_graphviz(&expr).unwrap()).unwrap();
    assert!(text.contains("digraph"));
    assert!(text.contains("n0"));
    assert!(text.contains("n1"));
    assert!(text.contains("n -> n0"));
    assert!(text.contains("n -> n1"));
    assert!(text.contains("filled"));
}
