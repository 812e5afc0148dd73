use pdt::graph::{CycleSearch, DescendantWalk, GraphTraversal, Probe, TraversalProbe};
use pdt::models::relation::{Relation, RelationType};

fn rel(id: &str, from: &str, to: &str) -> Relation {
    Relation {
        id: id.to_string(),
        from_asset_id: from.to_string(),
        to_asset_id: to.to_string(),
        relation_type: RelationType::DependsOn,
        metadata: vec![],
        created_at: "t".to_string(),
        created_by: "u".to_string(),
    }
}

fn successors(rels: &[Relation], id: &str) -> Vec<String> {
    rels.iter().filter(|r| r.from_asset_id == id).map(|r| r.to_asset_id.clone()).collect()
}

fn touching(rels: &[Relation], id: &str) -> Vec<Relation> {
    rels.iter().filter(|r| r.from_asset_id == id || r.to_asset_id == id).map(|r| rel(&r.id, &r.from_asset_id, &r.to_asset_id)).collect()
}

fn would_create_cycle(rels: &[Relation], from: &str, to: &str) -> bool {
    let mut s = CycleSearch::new(&from.to_string(), &to.to_string());
    let mut p = s.probe();
    loop {
        match p {
            Probe::Fetch(id) => {
                let (s2, p2) = s.on_successors(&successors(rels, &id));
                s = s2;
                p = p2;
            }
            Probe::Found => return true,
            Probe::Done => return false,
        }
    }
}

#[test]
fn cycles_are_detected() {
    let rels = vec![rel("1", "a", "b"), rel("2", "b", "c")];
    assert!(would_create_cycle(&rels, "c", "a"));
    assert!(would_create_cycle(&rels, "b", "a"));
    assert!(!would_create_cycle(&rels, "a", "c"));
    assert!(!would_create_cycle(&rels, "x", "a"));
    assert!(would_create_cycle(&rels, "a", "a"));
}

#[test]
fn descendants_follow_outgoing_relations() {
    let rels = vec![rel("1", "a", "b"), rel("2", "b", "c"), rel("3", "d", "a"), rel("4", "a", "c")];
    let mut w = DescendantWalk::new(&"a".to_string());
    let mut p = w.probe();
    while let Probe::Fetch(id) = p {
        let (w2, p2) = w.on_relations(&touching(&rels, &id));
        w = w2;
        p = p2;
    }
    assert_eq!(w.descendants(), vec!["b".to_string(), "c".to_string()]);
}

#[test]
fn traversal_reports_depths_in_both_directions() {
    let rels = vec![rel("1", "a", "b"), rel("2", "b", "c"), rel("3", "c", "d")];
    let mut t = GraphTraversal::new(&"a".to_string(), 2);
    let mut p = t.probe();
    while let TraversalProbe::Fetch(id) = p {
        let (t2, p2) = t.on_relations(touching(&rels, &id));
        t = t2;
        p = p2;
    }
    let nodes = t.into_nodes();
    let found: Vec<(String, u32)> = nodes.iter().map(|n| (n.asset_id.clone(), n.depth)).collect();
    assert_eq!(found, vec![("a".to_string(), 0), ("b".to_string(), 1), ("c".to_string(), 2)]);
    assert_eq!(nodes[0].relations.len(), 1);
}

#[test]
fn traversal_of_a_lone_asset_reports_it() {
    let mut t = GraphTraversal::new(&"solo".to_string(), 3);
    let mut p = t.probe();
    while let TraversalProbe::Fetch(_) = p {
        let (t2, p2) = t.on_relations(vec![]);
        t = t2;
        p = p2;
    }
    let nodes = t.into_nodes();
    assert_eq!(nodes.len(), 1);
    assert_eq!(nodes[0].asset_id, "solo");
    assert_eq!(nodes[0].depth, 0);
}
