use schema_compat::schema::{EnumNode, Node, NodeKind, StructNode};
use schema_compat::snapshot::Snapshot;

fn declaration(id: u64, name: &str, kind: NodeKind) -> Node {
    Node { id, display_name: String::from(name), nested: vec![], kind }
}

#[test]
fn a_new_snapshot_is_empty() {
    let snapshot = Snapshot::new();
    assert_eq!(snapshot.len(), 0);
    assert!(!snapshot.contains(0));
    assert_eq!(snapshot.get(0), None);
    assert!(snapshot.requested().is_empty());
}

#[test]
fn a_declaration_is_filed_under_its_identifier() {
    let mut snapshot = Snapshot::new();
    snapshot.insert(declaration(5, "five", NodeKind::File));
    snapshot.insert(declaration(9, "nine", NodeKind::Enum(EnumNode {})));
    assert_eq!(snapshot.len(), 2);
    assert!(snapshot.contains(5));
    assert!(snapshot.contains(9));
    assert!(!snapshot.contains(6));
    assert_eq!(snapshot.get(5), Some(&declaration(5, "five", NodeKind::File)));
    assert_eq!(snapshot.get(9), Some(&declaration(9, "nine", NodeKind::Enum(EnumNode {}))));
    assert_eq!(snapshot.get(6), None);
}

#[test]
fn filing_under_a_taken_identifier_replaces() {
    let mut snapshot = Snapshot::new();
    snapshot.insert(declaration(5, "five", NodeKind::File));
    snapshot.insert(declaration(5, "cinq", NodeKind::Struct(StructNode { fields: vec![] })));
    assert_eq!(snapshot.len(), 1);
    assert_eq!(
        snapshot.get(5),
        Some(&declaration(5, "cinq", NodeKind::Struct(StructNode { fields: vec![] })))
    );
}

#[test]
fn requests_are_kept_in_order() {
    let mut snapshot = Snapshot::new();
    snapshot.request(9);
    snapshot.request(5);
    snapshot.request(9);
    assert_eq!(snapshot.requested(), &vec![9, 5, 9]);
    assert_eq!(snapshot.len(), 0);
    snapshot.insert(declaration(5, "five", NodeKind::File));
    assert_eq!(snapshot.requested(), &vec![9, 5, 9]);
}
