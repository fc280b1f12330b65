use vegas_lattice::io::LatticeFormatter;
use vegas_lattice::json::edge_from_json;
use vegas_lattice::{Edge, Tagged, VegasLatticeError, Vertex};

#[test]
fn formatter_indents_up_to_the_maximum_depth() {
    let mut f = LatticeFormatter::new();
    f.begin_collection();
    assert_eq!(f.begin_colletion_item(true), "\n  ");
    f.end_collection_item();
    assert_eq!(f.begin_colletion_item(false), ",\n  ");
    f.begin_collection();
    assert_eq!(f.begin_colletion_item(true), "\n    ");
    f.end_collection_item();
    // the third level is beyond the default maximum and stays inline
    f.begin_collection();
    assert_eq!(f.begin_colletion_item(true), "");
    f.end_collection_item();
    assert_eq!(f.begin_colletion_item(false), ", ");
    f.end_collection_item();
    assert_eq!(f.end_collection(), "");
    assert_eq!(f.end_collection(), "\n  ");
    assert_eq!(f.end_collection(), "\n");
}

#[test]
fn formatter_with_zero_max_indent_is_fully_inline() {
    let mut f = LatticeFormatter::with_max_indent(0);
    f.begin_collection();
    assert_eq!(f.begin_colletion_item(true), "");
    f.end_collection_item();
    assert_eq!(f.begin_colletion_item(false), ", ");
    f.end_collection_item();
    assert_eq!(f.end_collection(), "");
}

#[test]
fn formatter_closing_an_empty_collection_adds_nothing() {
    let mut f = LatticeFormatter::new();
    f.begin_collection();
    assert_eq!(f.end_collection(), "");
}

#[test]
fn malformed_documents_fail_with_a_serialization_error() {
    assert_eq!(
        edge_from_json("not json at all").unwrap_err(),
        VegasLatticeError::SerializationError
    );
    assert_eq!(
        edge_from_json(r#"{"source": 0}"#).unwrap_err(),
        VegasLatticeError::SerializationError
    );
    assert_eq!(
        edge_from_json(r#"{"source": 0, "target": 0, "delta": [0, 0]}"#).unwrap_err(),
        VegasLatticeError::SerializationError
    );
    assert_eq!(
        edge_from_json(r#"{"source": 0, "target": 0, "delta": [0, 0, 99999999999]}"#)
            .unwrap_err(),
        VegasLatticeError::SerializationError
    );
    assert_eq!(
        edge_from_json(r#"{"source": -1, "target": 0, "delta": [0, 0, 0]}"#).unwrap_err(),
        VegasLatticeError::SerializationError
    );
}

#[test]
fn absent_and_empty_tags_are_distinguished() {
    let without: Edge = r#"{"source": 0, "target": 0, "delta": [0, 0, 0]}"#.parse().unwrap();
    assert_eq!(without.tags(), None);
    let with_empty: Edge = r#"{"source": 0, "target": 0, "delta": [0, 0, 0], "tags": []}"#
        .parse()
        .unwrap();
    assert_eq!(with_empty.tags(), Some(&Vec::new()));
    let bad: Result<Edge, _> =
        r#"{"source": 0, "target": 0, "delta": [0, 0, 0], "tags": [1]}"#.parse();
    assert!(bad.is_err());
}

#[test]
fn well_formed_connections_parse_without_tags() {
    let edge: Edge = r#"{"source": 3, "target": 5, "delta": [1, -1, 0]}"#.parse().unwrap();
    assert_eq!(edge.source(), 3);
    assert_eq!(edge.target(), 5);
    assert_eq!(edge.delta(), (1, -1, 0));
    let vertex: Vertex = r#"{"source": 2, "target": 4, "delta": [0, 0, -1]}"#.parse().unwrap();
    assert_eq!(vertex.source(), 2);
    assert_eq!(vertex.target(), 4);
    assert_eq!(vertex.delta(), (0, 0, -1));
}
