use vegas_lattice::{Axis, Vertex, Tagged};

#[test]
fn vertex_can_be_created() {
    let vertex = Vertex::new(0, 1, (0, 0, 1));
    assert_eq!(vertex.source(), 0);
    assert_eq!(vertex.target(), 1);
    assert_eq!(vertex.delta(), (0, 0, 1));
}

#[test]
fn vertex_can_be_moved() {
    // The vertex would point to the second site in the next unit along the z axis
    let vertex = Vertex::new(0, 1, (0, 0, 1)).move_along(Axis::Z, 0, 2, 2);
    assert_eq!(vertex.source(), 0);
    assert_eq!(vertex.target(), 3);
    assert_eq!(vertex.delta(), (0, 0, 0));
}

#[test]
fn vertex_can_be_moved_2() {
    // The vertex would point to the second site on the same unit along the z axis
    let vertex = Vertex::new(0, 1, (0, 0, 0)).move_along(Axis::Z, 0, 2, 2);
    assert_eq!(vertex.source(), 0);
    assert_eq!(vertex.target(), 1);
    assert_eq!(vertex.delta(), (0, 0, 0));
}

#[test]
fn vertex_can_be_moved_3() {
    // The vertex would lay on the second unit along the z axis
    let vertex = Vertex::new(0, 1, (0, 0, 0)).move_along(Axis::Z, 1, 2, 2);
    assert_eq!(vertex.source(), 2);
    assert_eq!(vertex.target(), 3);
    assert_eq!(vertex.delta(), (0, 0, 0));
}

#[test]
fn vertex_can_be_moved_4() {
    // The vertex would point to the second site on the first unit along the z
    // axis but in the next new delta.
    let vertex = Vertex::new(0, 1, (0, 0, 1)).move_along(Axis::Z, 1, 2, 2);
    assert_eq!(vertex.source(), 2);
    assert_eq!(vertex.target(), 1);
    assert_eq!(vertex.delta(), (0, 0, 1));
}

#[test]
fn vertex_can_be_tagged() {
    let vertex = Vertex::new(0, 1, (0, 0, 1)).with_tags(vec!["core"]);
    assert_eq!(vertex.tags(), Some(&vec!["core".to_string()]));
}

#[test]
fn vertex_reindexing_kinda_works() {
    let vertex = Vertex::new(0, 1, (0, 0, 1)).reindex(&[1, 0]);
    assert_eq!(vertex.source(), 1);
    assert_eq!(vertex.target(), 0);
}

#[test]
fn vertex_will_take_optional_tags() {
    let data = r#"
        {"source": 0, "target": 0, "delta": [0, 0, 1], "tags": ["core", "inner"]}
    "#;
    let edge_result: Result<Vertex, _> = data.parse();
    assert!(edge_result.is_ok());
    assert_eq!(
        edge_result.unwrap().tags(),
        Some(&vec!["core".to_string(), "inner".to_string()])
    );
}
