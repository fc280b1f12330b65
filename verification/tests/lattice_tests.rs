use vegas_lattice::{Edge, Lattice, Site, VegasLatticeError};

#[test]
fn drop_example() {
    let lattice = Lattice::sc(1);
    let lattice = lattice.drop_x();
    assert!(lattice.edges().len() == 2);
}

#[test]
fn drop_example_actually_dropping() {
    let lattice = Lattice::sc(1);
    let lattice = lattice.drop_all();
    assert!(lattice.edges().is_empty());
}

#[test]
fn drop_is_idempotent_on_a_concrete_cell() {
    let once = Lattice::sc(1).drop_y();
    let twice = Lattice::sc(1).drop_y().drop_y();
    assert_eq!(once.edges().len(), twice.edges().len());
    for (a, b) in once.edges().iter().zip(twice.edges().iter()) {
        assert_eq!(a.source(), b.source());
        assert_eq!(a.target(), b.target());
        assert_eq!(a.delta(), b.delta());
    }
    assert_eq!(once.sites().len(), twice.sites().len());
}

#[test]
fn single_lattice_expansion_1d() {
    let lattice = Lattice::sc(1);
    let output = lattice.expand_x(2);
    assert_eq!(output.sites().len(), 2);
    assert_eq!(output.sites()[1].position().0, 1);
}

#[test]
fn double_lattice_expansion_1d() {
    let lattice = Lattice::sc(1);
    let lattice = lattice.expand_x(2);
    let output = lattice.expand_x(2);
    assert_eq!(output.sites().len(), 4);
    assert_eq!(output.sites()[1].position().0, 1);
    assert_eq!(output.sites()[2].position().0, 2);
    assert_eq!(output.sites()[3].position().0, 3);
}

#[test]
fn single_lattice_expansion_1d_edges() {
    let lattice = Lattice::sc(1)
        .try_with_edges(vec![Edge::new(0, 0, (1, 0, 0))])
        .unwrap();
    let output = lattice.expand_x(2);
    assert_eq!(output.edges().len(), 2);
    assert_eq!(output.edges()[0].source(), 0);
    assert_eq!(output.edges()[0].target(), 1);
    assert_eq!(output.edges()[0].delta().0, 0);
    assert_eq!(output.edges()[1].source(), 1);
    assert_eq!(output.edges()[1].target(), 0);
    assert_eq!(output.edges()[1].delta().0, 1);
}

#[test]
fn single_lattice_expansion_1d_negative_edges() {
    let lattice = Lattice::sc(1)
        .try_with_edges(vec![Edge::new(0, 0, (-1, 0, 0))])
        .unwrap();
    let output = lattice.expand_x(2);
    assert_eq!(output.edges().len(), 2);
    assert_eq!(output.edges()[0].source(), 0);
    assert_eq!(output.edges()[0].target(), 1);
    assert_eq!(output.edges()[0].delta().0, -1);
    assert_eq!(output.edges()[1].source(), 1);
    assert_eq!(output.edges()[1].target(), 0);
    assert_eq!(output.edges()[1].delta().0, 0);
}

#[test]
fn test_sc_lattice() {
    let lattice = Lattice::sc(1);
    assert_eq!(lattice.size(), (1, 1, 1));
    assert_eq!(lattice.sites().len(), 1);
    assert_eq!(lattice.edges().len(), 3)
}

#[test]
fn test_bcc_lattice() {
    let lattice = Lattice::bcc(1);
    assert_eq!(lattice.size(), (1, 1, 1));
    assert_eq!(lattice.sites().len(), 2);
    assert_eq!(lattice.edges().len(), 8)
}

#[test]
fn test_fcc_lattice() {
    let lattice = Lattice::fcc(1);
    assert_eq!(lattice.size(), (1, 1, 1));
    assert_eq!(lattice.sites().len(), 4);
    assert_eq!(lattice.edges().len(), 12)
}

#[test]
fn test_wit_size() {
    let lattice = Lattice::sc(1).try_with_size((2, 2, 2)).unwrap();
    assert_eq!(lattice.size(), (2, 2, 2));
}

#[test]
fn test_with_sites() {
    let lattice = Lattice::sc(1)
        .try_with_sites(vec![Site::new("Fe"), Site::new("Ni")])
        .unwrap();
    assert_eq!(lattice.sites().len(), 2);
}

#[test]
fn test_with_edges() {
    let lattice = Lattice::sc(1)
        .try_with_edges(vec![Edge::new(0, 0, (1, 0, 0)), Edge::new(0, 0, (0, 1, 0))])
        .unwrap();
    assert_eq!(lattice.edges().len(), 2);
}

#[test]
fn test_lattice_with_inconsistent_edges() {
    // The edge target is not in the list of sites
    let result = Lattice::sc(1).try_with_edges(vec![Edge::new(0, 1, (1, 0, 0))]);
    assert!(result.is_err());
}

#[test]
fn test_lattice_with_negative_size() {
    let result = Lattice::try_new((-1, 1, 1));
    assert!(result.is_err());
}

#[test]
fn validation_names_the_failure() {
    let bad_edges = Lattice::sc(1).try_with_edges(vec![Edge::new(0, 7, (0, 0, 0))]);
    assert_eq!(bad_edges.unwrap_err(), VegasLatticeError::InconsistentEdges);
    let bad_size = Lattice::sc(1).try_with_size((1, -1, 1));
    assert_eq!(bad_size.unwrap_err(), VegasLatticeError::NegativeSize);
    let bad_new = Lattice::try_new((0, 0, -3));
    assert_eq!(bad_new.unwrap_err(), VegasLatticeError::NegativeSize);
}

#[test]
fn expansion_count_law_on_a_bcc_cell() {
    let lattice = Lattice::bcc(2).expand_y(3);
    assert_eq!(lattice.sites().len(), 2 * 3);
    assert_eq!(lattice.edges().len(), 8 * 3);
    assert_eq!(lattice.size(), (2, 6, 2));
}

#[test]
fn expansion_is_associative_on_a_concrete_cell() {
    let staged = Lattice::fcc(4).expand_x(2).expand_x(3);
    let direct = Lattice::fcc(4).expand_x(6);
    assert_eq!(staged.size(), direct.size());
    assert_eq!(staged.sites().len(), direct.sites().len());
    assert_eq!(staged.edges().len(), direct.edges().len());
    for (a, b) in staged.sites().iter().zip(direct.sites().iter()) {
        assert_eq!(a.kind(), b.kind());
        assert_eq!(a.position(), b.position());
    }
    for (a, b) in staged.edges().iter().zip(direct.edges().iter()) {
        assert_eq!(a.source(), b.source());
        assert_eq!(a.target(), b.target());
        assert_eq!(a.delta(), b.delta());
    }
}

#[test]
fn expansion_in_all_directions() {
    let lattice = Lattice::sc(1).expand(2, 3, 4);
    assert_eq!(lattice.sites().len(), 24);
    assert_eq!(lattice.edges().len(), 72);
    assert_eq!(lattice.size(), (2, 3, 4));
    let uniform = Lattice::sc(1).expand_all(2);
    assert_eq!(uniform.sites().len(), 8);
    assert_eq!(uniform.size(), (2, 2, 2));
}

#[test]
fn can_expand_along_spots_an_oversized_request() {
    let lattice = Lattice::sc(1);
    assert!(lattice.can_expand_along(vegas_lattice::Axis::X, 2000));
    assert!(!lattice.can_expand_along(vegas_lattice::Axis::X, 0));
    let huge = Lattice::sc(i64::MAX);
    assert!(!huge.can_expand_along(vegas_lattice::Axis::X, 2));
}

#[test]
fn filter_sites_renumbers_surviving_edges() {
    let lattice = Lattice::try_new((1, 1, 1))
        .unwrap()
        .try_with_sites(vec![Site::new("A"), Site::new("B"), Site::new("C")])
        .unwrap()
        .try_with_edges(vec![
            Edge::new(0, 1, (0, 0, 0)),
            Edge::new(0, 2, (0, 0, 0)),
            Edge::new(1, 2, (0, 0, 0)),
            Edge::new(2, 2, (1, 0, 0)),
        ])
        .unwrap();
    let filtered = lattice.filter_sites(&vec![true, false, true]);
    assert_eq!(filtered.sites().len(), 2);
    assert_eq!(filtered.sites()[0].kind(), "A");
    assert_eq!(filtered.sites()[1].kind(), "C");
    assert_eq!(filtered.edges().len(), 2);
    assert_eq!(filtered.edges()[0].source(), 0);
    assert_eq!(filtered.edges()[0].target(), 1);
    assert_eq!(filtered.edges()[1].source(), 1);
    assert_eq!(filtered.edges()[1].target(), 1);
    assert_eq!(filtered.edges()[1].delta(), (1, 0, 0));
    // every surviving edge indexes a surviving site
    for edge in filtered.edges().iter() {
        assert!(edge.source() < filtered.sites().len());
        assert!(edge.target() < filtered.sites().len());
    }
}
