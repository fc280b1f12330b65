use rand::SeedableRng;
use rand::rngs::StdRng;
use vegas_lattice::{Alloy, Lattice};

#[test]
fn test_alloy_can_be_created_from_kinds_and_ratios() {
    let kinds = vec!["A", "B"];
    let ratios = vec![50, 50];
    let result = Alloy::try_new(kinds, ratios);
    assert!(result.is_ok());
}

#[test]
fn test_alloy_fails_to_create_if_we_pass_different_sized_vectors() {
    let kinds = vec!["A", "B", "C"];
    let ratios = vec![50, 50];
    let result = Alloy::try_new(kinds, ratios);
    assert!(result.is_err());
}

#[test]
fn test_alloy_can_be_created_from_targets() {
    let targets = vec![("A", 100), ("B", 0)];
    let result = Alloy::try_from_targets(targets);
    assert!(result.is_ok());
    let alloy = result.unwrap();
    let mut rng = StdRng::seed_from_u64(7);
    assert_eq!(alloy.pick(&mut rng), "A");
}

#[test]
fn test_alloy_picks_a_kind_of_atom() {
    let kinds = vec!["A", "B"];
    let ratios = vec![50, 50];
    let alloy = Alloy::try_new(kinds, ratios).unwrap();
    let mut rng = StdRng::seed_from_u64(7);
    let kind = alloy.pick(&mut rng);
    assert!(kind == "A" || kind == "B");
}

#[test]
fn test_alloy_picks_a_kind_of_atom_with_different_ratios() {
    let kinds = vec!["A", "B"];
    let ratios = vec![10, 90];
    let alloy = Alloy::try_new(kinds, ratios).unwrap();
    let mut rng = StdRng::seed_from_u64(7);
    let kind = alloy.pick(&mut rng);
    assert!(kind == "A" || kind == "B");
}

#[test]
fn test_alloy_doesnt_pick_an_atom_with_no_ratios() {
    let targets = vec![];
    let result = Alloy::try_from_targets(targets);
    assert!(result.is_err());
}

#[test]
fn alloy_with_all_zero_weights_fails() {
    let result = Alloy::try_new(vec!["A", "B"], vec![0, 0]);
    assert_eq!(
        result.unwrap_err(),
        vegas_lattice::VegasLatticeError::InvalidRatios
    );
}

#[test]
fn a_zero_weight_kind_is_never_picked() {
    let alloy = Alloy::try_new(vec!["A", "B"], vec![100, 0]).unwrap();
    let mut rng = StdRng::seed_from_u64(1234);
    for _ in 0..200 {
        assert_eq!(alloy.pick(&mut rng), "A");
    }
}

#[test]
fn alloy_sites_replaces_exactly_the_source_kind() {
    let alloy = Alloy::try_new(vec!["B", "C"], vec![0, 7]).unwrap();
    let mut rng = StdRng::seed_from_u64(99);
    let lattice = Lattice::bcc(2).alloy_sites("A", alloy, &mut rng);
    // site 0 had kind "A" and must now carry the only positive-weight kind
    assert_eq!(lattice.sites()[0].kind(), "C");
    // site 1 had kind "B" and is untouched
    assert_eq!(lattice.sites()[1].kind(), "B");
    assert_eq!(lattice.edges().len(), 8);
}
