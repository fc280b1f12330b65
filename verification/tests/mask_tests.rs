use rand::SeedableRng;
use rand::rngs::StdRng;
use vegas_lattice::{Lattice, Mask, VegasLatticeError};

#[test]
fn mask_construction_checks_the_grid() {
    assert!(Mask::try_new(2, 2, vec![0, 0, 0, 0], 1).is_ok());
    assert_eq!(
        Mask::try_new(2, 2, vec![0, 0, 0], 1).unwrap_err(),
        VegasLatticeError::IoError
    );
    assert_eq!(
        Mask::try_new(0, 2, vec![], 1).unwrap_err(),
        VegasLatticeError::IoError
    );
    assert_eq!(
        Mask::try_new(2, 2, vec![0, 0, 0, 0], 0).unwrap_err(),
        VegasLatticeError::IoError
    );
}

#[test]
fn opaque_pixels_always_keep_and_transparent_never_do() {
    // a 2x1 mask: an opaque pixel at x = 0, a transparent one at x = 1
    let mask = Mask::try_new(2, 1, vec![255, 0], 1).unwrap();
    let mut rng = StdRng::seed_from_u64(3);
    for _ in 0..50 {
        assert!(mask.keep(0, 0, &mut rng));
        assert!(!mask.keep(1, 0, &mut rng));
        // the mask tiles the plane, also for negative coordinates
        assert!(mask.keep(2, 5, &mut rng));
        assert!(!mask.keep(-1, -3, &mut rng));
    }
}

#[test]
fn an_opaque_mask_keeps_every_site() {
    let mask = Mask::try_new(2, 2, vec![255, 255, 255, 255], 10).unwrap();
    let mut rng = StdRng::seed_from_u64(5);
    let lattice = Lattice::sc(1).expand_all(2).apply_mask_z(mask, &mut rng);
    assert_eq!(lattice.sites().len(), 8);
    assert_eq!(lattice.edges().len(), 24);
}

#[test]
fn a_transparent_mask_removes_every_site_and_edge() {
    let mask = Mask::try_new(2, 2, vec![0, 0, 0, 0], 10).unwrap();
    let mut rng = StdRng::seed_from_u64(5);
    let lattice = Lattice::sc(1).expand_all(2).apply_mask_x(mask, &mut rng);
    assert_eq!(lattice.sites().len(), 0);
    assert_eq!(lattice.edges().len(), 0);
}

#[test]
fn a_striped_mask_keeps_survivors_in_order_and_edges_consistent() {
    // stripes along the first planar coordinate: keep x = 0, drop x = 1
    let mask = Mask::try_new(2, 1, vec![255, 0], 1).unwrap();
    let mut rng = StdRng::seed_from_u64(5);
    let lattice = Lattice::sc(1).expand_all(2).apply_mask_z(mask, &mut rng);
    // of the eight sites, those at x = 1 are gone
    assert_eq!(lattice.sites().len(), 4);
    for site in lattice.sites().iter() {
        assert_eq!(site.position().0, 0);
    }
    // positions of the survivors keep their original relative order
    let mut seen: Vec<(i64, i64, i64)> = Vec::new();
    for site in lattice.sites().iter() {
        seen.push(site.position());
    }
    assert_eq!(seen, vec![(0, 0, 0), (0, 1, 0), (0, 0, 1), (0, 1, 1)]);
    // every surviving edge indexes a surviving site
    for edge in lattice.edges().iter() {
        assert!(edge.source() < lattice.sites().len());
        assert!(edge.target() < lattice.sites().len());
    }
}
