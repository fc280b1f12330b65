use vegas_lattice::VegasLatticeError;

#[test]
fn each_error_names_itself() {
    assert_eq!(
        VegasLatticeError::InconsistentEdges.message(),
        "inconsistent edges"
    );
    assert_eq!(VegasLatticeError::NegativeSize.message(), "negative size");
    assert_eq!(VegasLatticeError::InvalidRatios.message(), "invalid ratios");
    assert_eq!(
        VegasLatticeError::SerializationError.message(),
        "serialization error"
    );
    assert_eq!(VegasLatticeError::IoError.message(), "io error");
}
