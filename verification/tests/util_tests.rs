use vegas_lattice::python_mod;

#[test]
fn python_mod_agrees_with_python_for_positive_numbers() {
    assert_eq!(python_mod(5, 4), (1, 1));
    assert_eq!(python_mod(0, 4), (0, 0));
    assert_eq!(python_mod(8, 4), (0, 2));
    assert_eq!(python_mod(3, 4), (3, 0));
}

#[test]
fn python_mod_agrees_with_python_for_negative_numbers() {
    assert_eq!(python_mod(-1, 4), (3, -1));
    assert_eq!(python_mod(-4, 4), (0, -1));
    assert_eq!(python_mod(-5, 4), (3, -2));
    assert_eq!(python_mod(-8, 2), (0, -4));
}

#[test]
fn python_mod_handles_the_extremes() {
    assert_eq!(python_mod(i32::MIN, 1), (0, i32::MIN));
    assert_eq!(python_mod(i32::MAX, i32::MAX as usize), (0, 1));
    assert_eq!(python_mod(-1, i32::MAX as usize), (i32::MAX - 1, -1));
}
