// Sanity checks for the replica-major iteration order that expansion relies
// on: enumerating a two-axis grid row by row visits index pairs in
// lexicographic order.

fn grid(outer: i32, inner: i32) -> Vec<(i32, i32)> {
    let mut out = Vec::new();
    for i in 0..outer {
        for j in 0..inner {
            out.push((i, j));
        }
    }
    out
}

#[test]
fn itertools_over_a_two_by_two_lattice() {
    assert_eq!(vec![(0, 0), (0, 1), (1, 0), (1, 1)], grid(2, 2));
}

#[test]
fn cartesian_products_by_hand() {
    assert_eq!(vec![(0, 0), (0, 1), (1, 0), (1, 1)], grid(2, 2));
}
