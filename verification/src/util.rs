//! General utilities that have nothing to do with lattices

use vstd::prelude::*;

verus! {

/// Represents a 3D axis
#[derive(Debug, Clone, Copy, PartialEq, Eq, Structural)]
pub enum Axis {
    /// The _x_ axis
    X,
    /// The _y_ axis
    Y,
    /// The _z_ axis
    Z,
}

/// The component of a triple selected by an axis.
pub open spec fn axis_sel<T>(t: (T, T, T), axis: Axis) -> T {
    match axis {
        Axis::X => t.0,
        Axis::Y => t.1,
        Axis::Z => t.2,
    }
}

/// The triple with the component selected by an axis replaced by `v`.
pub open spec fn axis_upd<T>(t: (T, T, T), axis: Axis, v: T) -> (T, T, T) {
    match axis {
        Axis::X => (v, t.1, t.2),
        Axis::Y => (t.0, v, t.2),
        Axis::Z => (t.0, t.1, v),
    }
}

/// The two components of a triple that lie in the plane perpendicular to an
/// axis, in the cyclic order (y, z), (z, x), (x, y).
pub open spec fn plane_sel<T>(t: (T, T, T), axis: Axis) -> (T, T) {
    match axis {
        Axis::X => (t.1, t.2),
        Axis::Y => (t.2, t.0),
        Axis::Z => (t.0, t.1),
    }
}

impl Axis {
    /// The two components of a point that lie in the plane perpendicular to
    /// this axis, in the cyclic order (y, z), (z, x), (x, y).
    pub fn project_in_plane(&self, p: (i64, i64, i64)) -> (r: (i64, i64))
        ensures
            r == plane_sel(p, *self),
    {
        match self {
            Axis::X => (p.1, p.2),
            Axis::Y => (p.2, p.0),
            Axis::Z => (p.0, p.1),
        }
    }
}

/// Floor-style division with remainder, as Python's `divmod`: the remainder
/// is always in `[0, modulus)` and the quotient rounds toward negative
/// infinity, also for negative `num`. Returns `(remainder, quotient)`.
pub fn python_mod(num: i32, modulus: usize) -> (r: (i32, i32))
    requires
        1 <= modulus,
        modulus as int <= i32::MAX as int,
    ensures
        r.0 as int == num as int % modulus as int,
        r.1 as int == num as int / modulus as int,
{
    let m = modulus as u64;
    if num >= 0 {
        let u = num as u64;
        let q = u / m;
        let rem = u % m;
        proof {
            vstd::arithmetic::div_mod::lemma_fundamental_div_mod(u as int, m as int);
            vstd::arithmetic::div_mod::lemma_div_nonincreasing(u as int, m as int);
            vstd::arithmetic::div_mod::lemma_div_pos_is_pos(u as int, m as int);
            vstd::arithmetic::div_mod::lemma_fundamental_div_mod_converse(
                num as int,
                modulus as int,
                q as int,
                rem as int,
            );
        }
        (rem as i32, q as i32)
    } else {
        let neg = (-(num as i64)) as u64;
        let q0 = neg / m;
        let r0 = neg % m;
        proof {
            vstd::arithmetic::div_mod::lemma_fundamental_div_mod(neg as int, m as int);
        }
        if r0 == 0 {
            proof {
                assert(num as int == (-(q0 as int)) * (m as int) + 0) by (nonlinear_arith)
                    requires
                        neg as int == m as int * (q0 as int) + r0 as int,
                        r0 == 0,
                        num as int == -(neg as int),
                ;
                vstd::arithmetic::div_mod::lemma_div_nonincreasing(neg as int, m as int);
                vstd::arithmetic::div_mod::lemma_div_pos_is_pos(neg as int, m as int);
                vstd::arithmetic::div_mod::lemma_fundamental_div_mod_converse(
                    num as int,
                    modulus as int,
                    -(q0 as int),
                    0,
                );
            }
            (0, (-(q0 as i64)) as i32)
        } else {
            proof {
                assert(num as int == (-(q0 as int) - 1) * (m as int) + (m as int - r0 as int))
                    by (nonlinear_arith)
                    requires
                        neg as int == m as int * (q0 as int) + r0 as int,
                        num as int == -(neg as int),
                ;
                // `r0 != 0` rules out `m == 1`, so the quotient magnitude is at
                // most half of `neg` and the result fits an i32.
                assert(m >= 2) by {
                    if m == 1 {
                        vstd::arithmetic::div_mod::lemma_mod_self_0(1);
                        vstd::arithmetic::div_mod::lemma_mod_division_less_than_divisor(
                            neg as int,
                            1,
                        );
                    }
                };
                vstd::arithmetic::div_mod::lemma_div_is_ordered_by_denominator(
                    neg as int,
                    2,
                    m as int,
                );
                vstd::arithmetic::div_mod::lemma_div_is_ordered(
                    neg as int,
                    0x8000_0000,
                    2,
                );
                vstd::arithmetic::div_mod::lemma_div_pos_is_pos(neg as int, m as int);
                vstd::arithmetic::div_mod::lemma_fundamental_div_mod_converse(
                    num as int,
                    modulus as int,
                    -(q0 as int) - 1,
                    m as int - r0 as int,
                );
            }
            ((m - r0) as i32, (-(q0 as i64) - 1) as i32)
        }
    }
}

/// Floor division with remainder on wide integers, for a positive modulus:
/// the remainder is in `[0, modulus)` and the quotient rounds toward negative
/// infinity. Returns `(remainder, quotient)`.
pub(crate) fn floor_div_mod(num: i64, modulus: i64) -> (r: (i64, i64))
    requires
        1 <= modulus,
    ensures
        r.0 as int == num as int % modulus as int,
        r.1 as int == num as int / modulus as int,
{
    let m = modulus as u128;
    if num >= 0 {
        let u = num as u128;
        let q = u / m;
        let rem = u % m;
        proof {
            vstd::arithmetic::div_mod::lemma_fundamental_div_mod(u as int, m as int);
            vstd::arithmetic::div_mod::lemma_div_nonincreasing(u as int, m as int);
            vstd::arithmetic::div_mod::lemma_div_pos_is_pos(u as int, m as int);
            vstd::arithmetic::div_mod::lemma_fundamental_div_mod_converse(
                num as int,
                modulus as int,
                q as int,
                rem as int,
            );
        }
        (rem as i64, q as i64)
    } else {
        let neg = (-(num as i128)) as u128;
        let q0 = neg / m;
        let r0 = neg % m;
        proof {
            vstd::arithmetic::div_mod::lemma_fundamental_div_mod(neg as int, m as int);
        }
        if r0 == 0 {
            proof {
                assert(num as int == (-(q0 as int)) * (m as int) + 0) by (nonlinear_arith)
                    requires
                        neg as int == m as int * (q0 as int) + r0 as int,
                        r0 == 0,
                        num as int == -(neg as int),
                ;
                vstd::arithmetic::div_mod::lemma_div_nonincreasing(neg as int, m as int);
                vstd::arithmetic::div_mod::lemma_div_pos_is_pos(neg as int, m as int);
                vstd::arithmetic::div_mod::lemma_fundamental_div_mod_converse(
                    num as int,
                    modulus as int,
                    -(q0 as int),
                    0,
                );
            }
            (0, (-(q0 as i128)) as i64)
        } else {
            proof {
                assert(num as int == (-(q0 as int) - 1) * (m as int) + (m as int - r0 as int))
                    by (nonlinear_arith)
                    requires
                        neg as int == m as int * (q0 as int) + r0 as int,
                        num as int == -(neg as int),
                ;
                // `r0 != 0` rules out `modulus == 1`, so the quotient magnitude
                // is at most half of `neg` and the result fits the type.
                assert(m >= 2) by {
                    if m == 1 {
                        vstd::arithmetic::div_mod::lemma_mod_self_0(1);
                        vstd::arithmetic::div_mod::lemma_mod_division_less_than_divisor(
                            neg as int,
                            1,
                        );
                    }
                };
                vstd::arithmetic::div_mod::lemma_div_is_ordered_by_denominator(
                    neg as int,
                    2,
                    m as int,
                );
                vstd::arithmetic::div_mod::lemma_div_is_ordered(
                    neg as int,
                    0x8000_0000_0000_0000,
                    2,
                );
                vstd::arithmetic::div_mod::lemma_div_pos_is_pos(neg as int, m as int);
                vstd::arithmetic::div_mod::lemma_fundamental_div_mod_converse(
                    num as int,
                    modulus as int,
                    -(q0 as int) - 1,
                    m as int - r0 as int,
                );
            }
            ((modulus - (r0 as i64)), (-(q0 as i128) - 1) as i64)
        }
    }
}

/// The euclidean remainder on wide integers, for a positive modulus: the
/// result lies in `[0, modulus)`. The dividend must stay clear of the type's
/// minimum so its magnitude is representable.
pub(crate) fn floor_mod_i128(num: i128, modulus: i128) -> (r: i128)
    requires
        1 <= modulus,
        -0x4000_0000_0000_0000_0000_0000_0000_0000 <= num
            <= 0x4000_0000_0000_0000_0000_0000_0000_0000,
    ensures
        r as int == num as int % modulus as int,
        0 <= r < modulus,
{
    let m = modulus as u128;
    if num >= 0 {
        let rem = (num as u128) % m;
        proof {
            vstd::arithmetic::div_mod::lemma_mod_bound(num as int, modulus as int);
        }
        rem as i128
    } else {
        let neg = (-num) as u128;
        let q0 = neg / m;
        let r0 = neg % m;
        proof {
            vstd::arithmetic::div_mod::lemma_fundamental_div_mod(neg as int, m as int);
        }
        if r0 == 0 {
            proof {
                assert(num as int == (-(q0 as int)) * (m as int) + 0) by (nonlinear_arith)
                    requires
                        neg as int == m as int * (q0 as int) + r0 as int,
                        r0 == 0,
                        num as int == -(neg as int),
                ;
                vstd::arithmetic::div_mod::lemma_fundamental_div_mod_converse_mod(
                    num as int,
                    modulus as int,
                    -(q0 as int),
                    0,
                );
            }
            0
        } else {
            proof {
                assert(num as int == (-(q0 as int) - 1) * (m as int) + (m as int - r0 as int))
                    by (nonlinear_arith)
                    requires
                        neg as int == m as int * (q0 as int) + r0 as int,
                        num as int == -(neg as int),
                ;
                vstd::arithmetic::div_mod::lemma_fundamental_div_mod_converse_mod(
                    num as int,
                    modulus as int,
                    -(q0 as int) - 1,
                    m as int - r0 as int,
                );
            }
            modulus - (r0 as i128)
        }
    }
}

/// For a target in `[0, modulus)` that shifts by `d * nsites` with
/// `nsites <= modulus`, the carry `shifted / modulus` stays between
/// `min(d, 0)` and `max(d, 0)`: wrapping never needs more unit-cell
/// translations than the original delta asked for.
pub(crate) proof fn lemma_carry_in_range(target: int, d: int, nsites: int, modulus: int)
    requires
        0 <= target < modulus,
        1 <= nsites <= modulus,
    ensures
        d >= 0 ==> 0 <= (target + d * nsites) / modulus <= d,
        d < 0 ==> d <= (target + d * nsites) / modulus <= 0,
{
    let shifted = target + d * nsites;
    if d >= 0 {
        assert(0 <= shifted) by (nonlinear_arith)
            requires
                0 <= target,
                0 <= d,
                1 <= nsites,
                shifted == target + d * nsites,
        ;
        vstd::arithmetic::div_mod::lemma_div_pos_is_pos(shifted, modulus);
        assert(shifted < modulus * (d + 1)) by (nonlinear_arith)
            requires
                target < modulus,
                0 <= d,
                1 <= nsites <= modulus,
                shifted == target + d * nsites,
        ;
        vstd::arithmetic::div_mod::lemma_multiply_divide_lt(shifted, modulus, d + 1);
    } else {
        assert(modulus * d <= shifted) by (nonlinear_arith)
            requires
                0 <= target,
                d < 0,
                1 <= nsites <= modulus,
                shifted == target + d * nsites,
        ;
        vstd::arithmetic::div_mod::lemma_div_multiples_vanish(d, modulus);
        vstd::arithmetic::div_mod::lemma_div_is_ordered(modulus * d, shifted, modulus);
        assert(shifted < modulus * 1) by (nonlinear_arith)
            requires
                target < modulus,
                d < 0,
                1 <= nsites,
                shifted == target + d * nsites,
        ;
        vstd::arithmetic::div_mod::lemma_multiply_divide_lt(shifted, modulus, 1);
    }
}

/// Owned copies of a list of string slices, in order.
pub(crate) fn to_owned_all(tags: Vec<&str>) -> (r: Vec<String>)
    ensures
        r.deep_view() == tags.deep_view(),
{
    let n = tags.len();
    let mut owned: Vec<String> = Vec::new();
    let mut i: usize = 0;
    while i < n
        invariant
            n == tags.len(),
            i <= n,
            owned@.len() == i,
            forall|j: int| 0 <= j < i ==> owned@[j]@ == tags@[j]@,
        decreases n - i,
    {
        owned.push(tags[i].to_owned());
        i += 1;
    }
    proof {
        assert forall|j: int| 0 <= j < n implies owned.deep_view()[j] == tags.deep_view()[j] by {
            assert(owned.deep_view()[j] == owned@[j]@);
            assert(tags.deep_view()[j] == tags@[j]@);
        }
        assert(owned.deep_view() =~= tags.deep_view());
    }
    owned
}

/// A trait for objects that carry an optional list of string tags.
pub trait Tagged {
    /// The tags as the contracts see them: absent, or a sequence of strings.
    spec fn spec_tags(&self) -> Option<Seq<Seq<char>>>;

    /// Returns the tags of the object
    fn tags(&self) -> (r: Option<&Vec<String>>)
        ensures
            r.deep_view() == self.spec_tags(),
    ;

    /// Returns `true` if the object has the given tag
    fn has_tag(&self, tag: &str) -> (r: bool)
        ensures
            r == (self.spec_tags() matches Some(ts) && ts.contains(tag@)),
    {
        let tag_string = tag.to_owned();
        match self.tags() {
            None => false,
            Some(ts) => {
                let n = ts.len();
                let mut i: usize = 0;
                while i < n
                    invariant
                        n == ts.len(),
                        i <= n,
                        ts.deep_view() == self.spec_tags().unwrap(),
                        self.spec_tags() matches Some(_),
                        tag_string@ == tag@,
                        forall|j: int| 0 <= j < i ==> ts@[j]@ != tag@,
                    decreases n - i,
                {
                    if tag_string == ts[i] {
                        proof {
                            assert(ts.deep_view()[i as int] == ts@[i as int].deep_view());
                        }
                        return true;
                    }
                    i += 1;
                }
                proof {
                    assert forall|k: int| 0 <= k < ts.deep_view().len() implies ts.deep_view()[k]
                        != tag@ by {
                        assert(ts.deep_view()[k] == ts@[k].deep_view());
                    }
                }
                false
            },
        }
    }
}

} // verus!
