//! Vertices: the older name for edges, kept for callers that still use it

use crate::util::{Axis, Tagged, axis_sel, axis_upd, floor_div_mod, to_owned_all};
use vstd::prelude::*;

verus! {

/// Represents a vertex in a lattice.
///
/// The `source` and `target` fields are the indices of the sites that the
/// vertex connects. The `delta` field is a triple of the displacements of the
/// target site from the source site, in unit-cell repeats along each axis. A
/// `delta` of `(0, 0, 1)` means that the target site lies one unit cell along
/// the z axis from the source site; `(0, 0, 0)` means both endpoints lie in
/// the same periodic image.
#[derive(Debug)]
pub struct Vertex {
    source: usize,
    target: usize,
    delta: (i32, i32, i32),
    tags: Option<Vec<String>>,
}

/// What a vertex is to the contracts: two endpoint indices, a translation
/// vector, and optional tags.
pub ghost struct VertexView {
    pub source: int,
    pub target: int,
    pub delta: (int, int, int),
    pub tags: Option<Seq<Seq<char>>>,
}

impl View for Vertex {
    type V = VertexView;

    closed spec fn view(&self) -> VertexView {
        VertexView {
            source: self.source as int,
            target: self.target as int,
            delta: (self.delta.0 as int, self.delta.1 as int, self.delta.2 as int),
            tags: self.tags.deep_view(),
        }
    }
}

impl VertexView {
    /// The component of the translation vector along an axis.
    pub open spec fn delta_along(self, axis: Axis) -> int {
        axis_sel(self.delta, axis)
    }

    /// The vertex as `move_along` rewrites it: both endpoints shift by
    /// `amount * nsites` into replica `amount`'s index space, and the shifted
    /// target plus `delta * nsites` wraps into the `limit * nsites` sites of
    /// the grown lattice, the carry becoming the new delta along `axis`.
    /// `%` and `/` here are Verus's euclidean operators, which agree with
    /// floor semantics for a positive divisor.
    pub open spec fn moved(self, axis: Axis, amount: int, nsites: int, limit: int) -> VertexView {
        let shifted = self.target + amount * nsites + self.delta_along(axis) * nsites;
        VertexView {
            source: self.source + amount * nsites,
            target: shifted % (limit * nsites),
            delta: axis_upd(self.delta, axis, shifted / (limit * nsites)),
            tags: self.tags,
        }
    }
}

impl Clone for Vertex {
    /// A clone is the same vertex, as the contracts see it.
    fn clone(&self) -> (r: Self)
        ensures
            r@ == self@,
    {
        let tags: Option<Vec<String>> = match &self.tags {
            None => None,
            Some(v) => {
                let c = v.clone();
                proof {
                    assert(c@ =~= v@);
                }
                Some(c)
            },
        };
        Vertex {
            source: self.source,
            target: self.target,
            delta: (self.delta.0, self.delta.1, self.delta.2),
            tags,
        }
    }
}

impl Tagged for Vertex {
    open spec fn spec_tags(&self) -> Option<Seq<Seq<char>>> {
        self@.tags
    }

    fn tags(&self) -> (r: Option<&Vec<String>>)
        ensures
            r.deep_view() == self.spec_tags(),
    {
        self.tags.as_ref()
    }
}

impl Vertex {
    /// Creates a new vertex with the given source and target
    pub fn new(source: usize, target: usize, delta: (i32, i32, i32)) -> (r: Self)
        ensures
            r@.source == source as int,
            r@.target == target as int,
            r@.delta == (delta.0 as int, delta.1 as int, delta.2 as int),
            r@.tags is None,
    {
        Vertex { source, target, delta, tags: None }
    }

    /// Returns the `source` of the vertex
    pub fn source(&self) -> (r: usize)
        ensures
            r as int == self@.source,
    {
        self.source
    }

    /// Returns the `target` of the vertex
    pub fn target(&self) -> (r: usize)
        ensures
            r as int == self@.target,
    {
        self.target
    }

    /// Returns the `delta` of the vertex
    pub fn delta(&self) -> (r: (i32, i32, i32))
        ensures
            (r.0 as int, r.1 as int, r.2 as int) == self@.delta,
    {
        (self.delta.0, self.delta.1, self.delta.2)
    }

    /// Changes the tags of the vertex
    pub fn with_tags(self, tags: Vec<&str>) -> (r: Self)
        ensures
            r@ == (VertexView { tags: Some(tags.deep_view()), ..self@ }),
    {
        let owned = to_owned_all(tags);
        Vertex { tags: Some(owned), ..self }
    }

    /// Changes the tags of the vertex to an owned list.
    pub(crate) fn with_owned_tags(self, tags: Vec<String>) -> (r: Self)
        ensures
            r@ == (VertexView { tags: Some(tags.deep_view()), ..self@ }),
    {
        Vertex { tags: Some(tags), ..self }
    }

    /// The component of the delta along an axis.
    fn delta_along(&self, axis: Axis) -> (r: i32)
        ensures
            r as int == self@.delta_along(axis),
    {
        match axis {
            Axis::X => self.delta.0,
            Axis::Y => self.delta.1,
            Axis::Z => self.delta.2,
        }
    }

    /// Move the vertex along a given axis, for growing a lattice along that
    /// axis. The vertex belongs to a unit cell of `nsites` sites; the lattice
    /// is grown to `limit` replicas of that cell, and this vertex's copy is
    /// placed in replica `amount`. Both endpoints shift into that replica's
    /// index space; the target then wraps into `[0, limit * nsites)` with
    /// floor semantics, the carry becoming the new delta along `axis`.
    pub fn move_along(self, axis: Axis, amount: usize, nsites: usize, limit: usize) -> (r: Self)
        requires
            self@.source < nsites,
            self@.target < nsites,
            amount < limit,
            limit as int * nsites as int <= i32::MAX as int,
        ensures
            r@ == self@.moved(axis, amount as int, nsites as int, limit as int),
    {
        proof {
            assert(nsites as int + (amount as int) * (nsites as int) <= (limit as int) * (
            nsites as int)) by (nonlinear_arith)
                requires
                    amount < limit,
                    0 < nsites,
            ;
        }
        let distance = amount * nsites;
        let source = self.source + distance;
        let target = self.target + distance;
        let d = self.delta_along(axis);
        let modulus = limit * nsites;
        proof {
            assert(nsites as int <= (limit as int) * (nsites as int)) by (nonlinear_arith)
                requires
                    1 <= limit,
                    0 < nsites,
            ;
            assert(-0x4000_0000_0000_0000 <= (d as int) * (nsites as int)
                <= 0x4000_0000_0000_0000) by (nonlinear_arith)
                requires
                    -0x8000_0000 <= d as int <= 0x7fff_ffff,
                    0 < nsites as int <= 0x7fff_ffff,
            ;
        }
        let shifted = target as i64 + (d as i64) * (nsites as i64);
        proof {
            crate::util::lemma_carry_in_range(
                target as int,
                d as int,
                nsites as int,
                modulus as int,
            );
        }
        let (rem, carry) = floor_div_mod(shifted, modulus as i64);
        let delta = match axis {
            Axis::X => (carry as i32, self.delta.1, self.delta.2),
            Axis::Y => (self.delta.0, carry as i32, self.delta.2),
            Axis::Z => (self.delta.0, self.delta.1, carry as i32),
        };
        Vertex { source, target: rem as usize, delta, tags: self.tags }
    }

    /// Move along the x axis
    pub fn move_x(self, amount: usize, nsites: usize, limit: usize) -> (r: Self)
        requires
            self@.source < nsites,
            self@.target < nsites,
            amount < limit,
            limit as int * nsites as int <= i32::MAX as int,
        ensures
            r@ == self@.moved(Axis::X, amount as int, nsites as int, limit as int),
    {
        self.move_along(Axis::X, amount, nsites, limit)
    }

    /// Move along the y axis
    pub fn move_y(self, amount: usize, nsites: usize, limit: usize) -> (r: Self)
        requires
            self@.source < nsites,
            self@.target < nsites,
            amount < limit,
            limit as int * nsites as int <= i32::MAX as int,
        ensures
            r@ == self@.moved(Axis::Y, amount as int, nsites as int, limit as int),
    {
        self.move_along(Axis::Y, amount, nsites, limit)
    }

    /// Move along the z axis
    pub fn move_z(self, amount: usize, nsites: usize, limit: usize) -> (r: Self)
        requires
            self@.source < nsites,
            self@.target < nsites,
            amount < limit,
            limit as int * nsites as int <= i32::MAX as int,
        ensures
            r@ == self@.moved(Axis::Z, amount as int, nsites as int, limit as int),
    {
        self.move_along(Axis::Z, amount, nsites, limit)
    }

    /// Re-index the vertex: both endpoints are rewritten through the table.
    pub fn reindex(self, index: &[usize]) -> (r: Self)
        requires
            self@.source < index@.len(),
            self@.target < index@.len(),
        ensures
            r@ == (VertexView {
                source: index@[self@.source] as int,
                target: index@[self@.target] as int,
                ..self@
            }),
    {
        let source = index[self.source];
        let target = index[self.target];
        Vertex { source, target, ..self }
    }
}

} // verus!
