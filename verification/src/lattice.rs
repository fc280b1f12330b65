//! Lattice data structure

use crate::alloy::Alloy;
use crate::edge::{Edge, EdgeView};
use crate::error::VegasLatticeError;
use crate::mask::Mask;
use crate::site::{Site, SiteView};
use crate::util::{Axis, axis_sel, axis_upd};
use vstd::prelude::*;
use vstd::seq_lib::group_seq_properties;

verus! {

/// A lattice is a collection of sites and edges.
///
/// Only rectangular lattices are supported: orthorhombic, tetragonal and
/// cubic Bravais lattices, with the lattice vectors aligned with the
/// cartesian axes and the parameters _a_, _b_ and _c_ free. Coordinates and
/// sizes are integers in a unit of the caller's choosing.
#[derive(Debug)]
pub struct Lattice {
    size: (i64, i64, i64),
    sites: Vec<Site>,
    edges: Vec<Edge>,
}

/// What a lattice is to the contracts: a size triple, the sites in order,
/// and the edges in order.
pub ghost struct LatticeView {
    pub size: (int, int, int),
    pub sites: Seq<SiteView>,
    pub edges: Seq<EdgeView>,
}

/// The sequence of site views under a sequence of sites.
pub open spec fn sites_view(v: Seq<Site>) -> Seq<SiteView> {
    Seq::new(v.len(), |i: int| v[i]@)
}

/// The sequence of edge views under a sequence of edges.
pub open spec fn edges_view(v: Seq<Edge>) -> Seq<EdgeView> {
    Seq::new(v.len(), |i: int| v[i]@)
}

impl View for Lattice {
    type V = LatticeView;

    closed spec fn view(&self) -> LatticeView {
        LatticeView {
            size: (self.size.0 as int, self.size.1 as int, self.size.2 as int),
            sites: sites_view(self.sites@),
            edges: edges_view(self.edges@),
        }
    }
}

/// How many of the first `i` flags are set: the dense new index of the
/// `i`-th old site once the unflagged sites are removed.
pub open spec fn kept_count(keep: Seq<bool>, i: int) -> int
    decreases i,
{
    if i <= 0 {
        0
    } else {
        kept_count(keep, i - 1) + if keep[i - 1] {
            1int
        } else {
            0int
        }
    }
}

/// The first `n` sites with their flag set, in order.
pub open spec fn kept_sites(sites: Seq<SiteView>, keep: Seq<bool>, n: int) -> Seq<SiteView>
    decreases n,
{
    if n <= 0 {
        Seq::empty()
    } else {
        let prefix = kept_sites(sites, keep, n - 1);
        if keep[n - 1] {
            prefix.push(sites[n - 1])
        } else {
            prefix
        }
    }
}

/// An edge rewritten through the dense renumbering of the kept sites.
pub open spec fn reindexed(e: EdgeView, keep: Seq<bool>) -> EdgeView {
    EdgeView { source: kept_count(keep, e.source), target: kept_count(keep, e.target), ..e }
}

/// The first `n` edges whose endpoints both survive, each rewritten through
/// the dense renumbering, in order.
pub open spec fn kept_edges(edges: Seq<EdgeView>, keep: Seq<bool>, n: int) -> Seq<EdgeView>
    decreases n,
{
    if n <= 0 {
        Seq::empty()
    } else {
        let prefix = kept_edges(edges, keep, n - 1);
        let e = edges[n - 1];
        if 0 <= e.source < keep.len() && 0 <= e.target < keep.len() && keep[e.source]
            && keep[e.target] {
            prefix.push(reindexed(e, keep))
        } else {
            prefix
        }
    }
}

/// How a site's keep flag must relate to the mask's alpha under the site's
/// projected position: an opaque pixel keeps the site for sure, a fully
/// transparent one drops it for sure; in between, either way.
pub open spec fn mask_keep_ok(
    m: crate::mask::MaskView,
    axis: Axis,
    s: SiteView,
    kept: bool,
) -> bool {
    let xy = crate::util::plane_sel(s.position, axis);
    &&& (m.alpha_at(xy.0, xy.1) == 255 ==> kept)
    &&& (m.alpha_at(xy.0, xy.1) == 0 ==> !kept)
}

/// A keep vector the mask could have drawn for this lattice: one flag per
/// site, each compatible with the mask's alpha at the site.
pub open spec fn mask_admissible(
    l: LatticeView,
    m: crate::mask::MaskView,
    axis: Axis,
    keep: Seq<bool>,
) -> bool {
    &&& keep.len() == l.sites.len()
    &&& forall|i: int|
        0 <= i < keep.len() ==> mask_keep_ok(m, axis, #[trigger] l.sites[i], keep[i])
}

/// Keeps the edges that do not leave the unit cell along `axis`.
pub open spec fn keeps_axis(axis: Axis) -> spec_fn(EdgeView) -> bool {
    |e: EdgeView| e.delta_along(axis) == 0
}

impl LatticeView {
    /// The size component along an axis.
    pub open spec fn size_along(self, axis: Axis) -> int {
        axis_sel(self.size, axis)
    }

    /// Every edge endpoint is a valid site index.
    pub open spec fn edges_consistent(self) -> bool {
        forall|i: int|
            0 <= i < self.edges.len() ==> {
                &&& 0 <= #[trigger] self.edges[i].source < self.sites.len()
                &&& 0 <= self.edges[i].target < self.sites.len()
            }
    }

    /// All three size components are non-negative.
    pub open spec fn size_ok(self) -> bool {
        self.size.0 >= 0 && self.size.1 >= 0 && self.size.2 >= 0
    }

    /// The lattice invariant: consistent edges and a non-negative size.
    pub open spec fn wf(self) -> bool {
        self.edges_consistent() && self.size_ok()
    }

    /// The lattice with every edge that is periodic along `axis` removed;
    /// sites and size are untouched.
    pub open spec fn dropped(self, axis: Axis) -> LatticeView {
        LatticeView { edges: self.edges.filter(keeps_axis(axis)), ..self }
    }

    /// The lattice replicated `amount` times along `axis`: replica `i` of
    /// original site `k` stands at index `i * n0 + k`, translated by
    /// `i * size_along(axis)`; replica `i` of original edge `j` stands at
    /// index `i * e0 + j`, rewritten by `EdgeView::moved`; the size along
    /// `axis` is scaled by `amount`.
    pub open spec fn expanded(self, axis: Axis, amount: int) -> LatticeView {
        let n0 = self.sites.len() as int;
        let e0 = self.edges.len() as int;
        let s0 = self.size_along(axis);
        LatticeView {
            size: axis_upd(self.size, axis, s0 * amount),
            sites: Seq::new(
                (amount * n0) as nat,
                |j: int| self.sites[j % n0].moved(axis, (j / n0) * s0),
            ),
            edges: Seq::new(
                (amount * e0) as nat,
                |j: int| self.edges[j % e0].moved(axis, j / e0, n0, amount),
            ),
        }
    }

    /// The lattice with the unflagged sites removed: the survivors renumbered
    /// densely in their original order, every edge that lost an endpoint
    /// dropped, and every surviving edge rewritten through the renumbering.
    /// The size is untouched.
    pub open spec fn filtered(self, keep: Seq<bool>) -> LatticeView {
        LatticeView {
            size: self.size,
            sites: kept_sites(self.sites, keep, self.sites.len() as int),
            edges: kept_edges(self.edges, keep, self.edges.len() as int),
        }
    }

    /// Whether the machine can expand this lattice by `x`, `y` and `z` along
    /// the three axes in turn: each stage must fit, in the lattice the
    /// previous stage produced.
    pub open spec fn can_expand3(self, x: int, y: int, z: int) -> bool {
        &&& self.can_expand(Axis::X, x)
        &&& self.expanded(Axis::X, x).can_expand(Axis::Y, y)
        &&& self.expanded(Axis::X, x).expanded(Axis::Y, y).can_expand(Axis::Z, z)
    }

    /// Whether the machine can expand this lattice `amount` times along
    /// `axis`: every shifted position and the scaled size must fit their
    /// types, and the replicated site count must stay in index range.
    pub open spec fn can_expand(self, axis: Axis, amount: int) -> bool {
        let n0 = self.sites.len() as int;
        let e0 = self.edges.len() as int;
        let s0 = self.size_along(axis);
        &&& 1 <= amount <= i64::MAX as int
        &&& amount * n0 <= i32::MAX as int
        &&& amount * e0 <= i32::MAX as int
        &&& s0 * amount <= i64::MAX as int
        &&& forall|k: int|
            0 <= k < n0 ==> (#[trigger] axis_sel(self.sites[k].position, axis)) + (amount - 1)
                * s0 <= i64::MAX as int
    }
}

impl Clone for Lattice {
    /// A clone is the same lattice, as the contracts see it.
    fn clone(&self) -> (r: Self)
        ensures
            r@ == self@,
    {
        let mut sites: Vec<Site> = Vec::new();
        let mut i: usize = 0;
        let n = self.sites.len();
        while i < n
            invariant
                n == self.sites@.len(),
                i <= n,
                sites@.len() == i,
                forall|j: int| 0 <= j < i ==> sites@[j]@ == self.sites@[j]@,
            decreases n - i,
        {
            sites.push(self.sites[i].clone());
            i += 1;
        }
        let mut edges: Vec<Edge> = Vec::new();
        let n = self.edges.len();
        let mut i: usize = 0;
        while i < n
            invariant
                n == self.edges@.len(),
                i <= n,
                edges@.len() == i,
                forall|j: int| 0 <= j < i ==> edges@[j]@ == self.edges@[j]@,
            decreases n - i,
        {
            edges.push(self.edges[i].clone());
            i += 1;
        }
        let r = Lattice { size: (self.size.0, self.size.1, self.size.2), sites, edges };
        proof {
            assert(sites_view(r.sites@) =~= sites_view(self.sites@));
            assert(edges_view(r.edges@) =~= edges_view(self.edges@));
        }
        r
    }
}

impl Lattice {
    /// Create a new, empty lattice with the given size; a negative size
    /// component is rejected with `NegativeSize`.
    pub fn try_new(size: (i64, i64, i64)) -> (r: core::result::Result<Self, VegasLatticeError>)
        ensures
            r is Ok <==> size.0 >= 0 && size.1 >= 0 && size.2 >= 0,
            r matches Ok(l) ==> {
                &&& l@.size == (size.0 as int, size.1 as int, size.2 as int)
                &&& l@.sites == Seq::<SiteView>::empty()
                &&& l@.edges == Seq::<EdgeView>::empty()
                &&& l@.wf()
            },
            r matches Err(e) ==> e == VegasLatticeError::NegativeSize,
    {
        if size.0 < 0 || size.1 < 0 || size.2 < 0 {
            return Err(VegasLatticeError::NegativeSize);
        }
        let l = Lattice { size, sites: Vec::new(), edges: Vec::new() };
        proof {
            assert(l@.sites =~= Seq::<SiteView>::empty());
            assert(l@.edges =~= Seq::<EdgeView>::empty());
        }
        Ok(l)
    }

    /// Create a simple cubic lattice with the given lattice parameter _a_:
    /// one site at the origin, and one periodic self-loop along each axis.
    pub fn sc(a: i64) -> (r: Self)
        requires
            0 <= a,
        ensures
            r@.size == (a as int, a as int, a as int),
            r@.sites =~= seq![
                SiteView { kind: "A"@, position: (0, 0, 0), tags: None },
            ],
            r@.edges =~= seq![
                EdgeView { source: 0, target: 0, delta: (1, 0, 0), tags: None },
                EdgeView { source: 0, target: 0, delta: (0, 1, 0), tags: None },
                EdgeView { source: 0, target: 0, delta: (0, 0, 1), tags: None },
            ],
            r@.wf(),
    {
        let mut sites: Vec<Site> = Vec::new();
        sites.push(Site::new("A"));
        let mut edges: Vec<Edge> = Vec::new();
        edges.push(Edge::new(0, 0, (1, 0, 0)));
        edges.push(Edge::new(0, 0, (0, 1, 0)));
        edges.push(Edge::new(0, 0, (0, 0, 1)));
        Lattice { size: (a, a, a), sites, edges }
    }

    /// Create a body centered cubic lattice with the given lattice parameter
    /// _a_: a corner site and a body-center site at `(a/2, a/2, a/2)`,
    /// connected to all eight neighboring corner images. An odd `a` puts the
    /// center at the floor of the half.
    pub fn bcc(a: i64) -> (r: Self)
        requires
            0 <= a,
        ensures
            r@.size == (a as int, a as int, a as int),
            r@.sites =~= seq![
                SiteView { kind: "A"@, position: (0, 0, 0), tags: None },
                SiteView {
                    kind: "B"@,
                    position: (a as int / 2, a as int / 2, a as int / 2),
                    tags: None,
                },
            ],
            r@.edges.len() == 8,
            forall|i: int|
                0 <= i < 8 ==> (#[trigger] r@.edges[i]) == (EdgeView {
                    source: 0,
                    target: 1,
                    delta: bcc_delta(i),
                    tags: None,
                }),
            r@.wf(),
    {
        let h = a / 2;
        let mut sites: Vec<Site> = Vec::new();
        sites.push(Site::new("A"));
        sites.push(Site::new("B").with_position((h, h, h)));
        let mut edges: Vec<Edge> = Vec::new();
        edges.push(Edge::new(0, 1, (0, 0, 0)));
        edges.push(Edge::new(0, 1, (0, -1, 0)));
        edges.push(Edge::new(0, 1, (-1, 0, 0)));
        edges.push(Edge::new(0, 1, (-1, -1, 0)));
        edges.push(Edge::new(0, 1, (0, 0, -1)));
        edges.push(Edge::new(0, 1, (0, -1, -1)));
        edges.push(Edge::new(0, 1, (-1, 0, -1)));
        edges.push(Edge::new(0, 1, (-1, -1, -1)));
        Lattice { size: (a, a, a), sites, edges }
    }

    /// Create a face centered cubic lattice with lattice parameter _a_: a
    /// corner site and one site at the center of each face, with the twelve
    /// face-diagonal neighbor edges. An odd `a` puts the centers at the
    /// floor of the half.
    pub fn fcc(a: i64) -> (r: Self)
        requires
            0 <= a,
        ensures
            r@.size == (a as int, a as int, a as int),
            r@.sites =~= seq![
                SiteView { kind: "A"@, position: (0, 0, 0), tags: None },
                SiteView { kind: "B"@, position: (a as int / 2, a as int / 2, 0), tags: None },
                SiteView { kind: "C"@, position: (a as int / 2, 0, a as int / 2), tags: None },
                SiteView { kind: "D"@, position: (0, a as int / 2, a as int / 2), tags: None },
            ],
            r@.edges.len() == 12,
            forall|i: int|
                0 <= i < 12 ==> (#[trigger] r@.edges[i]) == (EdgeView {
                    source: 0,
                    target: 1 + i / 4,
                    delta: fcc_delta(i),
                    tags: None,
                }),
            r@.wf(),
    {
        let h = a / 2;
        let mut sites: Vec<Site> = Vec::new();
        sites.push(Site::new("A"));
        sites.push(Site::new("B").with_position((h, h, 0)));
        sites.push(Site::new("C").with_position((h, 0, h)));
        sites.push(Site::new("D").with_position((0, h, h)));
        let mut edges: Vec<Edge> = Vec::new();
        // xy plane
        edges.push(Edge::new(0, 1, (0, 0, 0)));
        edges.push(Edge::new(0, 1, (-1, 0, 0)));
        edges.push(Edge::new(0, 1, (-1, -1, 0)));
        edges.push(Edge::new(0, 1, (0, -1, 0)));
        // xz plane
        edges.push(Edge::new(0, 2, (0, 0, 0)));
        edges.push(Edge::new(0, 2, (-1, 0, 0)));
        edges.push(Edge::new(0, 2, (-1, 0, -1)));
        edges.push(Edge::new(0, 2, (0, 0, -1)));
        // yz plane
        edges.push(Edge::new(0, 3, (0, 0, 0)));
        edges.push(Edge::new(0, 3, (0, -1, 0)));
        edges.push(Edge::new(0, 3, (0, -1, -1)));
        edges.push(Edge::new(0, 3, (0, 0, -1)));
        Lattice { size: (a, a, a), sites, edges }
    }

    /// Get the size of the lattice
    pub fn size(&self) -> (r: (i64, i64, i64))
        ensures
            (r.0 as int, r.1 as int, r.2 as int) == self@.size,
    {
        self.size
    }

    /// Get the sites of the lattice
    pub fn sites(&self) -> (r: &Vec<Site>)
        ensures
            sites_view(r@) == self@.sites,
    {
        &self.sites
    }

    /// Get the edges of the lattice
    pub fn edges(&self) -> (r: &Vec<Edge>)
        ensures
            edges_view(r@) == self@.edges,
    {
        &self.edges
    }

    /// Changes the size of the lattice, revalidating it.
    pub fn try_with_size(self, size: (i64, i64, i64)) -> (r: core::result::Result<
        Self,
        VegasLatticeError,
    >)
        ensures
            validated(LatticeView {
                size: (size.0 as int, size.1 as int, size.2 as int),
                ..self@
            }, r),
    {
        let updated = Lattice { size, ..self };
        updated.validate()
    }

    /// Changes the sites of the lattice, revalidating it.
    pub fn try_with_sites(self, sites: Vec<Site>) -> (r: core::result::Result<
        Self,
        VegasLatticeError,
    >)
        ensures
            validated(LatticeView { sites: sites_view(sites@), ..self@ }, r),
    {
        let updated = Lattice { sites, ..self };
        updated.validate()
    }

    /// Changes the edges of the lattice, revalidating it.
    pub fn try_with_edges(self, edges: Vec<Edge>) -> (r: core::result::Result<
        Self,
        VegasLatticeError,
    >)
        ensures
            validated(LatticeView { edges: edges_view(edges@), ..self@ }, r),
    {
        let updated = Lattice { edges, ..self };
        updated.validate()
    }

    /// Every edge endpoint is below the site count.
    fn are_edges_consistent(&self) -> (r: bool)
        ensures
            r == self@.edges_consistent(),
    {
        let nsites = self.sites.len();
        let nedges = self.edges.len();
        let mut i: usize = 0;
        while i < nedges
            invariant
                nsites == self.sites@.len(),
                nedges == self.edges@.len(),
                i <= nedges,
                forall|j: int|
                    0 <= j < i ==> {
                        &&& 0 <= #[trigger] self@.edges[j].source < nsites
                        &&& 0 <= self@.edges[j].target < nsites
                    },
            decreases nedges - i,
        {
            let edge = &self.edges[i];
            if edge.source() >= nsites || edge.target() >= nsites {
                proof {
                    assert(self@.edges[i as int].source == edge@.source);
                }
                return false;
            }
            i += 1;
        }
        true
    }

    /// Validates the lattice: `InconsistentEdges` if an edge endpoint is out
    /// of range, else `NegativeSize` if a size component is negative, else
    /// the lattice itself, unchanged.
    fn validate(self) -> (r: core::result::Result<Self, VegasLatticeError>)
        ensures
            validated(self@, r),
    {
        if !self.are_edges_consistent() {
            return Err(VegasLatticeError::InconsistentEdges);
        }
        if self.size.0 < 0 || self.size.1 < 0 || self.size.2 < 0 {
            return Err(VegasLatticeError::NegativeSize);
        }
        Ok(self)
    }

    /// The size component along an axis.
    fn size_along(&self, axis: Axis) -> (r: i64)
        ensures
            r as int == self@.size_along(axis),
    {
        match axis {
            Axis::X => self.size.0,
            Axis::Y => self.size.1,
            Axis::Z => self.size.2,
        }
    }

    /// Whether this machine can expand the lattice `amount` times along
    /// `axis`: the grown site and edge counts must stay in index range, and
    /// the shifted positions and the scaled size must fit their types.
    #[verifier::loop_isolation(false)]
    pub fn can_expand_along(&self, axis: Axis, amount: usize) -> (r: bool)
        ensures
            r == self@.can_expand(axis, amount as int),
    {
        let n0 = self.sites.len();
        let e0 = self.edges.len();
        let s0 = self.size_along(axis);
        if amount < 1 || amount as u64 > 0x7fff_ffff_ffff_ffff {
            return false;
        }
        proof {
            lemma_wide_products(amount as int, n0 as int, e0 as int, s0 as int);
        }
        if (amount as u128) * (n0 as u128) > 0x7fff_ffff || (amount as u128) * (e0 as u128)
            > 0x7fff_ffff {
            return false;
        }
        if (s0 as i128) * (amount as i128) > 0x7fff_ffff_ffff_ffff {
            return false;
        }
        let mut k: usize = 0;
        while k < n0
            invariant
                n0 == self.sites@.len(),
                k <= n0,
                1 <= amount,
                forall|j: int|
                    0 <= j < k ==> (#[trigger] axis_sel(self@.sites[j].position, axis)) + (
                    amount as int - 1) * (s0 as int) <= i64::MAX as int,
            decreases n0 - k,
        {
            let p = self.sites[k].position();
            let along = match axis {
                Axis::X => p.0,
                Axis::Y => p.1,
                Axis::Z => p.2,
            };
            proof {
                lemma_wide_products(amount as int - 1, n0 as int, e0 as int, s0 as int);
            }
            if (along as i128) + ((amount - 1) as i128) * (s0 as i128)
                > 0x7fff_ffff_ffff_ffff {
                proof {
                    assert(axis_sel(self@.sites[k as int].position, axis) == along as int);
                }
                return false;
            }
            k += 1;
        }
        true
    }

    /// Expands the lattice along the given axis: `amount` translated copies
    /// of every site, every edge rewritten into the grown index space with
    /// its periodicity wrapped, and the size along `axis` scaled.
    #[verifier::loop_isolation(false)]
    fn expand_along(self, axis: Axis, amount: usize) -> (r: Self)
        requires
            self@.wf(),
            self@.can_expand(axis, amount as int),
        ensures
            r@ == self@.expanded(axis, amount as int),
    {
        broadcast use crate::site::lemma_site_position_in_range;

        let n0 = self.sites.len();
        let e0 = self.edges.len();
        let s0 = self.size_along(axis);
        let ghost sv = sites_view(self.sites@);
        let ghost ev = edges_view(self.edges@);
        let ghost tsites = self@.expanded(axis, amount as int).sites;
        let ghost tedges = self@.expanded(axis, amount as int).edges;

        let mut sites: Vec<Site> = Vec::new();
        let mut i: usize = 0;
        while i < amount
            invariant
                i <= amount,
                sites@.len() == i * n0,
                forall|j: int| 0 <= j < i * n0 ==> sites@[j]@ == tsites[j],
            decreases amount - i,
        {
            proof {
                assert(0 <= (i as int) * (s0 as int) && (i as int) * (s0 as int) <= ((
                amount as int) - 1) * (s0 as int)) by (nonlinear_arith)
                    requires
                        0 <= s0,
                        0 <= (i as int) <= (amount as int) - 1,
                ;
                assert(((amount as int) - 1) * (s0 as int) <= (s0 as int) * (amount as int))
                    by (nonlinear_arith)
                    requires
                        0 <= s0,
                        1 <= amount,
                ;
            }
            let distance = (i as i64) * s0;
            let mut k: usize = 0;
            while k < n0
                invariant
                    k <= n0,
                    i < amount,
                    0 <= distance as int <= ((amount as int) - 1) * (s0 as int),
                    distance as int == (i as int) * (s0 as int),
                    sites@.len() == i * n0 + k,
                    forall|j: int| 0 <= j < i * n0 + k ==> sites@[j]@ == tsites[j],
                decreases n0 - k,
            {
                let ghost j0 = (i * n0 + k) as int;
                proof {
                    assert(0 <= j0 < (amount as int) * (n0 as int)) by (nonlinear_arith)
                        requires
                            0 <= (i as int) < (amount as int),
                            0 <= (k as int) < (n0 as int),
                            j0 == (i as int) * (n0 as int) + (k as int),
                    ;
                    vstd::arithmetic::div_mod::lemma_fundamental_div_mod_converse(
                        j0,
                        n0 as int,
                        i as int,
                        k as int,
                    );
                    assert(axis_sel(sv[k as int].position, axis) + ((amount as int) - 1) * (
                    s0 as int) <= i64::MAX as int);
                }
                let s = self.sites[k].clone();
                let moved = match axis {
                    Axis::X => s.move_x(distance),
                    Axis::Y => s.move_y(distance),
                    Axis::Z => s.move_z(distance),
                };
                sites.push(moved);
                proof {
                    assert(tsites[j0] == sv[j0 % n0 as int].moved(
                        axis,
                        (j0 / n0 as int) * (s0 as int),
                    ));
                }
                k += 1;
            }
            i += 1;
            proof {
                assert(i * n0 == (i - 1) * n0 + n0) by (nonlinear_arith);
            }
        }

        let mut edges: Vec<Edge> = Vec::new();
        let mut i: usize = 0;
        while i < amount
            invariant
                i <= amount,
                edges@.len() == i * e0,
                forall|j: int| 0 <= j < i * e0 ==> edges@[j]@ == tedges[j],
            decreases amount - i,
        {
            let mut k: usize = 0;
            while k < e0
                invariant
                    k <= e0,
                    i < amount,
                    edges@.len() == i * e0 + k,
                    forall|j: int| 0 <= j < i * e0 + k ==> edges@[j]@ == tedges[j],
                decreases e0 - k,
            {
                let ghost j0 = (i * e0 + k) as int;
                proof {
                    assert(0 <= j0 < (amount as int) * (e0 as int)) by (nonlinear_arith)
                        requires
                            0 <= (i as int) < (amount as int),
                            0 <= (k as int) < (e0 as int),
                            j0 == (i as int) * (e0 as int) + (k as int),
                    ;
                    vstd::arithmetic::div_mod::lemma_fundamental_div_mod_converse(
                        j0,
                        e0 as int,
                        i as int,
                        k as int,
                    );
                }
                let e = self.edges[k].clone();
                let moved = e.move_along(axis, i, n0, amount);
                edges.push(moved);
                proof {
                    assert(tedges[j0] == ev[j0 % e0 as int].moved(
                        axis,
                        j0 / e0 as int,
                        n0 as int,
                        amount as int,
                    ));
                }
                k += 1;
            }
            i += 1;
            proof {
                assert(i * e0 == (i - 1) * e0 + e0) by (nonlinear_arith);
            }
        }

        proof {
            assert(0 <= (s0 as int) * (amount as int)) by (nonlinear_arith)
                requires
                    0 <= s0,
                    1 <= amount,
            ;
        }
        let scaled = s0 * (amount as i64);
        let size = match axis {
            Axis::X => (scaled, self.size.1, self.size.2),
            Axis::Y => (self.size.0, scaled, self.size.2),
            Axis::Z => (self.size.0, self.size.1, scaled),
        };
        let r = Lattice { size, sites, edges };
        proof {
            assert(r@.sites =~= tsites);
            assert(r@.edges =~= tedges);
        }
        r
    }

    /// Expand lattice along the x axis
    pub fn expand_x(self, amount: usize) -> (r: Self)
        requires
            self@.wf(),
            self@.can_expand(Axis::X, amount as int),
        ensures
            r@ == self@.expanded(Axis::X, amount as int),
    {
        self.expand_along(Axis::X, amount)
    }

    /// Expand lattice along the y axis
    pub fn expand_y(self, amount: usize) -> (r: Self)
        requires
            self@.wf(),
            self@.can_expand(Axis::Y, amount as int),
        ensures
            r@ == self@.expanded(Axis::Y, amount as int),
    {
        self.expand_along(Axis::Y, amount)
    }

    /// Expand lattice along the z axis
    pub fn expand_z(self, amount: usize) -> (r: Self)
        requires
            self@.wf(),
            self@.can_expand(Axis::Z, amount as int),
        ensures
            r@ == self@.expanded(Axis::Z, amount as int),
    {
        self.expand_along(Axis::Z, amount)
    }

    /// Expand lattice by the given amount along all axes, x then y then z.
    pub fn expand(self, x: usize, y: usize, z: usize) -> (r: Self)
        requires
            self@.wf(),
            self@.can_expand3(x as int, y as int, z as int),
        ensures
            r@ == self@.expanded(Axis::X, x as int).expanded(Axis::Y, y as int).expanded(
                Axis::Z,
                z as int,
            ),
    {
        proof {
            lemma_expanded_wf(self@, Axis::X, x as int);
            lemma_expanded_wf(self@.expanded(Axis::X, x as int), Axis::Y, y as int);
        }
        self.expand_x(x).expand_y(y).expand_z(z)
    }

    /// Expand lattice by the same amount along all axes
    pub fn expand_all(self, amount: usize) -> (r: Self)
        requires
            self@.wf(),
            self@.can_expand3(amount as int, amount as int, amount as int),
        ensures
            r@ == self@.expanded(Axis::X, amount as int).expanded(Axis::Y, amount as int).expanded(
                Axis::Z,
                amount as int,
            ),
    {
        self.expand(amount, amount, amount)
    }

    /// Drops all the edges that are periodic along the given axis
    fn drop_along(self, axis: Axis) -> (r: Self)
        ensures
            r@ == self@.dropped(axis),
    {
        broadcast use group_seq_properties;

        let ghost evs = edges_view(self.edges@);
        let mut kept: Vec<Edge> = Vec::new();
        let nedges = self.edges.len();
        let mut i: usize = 0;
        while i < nedges
            invariant
                nedges == self.edges@.len(),
                i <= nedges,
                evs == edges_view(self.edges@),
                edges_view(kept@) =~= evs.take(i as int).filter(keeps_axis(axis)),
            decreases nedges - i,
        {
            let d = self.edges[i].delta();
            let keep = match axis {
                Axis::X => d.0 == 0,
                Axis::Y => d.1 == 0,
                Axis::Z => d.2 == 0,
            };
            proof {
                assert(evs.take(i + 1) =~= evs.take(i as int).push(evs[i as int]));
                Seq::lemma_filter_push(evs.take(i as int), evs[i as int], keeps_axis(axis));
                assert(keep == keeps_axis(axis)(evs[i as int]));
            }
            if keep {
                let e = self.edges[i].clone();
                kept.push(e);
                proof {
                    assert(edges_view(kept@) =~= evs.take(i + 1).filter(keeps_axis(axis)));
                }
            }
            i += 1;
        }
        proof {
            assert(evs.take(nedges as int) =~= evs);
        }
        let r = Lattice { edges: kept, ..self };
        r
    }

    /// Drop periodic boundary conditions along the x axis
    pub fn drop_x(self) -> (r: Self)
        ensures
            r@ == self@.dropped(Axis::X),
    {
        self.drop_along(Axis::X)
    }

    /// Drop periodic boundary conditions along the y axis
    pub fn drop_y(self) -> (r: Self)
        ensures
            r@ == self@.dropped(Axis::Y),
    {
        self.drop_along(Axis::Y)
    }

    /// Drop periodic boundary conditions along the z axis
    pub fn drop_z(self) -> (r: Self)
        ensures
            r@ == self@.dropped(Axis::Z),
    {
        self.drop_along(Axis::Z)
    }

    /// Drop periodic boundary conditions along all axes
    pub fn drop_all(self) -> (r: Self)
        ensures
            r@ == self@.dropped(Axis::X).dropped(Axis::Y).dropped(Axis::Z),
    {
        self.drop_x().drop_y().drop_z()
    }

    /// Removes the sites whose flag is false: survivors are renumbered
    /// densely in their original order, every edge that lost an endpoint is
    /// dropped, and every surviving edge is rewritten through the new
    /// numbering. The renumbering table is computed in full before anything
    /// is touched.
    #[verifier::loop_isolation(false)]
    pub fn filter_sites(self, keep: &Vec<bool>) -> (r: Self)
        requires
            self@.wf(),
            keep@.len() == self@.sites.len(),
        ensures
            r@ == self@.filtered(keep@),
            r@.wf(),
    {
        let ghost sv = sites_view(self.sites@);
        let ghost ev = edges_view(self.edges@);
        let nsites = self.sites.len();
        let nedges = self.edges.len();

        let mut new_indices: Vec<usize> = Vec::new();
        let mut counter: usize = 0;
        let mut i: usize = 0;
        while i < nsites
            invariant
                i <= nsites,
                new_indices@.len() == i,
                counter as int == kept_count(keep@, i as int),
                0 <= counter <= i,
                forall|j: int|
                    0 <= j < i ==> (#[trigger] new_indices@[j]) as int == (if keep@[j] {
                        kept_count(keep@, j)
                    } else {
                        j
                    }),
            decreases nsites - i,
        {
            if keep[i] {
                new_indices.push(counter);
                counter += 1;
            } else {
                new_indices.push(i);
            }
            i += 1;
        }

        let mut sites: Vec<Site> = Vec::new();
        let mut i: usize = 0;
        while i < nsites
            invariant
                i <= nsites,
                sites_view(sites@) =~= kept_sites(sv, keep@, i as int),
            decreases nsites - i,
        {
            if keep[i] {
                sites.push(self.sites[i].clone());
                proof {
                    assert(sites_view(sites@) =~= kept_sites(sv, keep@, i + 1));
                }
            }
            i += 1;
        }

        let mut edges: Vec<Edge> = Vec::new();
        let mut i: usize = 0;
        while i < nedges
            invariant
                i <= nedges,
                edges_view(edges@) =~= kept_edges(ev, keep@, i as int),
            decreases nedges - i,
        {
            let s = self.edges[i].source();
            let t = self.edges[i].target();
            if keep[s] && keep[t] {
                let e = self.edges[i].clone().reindex(&new_indices);
                edges.push(e);
                proof {
                    assert(e@ == reindexed(ev[i as int], keep@));
                    assert(edges_view(edges@) =~= kept_edges(ev, keep@, i + 1));
                }
            }
            i += 1;
        }

        let r = Lattice { size: self.size, sites, edges };
        proof {
            lemma_filtered_consistent(self@, keep@);
        }
        r
    }

    /// Removes sites from the lattice according to the given mask, projected
    /// on the plane perpendicular to the given axis: each site is kept with
    /// the mask's probability at its projected position, independently, with
    /// one draw per site; the survivors are then renumbered and the edges
    /// rewritten as `filter_sites` says.
    fn apply_mask(self, mask: Mask, axis: Axis, rng: &mut rand::rngs::StdRng) -> (r: Self)
        requires
            self@.wf(),
            mask@.wf(),
        ensures
            exists|keep: Seq<bool>|
                #[trigger] mask_admissible(self@, mask@, axis, keep) && r@ == self@.filtered(
                    keep,
                ),
            r@.wf(),
    {
        let nsites = self.sites.len();
        let mut keep: Vec<bool> = Vec::new();
        let mut i: usize = 0;
        while i < nsites
            invariant
                i <= nsites,
                nsites == self.sites@.len(),
                keep@.len() == i,
                mask@.wf(),
                forall|j: int|
                    0 <= j < i ==> mask_keep_ok(mask@, axis, #[trigger] self@.sites[j], keep@[j]),
            decreases nsites - i,
        {
            let p = self.sites[i].position();
            let (x, y) = axis.project_in_plane(p);
            let flag = mask.keep(x, y, rng);
            proof {
                assert((x as int, y as int) == crate::util::plane_sel(
                    self@.sites[i as int].position,
                    axis,
                ));
            }
            keep.push(flag);
            i += 1;
        }
        let ghost chosen = keep@;
        let r = self.filter_sites(&keep);
        proof {
            assert(mask_admissible(self@, mask@, axis, chosen) && r@ == self@.filtered(chosen));
        }
        r
    }

    /// Apply a mask in the plane perpendicular to the x axis.
    pub fn apply_mask_x(self, mask: Mask, rng: &mut rand::rngs::StdRng) -> (r: Self)
        requires
            self@.wf(),
            mask@.wf(),
        ensures
            exists|keep: Seq<bool>|
                #[trigger] mask_admissible(self@, mask@, Axis::X, keep) && r@ == self@.filtered(
                    keep,
                ),
            r@.wf(),
    {
        self.apply_mask(mask, Axis::X, rng)
    }

    /// Apply a mask in the plane perpendicular to the y axis.
    pub fn apply_mask_y(self, mask: Mask, rng: &mut rand::rngs::StdRng) -> (r: Self)
        requires
            self@.wf(),
            mask@.wf(),
        ensures
            exists|keep: Seq<bool>|
                #[trigger] mask_admissible(self@, mask@, Axis::Y, keep) && r@ == self@.filtered(
                    keep,
                ),
            r@.wf(),
    {
        self.apply_mask(mask, Axis::Y, rng)
    }

    /// Apply a mask in the plane perpendicular to the z axis.
    pub fn apply_mask_z(self, mask: Mask, rng: &mut rand::rngs::StdRng) -> (r: Self)
        requires
            self@.wf(),
            mask@.wf(),
        ensures
            exists|keep: Seq<bool>|
                #[trigger] mask_admissible(self@, mask@, Axis::Z, keep) && r@ == self@.filtered(
                    keep,
                ),
            r@.wf(),
    {
        self.apply_mask(mask, Axis::Z, rng)
    }

    /// Replaces the sites labeled as `source` with sites in the `target`
    /// alloy: each such site independently receives a kind drawn from the
    /// alloy's weighted distribution — always one with a positive weight —
    /// while every other site, all edges and the size stay untouched.
    #[verifier::loop_isolation(false)]
    pub fn alloy_sites(self, source: &str, target: Alloy, rng: &mut rand::rngs::StdRng) -> (r:
        Self)
        requires
            target.wf(),
        ensures
            r@.size == self@.size,
            r@.edges == self@.edges,
            r@.sites.len() == self@.sites.len(),
            forall|k: int|
                0 <= k < self@.sites.len() ==> alloyed(
                    self@.sites[k],
                    #[trigger] r@.sites[k],
                    source@,
                    target@,
                ),
            self@.wf() ==> r@.wf(),
    {
        let ghost sv = sites_view(self.sites@);
        let source_owned = source.to_owned();
        let nsites = self.sites.len();
        let mut sites: Vec<Site> = Vec::new();
        let mut i: usize = 0;
        while i < nsites
            invariant
                i <= nsites,
                sites@.len() == i,
                forall|k: int|
                    0 <= k < i ==> alloyed(sv[k], #[trigger] sites@[k]@, source@, target@),
            decreases nsites - i,
        {
            let site = self.sites[i].clone();
            let kind_matches = site.kind().to_owned() == source_owned;
            let site = if kind_matches {
                let picked = target.pick(rng);
                site.with_kind(picked)
            } else {
                site
            };
            sites.push(site);
            i += 1;
        }
        let r = Lattice { sites, ..self };
        proof {
            assert(sites_view(r.sites@) =~= sites_view(sites@));
            if self@.wf() {
                assert forall|j: int| 0 <= j < r@.edges.len() implies {
                    &&& 0 <= (#[trigger] r@.edges[j]).source < r@.sites.len()
                    &&& 0 <= r@.edges[j].target < r@.sites.len()
                } by {
                    assert(0 <= self@.edges[j].source < self@.sites.len());
                }
            }
        }
        r
    }
}

/// How one site relates to its replacement under alloying with kinds for
/// `source`: position and tags are untouched; a site of another kind is
/// untouched entirely; a site of the source kind receives some alloy kind of
/// positive weight.
pub open spec fn alloyed(
    old_site: SiteView,
    new_site: SiteView,
    source: Seq<char>,
    al: crate::alloy::AlloyView,
) -> bool {
    &&& new_site.position == old_site.position
    &&& new_site.tags == old_site.tags
    &&& (old_site.kind != source ==> new_site == old_site)
    &&& (old_site.kind == source ==> exists|i: int|
        {
            &&& 0 <= i < al.kinds.len()
            &&& new_site.kind == #[trigger] al.kinds[i]
            &&& al.weights[i] > 0
        })
}

/// The delta of the `i`-th edge of the body centered cubic cell: the center
/// site connects to the corner images toward negative x, y and z.
pub open spec fn bcc_delta(i: int) -> (int, int, int) {
    ((if i % 4 >= 2 { -1int } else { 0int }), (if i % 2 == 1 { -1int } else { 0int }), (if i >= 4 {
        -1int
    } else {
        0int
    }))
}

/// The delta of the `i`-th edge of the face centered cubic cell, four edges
/// for each of the three face planes.
pub open spec fn fcc_delta(i: int) -> (int, int, int) {
    if i < 4 {
        ((if i == 1 || i == 2 { -1int } else { 0int }), (if i == 2 || i == 3 { -1int } else { 0int }), 0int)
    } else if i < 8 {
        ((if i == 5 || i == 6 { -1int } else { 0int }), 0int, (if i == 6 || i == 7 { -1int } else { 0int }))
    } else {
        (0int, (if i == 9 || i == 10 { -1int } else { 0int }), (if i == 10 || i == 11 { -1int } else { 0int }))
    }
}

/// Products of machine-sized factors stay far inside 128-bit range, so the
/// wide comparisons in `can_expand_along` cannot overflow.
proof fn lemma_wide_products(amount: int, n0: int, e0: int, s0: int)
    requires
        0 <= amount <= i64::MAX as int,
        0 <= n0 <= u64::MAX as int,
        0 <= e0 <= u64::MAX as int,
        i64::MIN as int <= s0 <= i64::MAX as int,
    ensures
        0 <= amount * n0 <= u128::MAX as int,
        0 <= amount * e0 <= u128::MAX as int,
        -0x4000_0000_0000_0000_0000_0000_0000_0000 <= s0 * amount
            <= 0x4000_0000_0000_0000_0000_0000_0000_0000,
        s0 * amount == amount * s0,
{
    assert(0 <= amount * n0 <= u128::MAX as int && 0 <= amount * e0 <= u128::MAX as int
        && -0x4000_0000_0000_0000_0000_0000_0000_0000 <= s0 * amount
        <= 0x4000_0000_0000_0000_0000_0000_0000_0000 && s0 * amount == amount * s0)
        by (nonlinear_arith)
        requires
            0 <= amount <= i64::MAX as int,
            0 <= n0 <= u64::MAX as int,
            0 <= e0 <= u64::MAX as int,
            i64::MIN as int <= s0 <= i64::MAX as int,
    ;
}

/// Expansion preserves the lattice invariant: every rewritten edge endpoint
/// lands inside the grown site range, and the scaled size stays non-negative.
pub proof fn lemma_expanded_wf(l: LatticeView, axis: Axis, amount: int)
    requires
        l.wf(),
        1 <= amount,
    ensures
        l.expanded(axis, amount).wf(),
{
    let n0 = l.sites.len() as int;
    let e0 = l.edges.len() as int;
    let s0 = l.size_along(axis);
    let r = l.expanded(axis, amount);
    assert(0 <= s0 * amount) by (nonlinear_arith)
        requires
            0 <= s0,
            1 <= amount,
    ;
    assert forall|j: int| 0 <= j < r.edges.len() implies {
        &&& 0 <= #[trigger] r.edges[j].source < r.sites.len()
        &&& 0 <= r.edges[j].target < r.sites.len()
    } by {
        assert(0 < amount * e0) by (nonlinear_arith)
            requires
                0 <= j < amount * e0,
        ;
        assert(0 < e0);
        vstd::arithmetic::div_mod::lemma_mod_pos_bound(j, e0);
        vstd::arithmetic::div_mod::lemma_div_pos_is_pos(j, e0);
        vstd::arithmetic::div_mod::lemma_multiply_divide_lt(j, e0, amount);
        let jj = j % e0;
        let i = j / e0;
        let e = l.edges[jj];
        assert(0 < n0);
        assert(r.edges[j] == e.moved(axis, i, n0, amount));
        assert(r.sites.len() == amount * n0);
        // the shifted source lies inside replica i
        assert(e.source + i * n0 < amount * n0) by (nonlinear_arith)
            requires
                0 <= e.source < n0,
                0 <= i < amount,
        ;
        assert(0 <= e.source + i * n0) by (nonlinear_arith)
            requires
                0 <= e.source,
                0 <= i,
                0 < n0,
        ;
        // the wrapped target lies inside the grown lattice
        assert(0 < amount * n0) by (nonlinear_arith)
            requires
                0 < amount,
                0 < n0,
        ;
        let shifted = e.target + i * n0 + e.delta_along(axis) * n0;
        vstd::arithmetic::div_mod::lemma_mod_bound(shifted, amount * n0);
    }
}

/// A sequence each of whose elements satisfies the predicate is unchanged by
/// filtering with it.
proof fn lemma_filter_of_satisfying<A>(s: Seq<A>, p: spec_fn(A) -> bool)
    requires
        forall|i: int| 0 <= i < s.len() ==> p(#[trigger] s[i]),
    ensures
        s.filter(p) == s,
    decreases s.len(),
{
    reveal(Seq::filter);
    if s.len() == 0 {
        assert(s.filter(p) =~= s);
    } else {
        lemma_filter_of_satisfying(s.drop_last(), p);
        assert(p(s.last()));
        assert(s.filter(p) =~= s.drop_last().push(s.last()));
        assert(s.drop_last().push(s.last()) =~= s);
    }
}

/// Every element of a filtered sequence occurs in the original.
proof fn lemma_filter_elements_from<A>(s: Seq<A>, p: spec_fn(A) -> bool)
    ensures
        forall|j: int|
            0 <= j < s.filter(p).len() ==> s.contains(#[trigger] s.filter(p)[j]),
    decreases s.len(),
{
    reveal(Seq::filter);
    if s.len() == 0 {
    } else {
        lemma_filter_elements_from(s.drop_last(), p);
        let sub = s.drop_last().filter(p);
        assert forall|j: int| 0 <= j < s.filter(p).len() implies s.contains(
            #[trigger] s.filter(p)[j],
        ) by {
            if j < sub.len() {
                assert(s.filter(p)[j] == sub[j]);
                assert(s.drop_last().contains(sub[j]));
                let w = choose|w: int|
                    0 <= w < s.drop_last().len() && s.drop_last()[w] == sub[j];
                assert(s[w] == sub[j]);
            } else {
                assert(s.filter(p)[j] == s.last());
                assert(s[s.len() - 1] == s.last());
            }
        }
    }
}

/// Dropping the periodic edges along an axis keeps exactly the edges whose
/// delta vanishes there, in order, and touches neither sites nor size; done
/// twice, the second pass removes nothing.
pub proof fn lemma_drop_idempotent(l: LatticeView, axis: Axis)
    ensures
        l.dropped(axis).sites == l.sites,
        l.dropped(axis).size == l.size,
        forall|j: int|
            0 <= j < l.dropped(axis).edges.len() ==> (#[trigger] l.dropped(
                axis,
            ).edges[j]).delta_along(axis) == 0,
        forall|i: int|
            0 <= i < l.edges.len() && (#[trigger] l.edges[i]).delta_along(axis) == 0
                ==> l.dropped(axis).edges.contains(l.edges[i]),
        l.dropped(axis).dropped(axis) == l.dropped(axis),
{
    let p = keeps_axis(axis);
    let kept = l.edges.filter(p);
    assert forall|j: int| 0 <= j < kept.len() implies (#[trigger] kept[j]).delta_along(axis)
        == 0 by {
        Seq::lemma_filter_pred(l.edges, p, j);
    }
    assert forall|i: int|
        0 <= i < l.edges.len() && (#[trigger] l.edges[i]).delta_along(axis)
            == 0 implies l.dropped(axis).edges.contains(l.edges[i]) by {
        Seq::lemma_filter_contains(l.edges, p, i);
    }
    lemma_filter_of_satisfying(kept, p);
}

/// Dropping edges preserves the lattice invariant: the kept edges all come
/// from the original, whose endpoints were in range.
pub proof fn lemma_dropped_wf(l: LatticeView, axis: Axis)
    requires
        l.wf(),
    ensures
        l.dropped(axis).wf(),
{
    let p = keeps_axis(axis);
    let kept = l.edges.filter(p);
    lemma_filter_elements_from(l.edges, p);
    assert forall|j: int| 0 <= j < kept.len() implies {
        &&& 0 <= (#[trigger] kept[j]).source < l.sites.len()
        &&& 0 <= kept[j].target < l.sites.len()
    } by {
        assert(l.edges.contains(kept[j]));
        let w = choose|w: int| 0 <= w < l.edges.len() && l.edges[w] == kept[j];
        assert(0 <= l.edges[w].source < l.sites.len());
    }
}

/// The dense renumbering is monotone, counts at most one per site, and
/// starts at zero.
proof fn lemma_kept_count_le(keep: Seq<bool>, i: int, j: int)
    requires
        0 <= i <= j,
    ensures
        kept_count(keep, i) <= kept_count(keep, j),
        kept_count(keep, j) - kept_count(keep, i) <= j - i,
        0 <= kept_count(keep, i) <= i,
    decreases j - i + i,
{
    if i < j {
        lemma_kept_count_le(keep, i, j - 1);
    } else if i > 0 {
        lemma_kept_count_le(keep, i - 1, i - 1);
    }
}

/// A kept site's new index lies below the count of all kept sites.
proof fn lemma_kept_count_strict(keep: Seq<bool>, i: int)
    requires
        0 <= i < keep.len(),
        keep[i],
    ensures
        kept_count(keep, i) < kept_count(keep, keep.len() as int),
{
    assert(kept_count(keep, i + 1) == kept_count(keep, i) + 1);
    lemma_kept_count_le(keep, i + 1, keep.len() as int);
}

/// Filtering the first `n` sites keeps exactly `kept_count(keep, n)` of them.
proof fn lemma_kept_sites_len(sites: Seq<SiteView>, keep: Seq<bool>, n: int)
    requires
        0 <= n,
    ensures
        kept_sites(sites, keep, n).len() == kept_count(keep, n),
    decreases n,
{
    if n > 0 {
        lemma_kept_sites_len(sites, keep, n - 1);
        lemma_kept_count_le(keep, 0, n - 1);
    }
}

/// A kept site lands at its dense new index, unchanged.
proof fn lemma_kept_site_at(sites: Seq<SiteView>, keep: Seq<bool>, n: int, i: int)
    requires
        0 <= i < n,
        keep[i],
    ensures
        kept_sites(sites, keep, n).len() == kept_count(keep, n),
        kept_count(keep, i) < kept_count(keep, n),
        kept_sites(sites, keep, n)[kept_count(keep, i)] == sites[i],
    decreases n,
{
    lemma_kept_sites_len(sites, keep, n);
    lemma_kept_count_le(keep, 0, i);
    if i == n - 1 {
        lemma_kept_sites_len(sites, keep, n - 1);
    } else {
        lemma_kept_site_at(sites, keep, n - 1, i);
        lemma_kept_count_le(keep, i + 1, n);
        assert(kept_count(keep, i) < kept_count(keep, i + 1));
    }
}

/// Every filtered edge is the rewrite of some original edge whose endpoints
/// both survive.
proof fn lemma_kept_edges_endpoints(edges: Seq<EdgeView>, keep: Seq<bool>, n: int)
    requires
        0 <= n,
    ensures
        forall|j: int|
            0 <= j < kept_edges(edges, keep, n).len() ==> exists|w: int|
                {
                    &&& 0 <= w < n
                    &&& 0 <= edges[w].source < keep.len()
                    &&& 0 <= edges[w].target < keep.len()
                    &&& keep[edges[w].source]
                    &&& keep[edges[w].target]
                    &&& (#[trigger] kept_edges(edges, keep, n)[j]) == reindexed(edges[w], keep)
                },
    decreases n,
{
    if n > 0 {
        lemma_kept_edges_endpoints(edges, keep, n - 1);
        let prefix = kept_edges(edges, keep, n - 1);
        let e = edges[n - 1];
        if 0 <= e.source < keep.len() && 0 <= e.target < keep.len() && keep[e.source]
            && keep[e.target] {
            assert forall|j: int| 0 <= j < kept_edges(edges, keep, n).len() implies exists|w: int|
                {
                    &&& 0 <= w < n
                    &&& 0 <= edges[w].source < keep.len()
                    &&& 0 <= edges[w].target < keep.len()
                    &&& keep[edges[w].source]
                    &&& keep[edges[w].target]
                    &&& (#[trigger] kept_edges(edges, keep, n)[j]) == reindexed(edges[w], keep)
                } by {
                if j < prefix.len() {
                    assert(kept_edges(edges, keep, n)[j] == prefix[j]);
                } else {
                    assert(kept_edges(edges, keep, n)[j] == reindexed(edges[n - 1], keep));
                }
            }
        }
    }
}

/// Mask-and-reindex consistency: after filtering, every surviving site keeps
/// its place relative to the other survivors and every surviving edge's
/// endpoints index exactly the surviving sites its original endpoints named.
pub proof fn lemma_filtered_consistent(l: LatticeView, keep: Seq<bool>)
    requires
        l.wf(),
        keep.len() == l.sites.len(),
    ensures
        l.filtered(keep).wf(),
        l.filtered(keep).sites.len() == kept_count(keep, keep.len() as int),
        forall|i: int|
            0 <= i < l.sites.len() && keep[i] ==> {
                &&& #[trigger] kept_count(keep, i) < l.filtered(keep).sites.len()
                &&& l.filtered(keep).sites[kept_count(keep, i)] == l.sites[i]
            },
        forall|i: int, j: int|
            0 <= i < j < l.sites.len() && keep[i] && keep[j] ==> #[trigger] kept_count(keep, i)
                < #[trigger] kept_count(keep, j),
        forall|j: int|
            0 <= j < l.filtered(keep).edges.len() ==> exists|w: int|
                {
                    &&& 0 <= w < l.edges.len()
                    &&& keep[l.edges[w].source]
                    &&& keep[l.edges[w].target]
                    &&& (#[trigger] l.filtered(keep).edges[j]) == reindexed(l.edges[w], keep)
                },
{
    let n = l.sites.len() as int;
    let f = l.filtered(keep);
    lemma_kept_sites_len(l.sites, keep, n);
    assert forall|i: int| 0 <= i < n && keep[i] implies {
        &&& #[trigger] kept_count(keep, i) < f.sites.len()
        &&& f.sites[kept_count(keep, i)] == l.sites[i]
    } by {
        lemma_kept_site_at(l.sites, keep, n, i);
    }
    assert forall|i: int, j: int| 0 <= i < j < n && keep[i] && keep[j] implies #[trigger] kept_count(
        keep,
        i,
    ) < #[trigger] kept_count(keep, j) by {
        assert(kept_count(keep, i + 1) == kept_count(keep, i) + 1);
        lemma_kept_count_le(keep, i + 1, j);
    }
    lemma_kept_edges_endpoints(l.edges, keep, l.edges.len() as int);
    assert forall|j: int| 0 <= j < f.edges.len() implies {
        &&& 0 <= (#[trigger] f.edges[j]).source < f.sites.len()
        &&& 0 <= f.edges[j].target < f.sites.len()
    } by {
        let w = choose|w: int|
            {
                &&& 0 <= w < l.edges.len() as int
                &&& 0 <= l.edges[w].source < keep.len()
                &&& 0 <= l.edges[w].target < keep.len()
                &&& keep[l.edges[w].source]
                &&& keep[l.edges[w].target]
                &&& f.edges[j] == reindexed(l.edges[w], keep)
            };
        lemma_kept_count_le(keep, 0, l.edges[w].source);
        lemma_kept_count_le(keep, 0, l.edges[w].target);
        lemma_kept_count_strict(keep, l.edges[w].source);
        lemma_kept_count_strict(keep, l.edges[w].target);
    }
}

/// Expansion count law: expanding `amount` times along `axis` yields exactly
/// `amount` times the sites and edges, scales the size along `axis` by
/// `amount`, and leaves the other two size components untouched.
pub proof fn lemma_expand_counts(l: LatticeView, axis: Axis, amount: int)
    requires
        1 <= amount,
    ensures
        l.expanded(axis, amount).sites.len() == amount * l.sites.len(),
        l.expanded(axis, amount).edges.len() == amount * l.edges.len(),
        l.expanded(axis, amount).size_along(axis) == amount * l.size_along(axis),
        forall|other: Axis|
            other != axis ==> #[trigger] l.expanded(axis, amount).size_along(other)
                == l.size_along(other),
{
    assert(0 <= amount * l.sites.len() && 0 <= amount * l.edges.len() && l.size_along(axis)
        * amount == amount * l.size_along(axis)) by (nonlinear_arith)
        requires
            1 <= amount,
    ;
}

/// Splitting an index `j` of a `b * a * n`-long replica-major layout: its
/// position inside the first `a * n` block refines to the same cell index
/// `j % n`, and the two-stage replica index recombines to `j / n`.
proof fn lemma_split_index(j: int, n: int, a: int, b: int)
    requires
        1 <= n,
        1 <= a,
        1 <= b,
        0 <= j < b * (a * n),
    ensures
        0 <= j % (a * n) < a * n,
        0 <= j / (a * n) < b,
        (j % (a * n)) % n == j % n,
        (j % (a * n)) / n + (j / (a * n)) * a == j / n,
        0 <= j % n < n,
        0 <= j / n < a * b,
{
    let an = a * n;
    assert(0 < an && an * b == b * an && n * a == an && (a * b) * n == b * an && n * (a * b)
        == b * an) by (nonlinear_arith)
        requires
            1 <= n,
            1 <= a,
            1 <= b,
            an == a * n,
    ;
    vstd::arithmetic::div_mod::lemma_mod_bound(j, an);
    vstd::arithmetic::div_mod::lemma_mod_bound(j, n);
    vstd::arithmetic::div_mod::lemma_div_pos_is_pos(j, an);
    vstd::arithmetic::div_mod::lemma_div_pos_is_pos(j, n);
    vstd::arithmetic::div_mod::lemma_multiply_divide_lt(j, an, b);
    vstd::arithmetic::div_mod::lemma_multiply_divide_lt(j, n, a * b);
    vstd::arithmetic::div_mod::lemma_mod_mod(j, n, a);
    let r = j % an;
    let q = j / an;
    vstd::arithmetic::div_mod::lemma_fundamental_div_mod(j, an);
    assert(j == an * q + r);
    vstd::arithmetic::div_mod::lemma_hoist_over_denominator(r, q * a, n as nat);
    assert(r / n + q * a == (r + (q * a) * n) / n);
    assert(r + (q * a) * n == j) by (nonlinear_arith)
        requires
            j == an * q + r,
            an == a * n,
    ;
}

/// Rewriting an edge into replica `i1` of a lattice grown `a` times, then
/// rewriting that copy into replica `i2` of the result grown `b` times, is
/// one rewrite into replica `i1 + i2 * a` of the lattice grown `a * b`
/// times.
proof fn lemma_edge_moved_compose(
    e: EdgeView,
    axis: Axis,
    i1: int,
    i2: int,
    n0: int,
    a: int,
    b: int,
)
    requires
        1 <= n0,
        1 <= a,
        1 <= b,
    ensures
        e.moved(axis, i1, n0, a).moved(axis, i2, a * n0, b) == e.moved(
            axis,
            i1 + i2 * a,
            n0,
            a * b,
        ),
{
    let an = a * n0;
    let d = e.delta_along(axis);
    let x = e.target + i1 * n0 + d * n0;
    let e1 = e.moved(axis, i1, n0, a);
    assert(0 < an && b * an == (a * b) * n0) by (nonlinear_arith)
        requires
            1 <= n0,
            1 <= a,
            1 <= b,
            an == a * n0,
    ;
    assert(e1.target == x % an && e1.delta_along(axis) == x / an && e1.source == e.source + i1
        * n0);
    let x2 = e1.target + i2 * an + e1.delta_along(axis) * an;
    vstd::arithmetic::div_mod::lemma_fundamental_div_mod(x, an);
    assert(x2 == x + i2 * an) by (nonlinear_arith)
        requires
            x2 == x % an + i2 * an + (x / an) * an,
            x == an * (x / an) + x % an,
    ;
    let y = e.target + (i1 + i2 * a) * n0 + d * n0;
    assert(y == x + i2 * an) by (nonlinear_arith)
        requires
            y == e.target + (i1 + i2 * a) * n0 + d * n0,
            x == e.target + i1 * n0 + d * n0,
            an == a * n0,
    ;
    assert(e.source + i1 * n0 + i2 * an == e.source + (i1 + i2 * a) * n0) by (nonlinear_arith)
        requires
            an == a * n0,
    ;
}

/// Associativity of expansion: growing `a` times and then `b` times along
/// one axis is growing `a * b` times at once — the same site positions, the
/// same edge endpoints and deltas, the same size.
pub proof fn lemma_expand_assoc(l: LatticeView, axis: Axis, a: int, b: int)
    requires
        l.wf(),
        1 <= a,
        1 <= b,
    ensures
        l.expanded(axis, a).expanded(axis, b) == l.expanded(axis, a * b),
{
    let n0 = l.sites.len() as int;
    let e0 = l.edges.len() as int;
    let s0 = l.size_along(axis);
    let l1 = l.expanded(axis, a);
    let lhs = l1.expanded(axis, b);
    let rhs = l.expanded(axis, a * b);
    assert(l1.sites.len() == a * n0 && l1.edges.len() == a * e0 && l1.size_along(axis) == s0
        * a);
    assert((s0 * a) * b == s0 * (a * b) && b * (a * n0) == (a * b) * n0 && b * (a * e0) == (a
        * b) * e0 && 0 <= a * n0 && 0 <= a * e0 && 0 <= (a * b) * n0 && 0 <= (a * b) * e0)
        by (nonlinear_arith)
        requires
            1 <= a,
            1 <= b,
            0 <= n0,
            0 <= e0,
    ;
    assert(lhs.size == rhs.size);
    assert forall|j: int| 0 <= j < lhs.sites.len() implies lhs.sites[j] == rhs.sites[j] by {
        assert(1 <= n0) by (nonlinear_arith)
            requires
                0 <= j,
                j < b * (a * n0),
                1 <= a,
                1 <= b,
                0 <= n0,
        ;
        lemma_split_index(j, n0, a, b);
        let r = j % (a * n0);
        let q = j / (a * n0);
        assert(lhs.sites[j] == l1.sites[r].moved(axis, q * (s0 * a)));
        assert(l1.sites[r] == l.sites[r % n0].moved(axis, (r / n0) * s0));
        assert(lhs.sites[j] == l.sites[j % n0].moved(axis, (r / n0) * s0 + q * (s0 * a)));
        assert((r / n0) * s0 + q * (s0 * a) == (j / n0) * s0) by (nonlinear_arith)
            requires
                r / n0 + q * a == j / n0,
        ;
    }
    assert(lhs.sites =~= rhs.sites);
    assert forall|j: int| 0 <= j < lhs.edges.len() implies lhs.edges[j] == rhs.edges[j] by {
        assert(1 <= e0) by (nonlinear_arith)
            requires
                0 <= j,
                j < b * (a * e0),
                1 <= a,
                1 <= b,
                0 <= e0,
        ;
        lemma_split_index(j, e0, a, b);
        let r = j % (a * e0);
        let q = j / (a * e0);
        assert(lhs.edges[j] == l1.edges[r].moved(axis, q, a * n0, b));
        assert(l1.edges[r] == l.edges[r % e0].moved(axis, r / e0, n0, a));
        // an edge exists, so under the invariant there is at least one site
        assert(0 <= l.edges[j % e0].source < n0);
        lemma_edge_moved_compose(l.edges[j % e0], axis, r / e0, q, n0, a, b);
        assert(r / e0 + q * a == j / e0);
    }
    assert(lhs.edges =~= rhs.edges);
}

/// The library's half of the serialization round trip: a valid lattice whose
/// size, sites and edges are carried across a boundary and revalidated — as
/// `try_new` plus `try_with_sites` plus `try_with_edges` do on reading — is
/// accepted and equal, component for component, to the original. The carrier
/// itself (the JSON codec) lives outside the library.
pub proof fn lemma_rebuild_round_trip(
    l: LatticeView,
    r: core::result::Result<Lattice, VegasLatticeError>,
)
    requires
        l.wf(),
        validated(l, r),
    ensures
        r matches Ok(out) && out@.size == l.size && out@.sites == l.sites && out@.edges
            == l.edges,
{
}

/// How `validate` reports on a candidate lattice `l`: `InconsistentEdges`
/// exactly when an edge endpoint is out of range, `NegativeSize` exactly when
/// the edges are consistent but a size component is negative, and otherwise
/// the lattice itself, unchanged.
pub open spec fn validated(
    l: LatticeView,
    r: core::result::Result<Lattice, VegasLatticeError>,
) -> bool {
    match r {
        Ok(out) => out@ == l && l.wf(),
        Err(e) => {
            &&& !l.wf()
            &&& e == (if !l.edges_consistent() {
                VegasLatticeError::InconsistentEdges
            } else {
                VegasLatticeError::NegativeSize
            })
        },
    }
}

} // verus!
