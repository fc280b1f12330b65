//! Sites: labeled points of a lattice

use crate::util::Tagged;
use vstd::prelude::*;

verus! {

/// Represents a site in a lattice.
///
/// The `kind` field is the type of the site, for example `Fe` for iron or
/// `Cu` for copper. The `position` field is a triple of the x, y and z
/// coordinates of the site within the lattice, as integers in a unit of the
/// caller's choosing.
#[derive(Debug)]
pub struct Site {
    kind: String,
    position: (i64, i64, i64),
    tags: Option<Vec<String>>,
}

/// What a site is to the contracts: a label, a point, and optional tags.
pub ghost struct SiteView {
    pub kind: Seq<char>,
    pub position: (int, int, int),
    pub tags: Option<Seq<Seq<char>>>,
}

impl View for Site {
    type V = SiteView;

    closed spec fn view(&self) -> SiteView {
        SiteView {
            kind: self.kind@,
            position: (
                self.position.0 as int,
                self.position.1 as int,
                self.position.2 as int,
            ),
            tags: self.tags.deep_view(),
        }
    }
}

impl SiteView {
    /// The same site, translated by `distance` along `axis`.
    pub open spec fn moved(self, axis: crate::util::Axis, distance: int) -> SiteView {
        SiteView {
            position: crate::util::axis_upd(
                self.position,
                axis,
                crate::util::axis_sel(self.position, axis) + distance,
            ),
            ..self
        }
    }
}

/// A site's view holds machine-sized values: each position component lies
/// in the i64 range.
pub broadcast proof fn lemma_site_position_in_range(s: Site)
    ensures
        #![trigger s.view()]
        i64::MIN as int <= s@.position.0 <= i64::MAX as int,
        i64::MIN as int <= s@.position.1 <= i64::MAX as int,
        i64::MIN as int <= s@.position.2 <= i64::MAX as int,
{
}

impl Clone for Site {
    /// A clone is the same site, as the contracts see it.
    fn clone(&self) -> (r: Self)
        ensures
            r@ == self@,
    {
        let tags: Option<Vec<String>> = match &self.tags {
            None => None,
            Some(v) => {
                let c = v.clone();
                proof {
                    assert(c@ =~= v@);
                }
                Some(c)
            },
        };
        Site {
            kind: self.kind.clone(),
            position: (self.position.0, self.position.1, self.position.2),
            tags,
        }
    }
}

impl Tagged for Site {
    open spec fn spec_tags(&self) -> Option<Seq<Seq<char>>> {
        self@.tags
    }

    fn tags(&self) -> (r: Option<&Vec<String>>)
        ensures
            r.deep_view() == self.spec_tags(),
    {
        self.tags.as_ref()
    }
}

impl Site {
    /// Create a new site with a given kind located at the origin
    pub fn new(kind: &str) -> (r: Self)
        ensures
            r@.kind == kind@,
            r@.position == (0int, 0int, 0int),
            r@.tags is None,
    {
        Site { kind: kind.to_owned(), position: (0, 0, 0), tags: None }
    }

    /// Return the position of the site
    pub fn position(&self) -> (r: (i64, i64, i64))
        ensures
            (r.0 as int, r.1 as int, r.2 as int) == self@.position,
    {
        self.position
    }

    /// Return the kind of the site
    pub fn kind(&self) -> (r: &str)
        ensures
            r@ == self@.kind,
    {
        self.kind.as_str()
    }

    /// Move along the x axis
    pub fn move_x(self, distance: i64) -> (r: Self)
        requires
            i64::MIN <= self@.position.0 + distance <= i64::MAX,
        ensures
            r@ == self@.moved(crate::util::Axis::X, distance as int),
    {
        let position = (self.position.0 + distance, self.position.1, self.position.2);
        Site { position, ..self }
    }

    /// Move along the y axis
    pub fn move_y(self, distance: i64) -> (r: Self)
        requires
            i64::MIN <= self@.position.1 + distance <= i64::MAX,
        ensures
            r@ == self@.moved(crate::util::Axis::Y, distance as int),
    {
        let position = (self.position.0, self.position.1 + distance, self.position.2);
        Site { position, ..self }
    }

    /// Move along the z axis
    pub fn move_z(self, distance: i64) -> (r: Self)
        requires
            i64::MIN <= self@.position.2 + distance <= i64::MAX,
        ensures
            r@ == self@.moved(crate::util::Axis::Z, distance as int),
    {
        let position = (self.position.0, self.position.1, self.position.2 + distance);
        Site { position, ..self }
    }

    /// Changes the kind of the site
    pub fn with_kind(self, kind: &str) -> (r: Self)
        ensures
            r@ == (SiteView { kind: kind@, ..self@ }),
    {
        Site { kind: kind.to_owned(), ..self }
    }

    /// Changes the position of the site
    pub fn with_position(self, position: (i64, i64, i64)) -> (r: Self)
        ensures
            r@ == (SiteView {
                position: (position.0 as int, position.1 as int, position.2 as int),
                ..self@
            }),
    {
        Site { position, ..self }
    }

    /// Adds tags to the site
    pub fn with_tags(self, tags: Vec<&str>) -> (r: Self)
        ensures
            r@ == (SiteView { tags: Some(tags.deep_view()), ..self@ }),
    {
        let owned = crate::util::to_owned_all(tags);
        Site { tags: Some(owned), ..self }
    }
}

} // verus!
