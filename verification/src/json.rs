//! Reading lattice components from serialized JSON documents
//!
//! serde_json owns the grammar: a document parses to its dynamic tree, and
//! the verified logic here walks that tree, checks every number against the
//! component types' ranges, and builds the library's values. The contracts
//! speak of the tree through a ghost model: `json_of` names the tree a
//! document parses to, `rep_of` names the tree a parsed value holds, and
//! each accessor states what it returns for every shape of that model. A
//! document that does not describe the expected shape fails with
//! `SerializationError`.

use crate::edge::{Edge, EdgeView};
use crate::error::VegasLatticeError;
use crate::vertex::{Vertex, VertexView};
use vstd::prelude::*;

verus! {

/// A model of a JSON tree, as serde_json's accessors classify it: a number
/// is an unsigned integer, a negative integer, or anything else (a fraction,
/// an exponent form, or an integer beyond 64 bits), matching what `as_u64`
/// and `as_i64` accept.
pub ghost enum JsonRep {
    Null,
    Bool(bool),
    UInt(u64),
    NegInt(i64),
    OtherNumber,
    Text(Seq<char>),
    Items(Seq<JsonRep>),
    Object(Map<Seq<char>, JsonRep>),
}

/// The tree a document parses to, if the document is well-formed JSON.
pub uninterp spec fn json_of(s: Seq<char>) -> Option<JsonRep>;

/// serde_json's dynamic JSON value, declared so that verified code can hold
/// a parsed document and walk it through the accessors below.
#[verifier::external_type_specification]
#[verifier::external_body]
pub struct ExValue(serde_json::Value);

/// The tree a parsed value holds.
pub uninterp spec fn rep_of(v: serde_json::Value) -> JsonRep;

/// The value under a key: something only for an object that has the key.
pub open spec fn obj_field(rep: JsonRep, key: Seq<char>) -> Option<JsonRep> {
    match rep {
        JsonRep::Object(m) => if m.contains_key(key) {
            Some(m[key])
        } else {
            None
        },
        _ => None,
    }
}

/// The signed 64-bit reading of a number node, as `as_i64` accepts it: an
/// unsigned integer no larger than `i64::MAX`, or a negative integer.
pub open spec fn as_i64_rep(rep: JsonRep) -> Option<int> {
    match rep {
        JsonRep::UInt(u) => if u <= i64::MAX {
            Some(u as int)
        } else {
            None
        },
        JsonRep::NegInt(i) => Some(i as int),
        _ => None,
    }
}

/// The texts of a list of nodes, if every node is a string.
pub open spec fn tag_texts(items: Seq<JsonRep>) -> Option<Seq<Seq<char>>>
    decreases items.len(),
{
    if items.len() == 0 {
        Some(Seq::empty())
    } else {
        match tag_texts(items.drop_last()) {
            None => None,
            Some(prefix) => match items.last() {
                JsonRep::Text(t) => Some(prefix.push(t)),
                _ => None,
            },
        }
    }
}

/// The raw parts of an edge-shaped document: the endpoint numbers, the three
/// delta numbers, and the optional tag texts.
pub ghost struct ConnectionRep {
    pub source: u64,
    pub target: u64,
    pub delta: (int, int, int),
    pub tags: Option<Seq<Seq<char>>>,
}

/// What an edge-shaped tree holds: an object with unsigned `source` and
/// `target`, a `delta` list of exactly three signed 64-bit numbers, and — if
/// a `tags` key is present at all — a list of strings under it. Anything
/// else is not a connection.
pub open spec fn connection_of(rep: JsonRep) -> Option<ConnectionRep> {
    match (obj_field(rep, "source"@), obj_field(rep, "target"@), obj_field(rep, "delta"@)) {
        (Some(JsonRep::UInt(source)), Some(JsonRep::UInt(target)), Some(JsonRep::Items(ds))) => {
            if ds.len() == 3 && as_i64_rep(ds[0]) is Some && as_i64_rep(ds[1]) is Some
                && as_i64_rep(ds[2]) is Some {
                let delta = (
                    as_i64_rep(ds[0]).unwrap(),
                    as_i64_rep(ds[1]).unwrap(),
                    as_i64_rep(ds[2]).unwrap(),
                );
                match obj_field(rep, "tags"@) {
                    None => Some(ConnectionRep { source, target, delta, tags: None }),
                    Some(JsonRep::Items(ts)) => match tag_texts(ts) {
                        Some(texts) => Some(
                            ConnectionRep { source, target, delta, tags: Some(texts) },
                        ),
                        None => None,
                    },
                    Some(_) => None,
                }
            } else {
                None
            }
        },
        _ => None,
    }
}

/// The connection a document describes, if it is well-formed JSON of the
/// connection shape.
pub open spec fn parsed_connection(s: Seq<char>) -> Option<ConnectionRep> {
    match json_of(s) {
        None => None,
        Some(rep) => connection_of(rep),
    }
}

/// Whether a connection's numbers fit the machine's index and delta types.
pub open spec fn connection_in_range(c: ConnectionRep) -> bool {
    &&& c.source <= usize::MAX
    &&& c.target <= usize::MAX
    &&& i32::MIN <= c.delta.0 <= i32::MAX
    &&& i32::MIN <= c.delta.1 <= i32::MAX
    &&& i32::MIN <= c.delta.2 <= i32::MAX
}

/// The edge a connection describes.
pub open spec fn connection_edge_view(c: ConnectionRep) -> EdgeView {
    EdgeView { source: c.source as int, target: c.target as int, delta: c.delta, tags: c.tags }
}

/// The vertex a connection describes.
pub open spec fn connection_vertex_view(c: ConnectionRep) -> VertexView {
    VertexView { source: c.source as int, target: c.target as int, delta: c.delta, tags: c.tags }
}

/// Relies on serde_json's `from_str::<Value>`: a well-formed JSON document
/// parses to its tree, a malformed one to `None`; what comes back depends on
/// the document alone, so the clauses speak of it through `json_of`.
#[verifier::external_body]
fn parse_value(s: &str) -> (r: Option<serde_json::Value>)
    ensures
        r matches Some(v) ==> json_of(s@) == Some(rep_of(v)),
        r is None ==> json_of(s@) is None,
{
    serde_json::from_str(s).ok()
}

/// Relies on serde_json's `Value::get` with a string key: the value under
/// the key of an object that has it, `None` on anything else.
#[verifier::external_body]
fn value_get<'a>(v: &'a serde_json::Value, key: &str) -> (r: Option<&'a serde_json::Value>)
    ensures
        r matches Some(f) ==> obj_field(rep_of(*v), key@) == Some(rep_of(*f)),
        r is None ==> obj_field(rep_of(*v), key@) is None,
{
    v.get(key)
}

/// Relies on serde_json's `Value::as_u64`: the value as an unsigned 64-bit
/// integer, exactly for an unsigned integer node.
#[verifier::external_body]
fn value_as_u64(v: &serde_json::Value) -> (r: Option<u64>)
    ensures
        r matches Some(u) ==> rep_of(*v) == JsonRep::UInt(u),
        r is None ==> !(rep_of(*v) is UInt),
{
    v.as_u64()
}

/// Relies on serde_json's `Value::as_i64`: the value as a signed 64-bit
/// integer, exactly for an unsigned integer node no larger than `i64::MAX`
/// or a negative integer node.
#[verifier::external_body]
fn value_as_i64(v: &serde_json::Value) -> (r: Option<i64>)
    ensures
        r matches Some(d) ==> as_i64_rep(rep_of(*v)) == Some(d as int),
        r is None ==> as_i64_rep(rep_of(*v)) is None,
{
    v.as_i64()
}

/// Relies on serde_json's `Value::as_str`: the value's text, exactly for a
/// string node.
#[verifier::external_body]
fn value_as_str<'a>(v: &'a serde_json::Value) -> (r: Option<&'a str>)
    ensures
        r matches Some(t) ==> rep_of(*v) == JsonRep::Text(t@),
        r is None ==> !(rep_of(*v) is Text),
{
    v.as_str()
}

/// Relies on serde_json's `Value::as_array`: the value's items in order,
/// exactly for an array node.
#[verifier::external_body]
fn value_as_array<'a>(v: &'a serde_json::Value) -> (r: Option<&'a Vec<serde_json::Value>>)
    ensures
        r matches Some(items) ==> {
            &&& rep_of(*v) matches JsonRep::Items(s)
            &&& s.len() == items@.len()
            &&& forall|j: int| 0 <= j < s.len() ==> rep_of(#[trigger] items@[j]) == s[j]
        },
        r is None ==> !(rep_of(*v) is Items),
{
    v.as_array()
}

/// A list with a non-string node has no tag texts.
proof fn lemma_tag_texts_none(items: Seq<JsonRep>, i: int)
    requires
        0 <= i < items.len(),
        !(items[i] is Text),
    ensures
        tag_texts(items) is None,
    decreases items.len(),
{
    if i < items.len() - 1 {
        lemma_tag_texts_none(items.drop_last(), i);
    }
}

/// An edge from its parsed raw parts: accepted exactly when the endpoint
/// indices fit the machine's index type and every delta component fits its
/// type; anything else cannot be an edge of any lattice here and fails with
/// `SerializationError`.
pub fn edge_from_parts(source: u64, target: u64, delta: (i64, i64, i64), tags: Option<
    Vec<String>,
>) -> (r: core::result::Result<Edge, VegasLatticeError>)
    ensures
        r is Ok <==> {
            &&& source <= usize::MAX
            &&& target <= usize::MAX
            &&& i32::MIN <= delta.0 <= i32::MAX
            &&& i32::MIN <= delta.1 <= i32::MAX
            &&& i32::MIN <= delta.2 <= i32::MAX
        },
        r matches Ok(e) ==> e@ == (EdgeView {
            source: source as int,
            target: target as int,
            delta: (delta.0 as int, delta.1 as int, delta.2 as int),
            tags: tags.deep_view(),
        }),
        r matches Err(e) ==> e == VegasLatticeError::SerializationError,
{
    if source > usize::MAX as u64 || target > usize::MAX as u64 {
        return Err(VegasLatticeError::SerializationError);
    }
    if delta.0 < i32::MIN as i64 || delta.0 > i32::MAX as i64 || delta.1 < i32::MIN as i64
        || delta.1 > i32::MAX as i64 || delta.2 < i32::MIN as i64 || delta.2 > i32::MAX as i64 {
        return Err(VegasLatticeError::SerializationError);
    }
    let edge = Edge::new(
        source as usize,
        target as usize,
        (delta.0 as i32, delta.1 as i32, delta.2 as i32),
    );
    let edge = match tags {
        None => edge,
        Some(tags) => edge.with_owned_tags(tags),
    };
    Ok(edge)
}

/// A vertex from its parsed raw parts, accepted under the same conditions as
/// an edge.
pub fn vertex_from_parts(source: u64, target: u64, delta: (i64, i64, i64), tags: Option<
    Vec<String>,
>) -> (r: core::result::Result<Vertex, VegasLatticeError>)
    ensures
        r is Ok <==> {
            &&& source <= usize::MAX
            &&& target <= usize::MAX
            &&& i32::MIN <= delta.0 <= i32::MAX
            &&& i32::MIN <= delta.1 <= i32::MAX
            &&& i32::MIN <= delta.2 <= i32::MAX
        },
        r matches Ok(v) ==> v@ == (VertexView {
            source: source as int,
            target: target as int,
            delta: (delta.0 as int, delta.1 as int, delta.2 as int),
            tags: tags.deep_view(),
        }),
        r matches Err(e) ==> e == VegasLatticeError::SerializationError,
{
    if source > usize::MAX as u64 || target > usize::MAX as u64 {
        return Err(VegasLatticeError::SerializationError);
    }
    if delta.0 < i32::MIN as i64 || delta.0 > i32::MAX as i64 || delta.1 < i32::MIN as i64
        || delta.1 > i32::MAX as i64 || delta.2 < i32::MIN as i64 || delta.2 > i32::MAX as i64 {
        return Err(VegasLatticeError::SerializationError);
    }
    let vertex = Vertex::new(
        source as usize,
        target as usize,
        (delta.0 as i32, delta.1 as i32, delta.2 as i32),
    );
    let vertex = match tags {
        None => vertex,
        Some(tags) => vertex.with_owned_tags(tags),
    };
    Ok(vertex)
}

/// The raw parts of an edge-shaped tree, exactly as `connection_of` reads
/// the value's model; `None` on a tree of any other shape.
#[verifier::loop_isolation(false)]
fn connection_parts(v: &serde_json::Value) -> (r: Option<
    (u64, u64, (i64, i64, i64), Option<Vec<String>>),
>)
    ensures
        r is Some <==> connection_of(rep_of(*v)) is Some,
        r matches Some(p) ==> connection_of(rep_of(*v)) == Some(ConnectionRep {
            source: p.0,
            target: p.1,
            delta: (p.2.0 as int, p.2.1 as int, p.2.2 as int),
            tags: p.3.deep_view(),
        }),
{
    let source = match value_get(v, "source") {
        Some(f) => match value_as_u64(f) {
            Some(u) => u,
            None => {
                return None;
            },
        },
        None => {
            return None;
        },
    };
    let target = match value_get(v, "target") {
        Some(f) => match value_as_u64(f) {
            Some(u) => u,
            None => {
                return None;
            },
        },
        None => {
            return None;
        },
    };
    let delta_items = match value_get(v, "delta") {
        Some(f) => match value_as_array(f) {
            Some(items) => items,
            None => {
                return None;
            },
        },
        None => {
            return None;
        },
    };
    if delta_items.len() != 3 {
        return None;
    }
    let d0 = match value_as_i64(&delta_items[0]) {
        Some(d) => d,
        None => {
            return None;
        },
    };
    let d1 = match value_as_i64(&delta_items[1]) {
        Some(d) => d,
        None => {
            return None;
        },
    };
    let d2 = match value_as_i64(&delta_items[2]) {
        Some(d) => d,
        None => {
            return None;
        },
    };
    let tags: Option<Vec<String>> = match value_get(v, "tags") {
        None => None,
        Some(f) => {
            let items = match value_as_array(f) {
                Some(items) => items,
                None => {
                    return None;
                },
            };
            let ghost ts = rep_of(*f)->Items_0;
            let mut out: Vec<String> = Vec::new();
            let n = items.len();
            let mut i: usize = 0;
            while i < n
                invariant
                    i <= n,
                    n == items@.len(),
                    n == ts.len(),
                    forall|j: int| 0 <= j < n ==> rep_of(#[trigger] items@[j]) == ts[j],
                    tag_texts(ts.take(i as int)) == Some(out.deep_view()),
                decreases n - i,
            {
                match value_as_str(&items[i]) {
                    Some(s) => {
                        out.push(s.to_owned());
                        proof {
                            assert(ts.take(i + 1).drop_last() =~= ts.take(i as int));
                            assert(out.deep_view() =~= tag_texts(ts.take(i + 1)).unwrap());
                        }
                    },
                    None => {
                        proof {
                            lemma_tag_texts_none(ts, i as int);
                        }
                        return None;
                    },
                }
                i += 1;
            }
            proof {
                assert(ts.take(n as int) =~= ts);
            }
            Some(out)
        },
    };
    Some((source, target, (d0, d1, d2), tags))
}

/// An edge read from a serialized JSON document: accepted exactly when the
/// document is well-formed JSON of the connection shape with its numbers in
/// range, and then equal to what the document describes; every rejection is
/// a `SerializationError`.
pub fn edge_from_json(s: &str) -> (r: core::result::Result<Edge, VegasLatticeError>)
    ensures
        r is Ok <==> (parsed_connection(s@) matches Some(c) && connection_in_range(c)),
        r matches Ok(e) ==> e@ == connection_edge_view(parsed_connection(s@).unwrap()),
        r matches Err(e) ==> e == VegasLatticeError::SerializationError,
{
    let v = match parse_value(s) {
        Some(v) => v,
        None => {
            return Err(VegasLatticeError::SerializationError);
        },
    };
    match connection_parts(&v) {
        Some((source, target, delta, tags)) => edge_from_parts(source, target, delta, tags),
        None => Err(VegasLatticeError::SerializationError),
    }
}

/// A vertex read from a serialized JSON document, by the same rules as an
/// edge.
pub fn vertex_from_json(s: &str) -> (r: core::result::Result<Vertex, VegasLatticeError>)
    ensures
        r is Ok <==> (parsed_connection(s@) matches Some(c) && connection_in_range(c)),
        r matches Ok(v) ==> v@ == connection_vertex_view(parsed_connection(s@).unwrap()),
        r matches Err(e) ==> e == VegasLatticeError::SerializationError,
{
    let v = match parse_value(s) {
        Some(v) => v,
        None => {
            return Err(VegasLatticeError::SerializationError);
        },
    };
    match connection_parts(&v) {
        Some((source, target, delta, tags)) => vertex_from_parts(source, target, delta, tags),
        None => Err(VegasLatticeError::SerializationError),
    }
}

impl core::str::FromStr for Edge {
    type Err = VegasLatticeError;

    fn from_str(s: &str) -> core::result::Result<Edge, VegasLatticeError> {
        edge_from_json(s)
    }
}

impl core::str::FromStr for Vertex {
    type Err = VegasLatticeError;

    fn from_str(s: &str) -> core::result::Result<Vertex, VegasLatticeError> {
        vertex_from_json(s)
    }
}

} // verus!
