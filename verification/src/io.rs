//! The lattice style of serialized output
//!
//! Essentially formats a JSON document as a lattice deserves, with a maximum
//! indent depth: nesting up to that depth is indented as usual, and anything
//! deeper falls back to a compact inline form with comma-separated items.
//! This module holds the decisions — what separator text precedes each
//! collection item, and how the nesting depth evolves; the writing itself
//! belongs to whatever serializer drives it.

use vstd::prelude::*;
use vstd::string::StringExecFns;

verus! {

/// A formatter state for serializing with a lattice style: a depth counter,
/// a flag for whether the current collection has any items yet, and the
/// depth beyond which output stays inline.
#[derive(Debug)]
pub struct LatticeFormatter {
    current_indent: usize,
    has_value: bool,
    max_indent: usize,
}

/// What the formatter state is to the contracts.
pub ghost struct LatticeFormatterView {
    pub current_indent: int,
    pub has_value: bool,
    pub max_indent: int,
}

impl View for LatticeFormatter {
    type V = LatticeFormatterView;

    closed spec fn view(&self) -> LatticeFormatterView {
        LatticeFormatterView {
            current_indent: self.current_indent as int,
            has_value: self.has_value,
            max_indent: self.max_indent as int,
        }
    }
}

/// The indent text for nesting depth `n`: two spaces per level.
pub open spec fn indent_text(n: int) -> Seq<char>
    decreases n,
{
    if n <= 0 {
        Seq::empty()
    } else {
        indent_text(n - 1) + "  "@
    }
}

impl LatticeFormatterView {
    /// Whether the depth has passed the inline threshold.
    pub open spec fn above_max_indent(self) -> bool {
        self.current_indent > self.max_indent
    }

    /// The text that precedes a collection item: a newline and the indent at
    /// a shallow depth (preceded by a comma unless the item is the first),
    /// and the compact inline separator beyond the threshold.
    pub open spec fn item_prefix(self, first: bool) -> Seq<char> {
        if !self.above_max_indent() {
            (if first {
                "\n"@
            } else {
                ",\n"@
            }) + indent_text(self.current_indent)
        } else {
            if first {
                Seq::empty()
            } else {
                ", "@
            }
        }
    }

    /// The text that closes a collection: back at a shallow depth a newline
    /// and the enclosing indent, if the collection had any item; nothing
    /// otherwise.
    pub open spec fn close_prefix(self) -> Seq<char> {
        if !self.above_max_indent() && self.has_value {
            "\n"@ + indent_text(self.current_indent - 1)
        } else {
            Seq::empty()
        }
    }
}

/// The indent text for nesting depth `n`, as a string.
fn indent(n: usize) -> (r: String)
    ensures
        r@ == indent_text(n as int),
{
    let mut out = String::new();
    let mut i: usize = 0;
    while i < n
        invariant
            i <= n,
            out@ == indent_text(i as int),
        decreases n - i,
    {
        out.append("  ");
        i += 1;
    }
    out
}

impl LatticeFormatter {
    /// Create a new formatter with a max indent of 2
    pub fn new() -> (r: Self)
        ensures
            r@ == (LatticeFormatterView { current_indent: 0, has_value: false, max_indent: 2 }),
    {
        LatticeFormatter::with_max_indent(2)
    }

    /// Create a new formatter with a custom max indent
    pub fn with_max_indent(max_indent: usize) -> (r: Self)
        ensures
            r@ == (LatticeFormatterView {
                current_indent: 0,
                has_value: false,
                max_indent: max_indent as int,
            }),
    {
        LatticeFormatter { current_indent: 0, has_value: false, max_indent }
    }

    /// Whether the depth has passed the inline threshold.
    pub fn above_max_indent(&self) -> (r: bool)
        ensures
            r == self@.above_max_indent(),
    {
        self.current_indent > self.max_indent
    }

    /// The text to write before a collection item, first or later; the
    /// nesting depth does not change.
    pub fn begin_colletion_item(&mut self, first: bool) -> (r: String)
        ensures
            r@ == old(self)@.item_prefix(first),
            final(self)@ == old(self)@,
    {
        if !self.above_max_indent() {
            let mut out = if first {
                "\n".to_owned()
            } else {
                ",\n".to_owned()
            };
            let tail = indent(self.current_indent);
            out.append(tail.as_str());
            out
        } else {
            if first {
                String::new()
            } else {
                ", ".to_owned()
            }
        }
    }

    /// Enter a collection: the depth grows and the new collection has no
    /// items yet. The caller writes the opening bracket itself.
    pub fn begin_collection(&mut self) -> (r: bool)
        requires
            old(self)@.current_indent < usize::MAX,
        ensures
            final(self)@ == (LatticeFormatterView {
                current_indent: old(self)@.current_indent + 1,
                has_value: false,
                ..old(self)@
            }),
            r == !final(self)@.above_max_indent(),
    {
        self.current_indent = self.current_indent + 1;
        self.has_value = false;
        !self.above_max_indent()
    }

    /// Leave a collection, returning the text to write before its closing
    /// bracket: a newline and the enclosing indent if the collection was
    /// indented and non-empty, nothing otherwise. The depth shrinks back.
    pub fn end_collection(&mut self) -> (r: String)
        requires
            old(self)@.current_indent >= 1,
        ensures
            r@ == old(self)@.close_prefix(),
            final(self)@ == (LatticeFormatterView {
                current_indent: old(self)@.current_indent - 1,
                ..old(self)@
            }),
    {
        let out = if !self.above_max_indent() && self.has_value {
            let mut s = "\n".to_owned();
            let tail = indent(self.current_indent - 1);
            s.append(tail.as_str());
            s
        } else {
            String::new()
        };
        self.current_indent = self.current_indent - 1;
        out
    }

    /// Record that the current collection received a value.
    pub fn end_collection_item(&mut self)
        ensures
            final(self)@ == (LatticeFormatterView { has_value: true, ..old(self)@ }),
    {
        self.has_value = true;
    }
}

} // verus!
