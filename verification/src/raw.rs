//! The shape-tagged tree a structural decode hands to the model layer.

use vstd::prelude::*;

use crate::order::str_same;

verus! {

/// One decoded node, as the model layer reads it.
///
/// A mapping or sequence node carries, besides its entries, the outcome of
/// re-encoding the whole node into the canonical textual serialization (or
/// the encoder's message where that failed).  Scalars other than strings and
/// non-negative integers are kept only by shape.
pub enum RawNode {
    /// A string scalar.
    Text(String),
    /// A non-negative integer scalar that fits in `u64`.
    Uint(u64),
    /// A mapping, with its canonical encoding outcome.
    MapNode(Vec<(String, RawNode)>, Result<String, String>),
    /// A sequence, with its canonical encoding outcome.
    SeqNode(Vec<RawNode>, Result<String, String>),
    /// An explicit null.
    Null,
    /// Any other scalar (boolean, fractional or out-of-range number).
    Other,
}

/// The value bound to `name` among `entries`; the last binding wins.
pub open spec fn find_field(entries: Seq<(String, RawNode)>, name: Seq<char>) -> Option<RawNode>
    decreases entries.len(),
{
    if entries.len() == 0 {
        None
    } else if entries.last().0@ == name {
        Some(entries.last().1)
    } else {
        find_field(entries.drop_last(), name)
    }
}

/// Looks `name` up among `entries`; the last binding wins.
pub fn get_field<'a>(entries: &'a Vec<(String, RawNode)>, name: &str) -> (r: Option<
    &'a RawNode,
>)
    ensures
        match r {
            Some(n) => find_field(entries@, name@) == Some(*n),
            None => find_field(entries@, name@) is None,
        },
{
    let mut i: usize = entries.len();
    proof {
        assert(entries@.take(i as int) =~= entries@);
    }
    while i > 0
        invariant
            i <= entries@.len(),
            find_field(entries@, name@) == find_field(entries@.take(i as int), name@),
        decreases i,
    {
        proof {
            assert(entries@.take(i as int).last() == entries@[i - 1]);
            assert(entries@.take(i as int).drop_last() =~= entries@.take(i - 1));
        }
        if str_same(entries[i - 1].0.as_str(), name) {
            return Some(&entries[i - 1].1);
        }
        i = i - 1;
    }
    proof {
        assert(entries@.take(0).len() == 0);
    }
    None
}

} // verus!
