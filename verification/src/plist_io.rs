//! The boundary to the `plist` crate.
//!
//! Parsing bytes into a property-list value, and writing one back out, is
//! the crate's work; the library only converts between `plist::Value` and
//! its own `PNode` tree.  The spec names below stand for what those calls
//! return: `value_node` for the tree a parsed value holds, `parsed_plist`
//! for the outcome of parsing a given byte string.  Both depend on their
//! arguments alone.

use vstd::prelude::*;

use crate::node::{canonical, Node, PNode};

verus! {

/// The tree of dictionaries, arrays and scalars that a property-list
/// value holds, seen as the library's `Node`.
pub uninterp spec fn value_node(v: plist::Value) -> Node;

/// What parsing a byte string as a property list yields: `None` when the
/// bytes are not a well-formed document, otherwise the tree of the parsed
/// value.  Parsing is a function of the bytes alone.
pub uninterp spec fn parsed_plist(bytes: Seq<u8>) -> Option<Node>;

/// Relies on `plist::Value::from_reader`: it decodes a whole document from
/// the given bytes (detecting the binary or textual encoding itself), or
/// reports a decode error; the outcome depends on the bytes alone.
#[verifier::external_body]
pub(crate) fn parse_plist(bytes: &[u8]) -> (r: Result<plist::Value, String>)
    ensures
        r matches Ok(v) ==> parsed_plist(bytes@) == Some(value_node(v)),
        r is Err <==> parsed_plist(bytes@) is None,
{
    match plist::Value::from_reader(std::io::Cursor::new(bytes)) {
        Ok(v) => Ok(v),
        Err(e) => Err(e.to_string()),
    }
}

/// Relies on the variants of `plist::Value` (and `plist::Integer::as_signed`):
/// each arm moves the parsed value's contents, one for one, into the
/// library's tree; scalars with no `PNode` form are carried in `Other`.
#[verifier::external_body]
pub(crate) fn value_to_node(v: plist::Value) -> (n: PNode)
    ensures
        n@ == value_node(v),
{
    match v {
        plist::Value::Array(xs) => PNode::Array(xs.into_iter().map(value_to_node).collect()),
        plist::Value::Dictionary(d) => PNode::Dict(
            d.into_iter().map(|(k, x)| (k, value_to_node(x))).collect(),
        ),
        plist::Value::String(s) => PNode::Str(s),
        plist::Value::Integer(i) => match i.as_signed() {
            Some(n) => PNode::Int(n),
            None => PNode::Other(plist::Value::Integer(i)),
        },
        other => PNode::Other(other),
    }
}

/// Relies on the constructors of `plist::Value` and on
/// `plist::Dictionary`'s `FromIterator`: each arm moves the tree's
/// contents, one for one, into a property-list value.  A canonical tree
/// has distinct keys in every dictionary and no opaque scalars, so the
/// built value holds exactly the given tree.
#[verifier::external_body]
pub(crate) fn node_to_value(n: PNode) -> (v: plist::Value)
    requires
        canonical(n@),
    ensures
        value_node(v) == n@,
{
    match n {
        PNode::Array(xs) => plist::Value::Array(xs.into_iter().map(node_to_value).collect()),
        PNode::Dict(es) => plist::Value::Dictionary(
            es.into_iter().map(|(k, x)| (k, node_to_value(x))).collect(),
        ),
        PNode::Str(s) => plist::Value::String(s),
        PNode::Int(i) => plist::Value::Integer(plist::Integer::from(i)),
        PNode::Other(v) => v,
    }
}

/// Relies on `plist::Value::to_writer_binary`: it encodes the value as a
/// complete binary property-list document.  Writing a whole value into an
/// in-memory buffer cannot fail: the writer's only error paths are
/// malformed event streams, which a whole value never produces, and sink
/// write failures, which a `Vec` sink never reports.  For a value whose
/// tree is canonical, decoding the written document yields that same tree
/// back (the binary encoding stores dictionary order, strings and signed
/// integers exactly).
#[verifier::external_body]
pub(crate) fn write_plist(v: &plist::Value) -> (r: Result<Vec<u8>, String>)
    ensures
        r is Ok,
        canonical(value_node(*v)) ==> (r matches Ok(b) ==> parsed_plist(b@) == Some(
            value_node(*v),
        )),
{
    let mut out: Vec<u8> = Vec::new();
    match v.to_writer_binary(&mut out) {
        Ok(()) => Ok(out),
        Err(e) => Err(e.to_string()),
    }
}

} // verus!
