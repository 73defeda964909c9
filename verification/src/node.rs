//! A typed tree for property-list documents.
//!
//! `PNode` holds the parts of a property-list value that the Dock model
//! reads and writes: dictionaries (with their key order), arrays, strings
//! and signed integers.  Every other scalar kind is carried through opaquely
//! in the `Other` variant, so a document can be inspected without loss.
//! The ghost type `Node` is the mathematical view of a `PNode`.

use vstd::prelude::*;

verus! {

/// One node of a property-list document, as the library models it.
pub enum PNode {
    /// A dictionary: ordered key/value pairs.
    Dict(Vec<(String, PNode)>),
    /// An ordered array of nodes.
    Array(Vec<PNode>),
    /// A string scalar.
    Str(String),
    /// An integer scalar that fits in an `i64`.
    Int(i64),
    /// Any other property-list value, carried through unread.
    Other(plist::Value),
}

/// The declaration of the outside property-list value type; values of it
/// are opaque to the library and only carried through.
#[verifier::external_type_specification]
#[verifier::external_body]
pub struct ExValue(plist::Value);

/// The mathematical view of a `PNode`.
#[verifier::ext_equal]
pub enum Node {
    Dict(Seq<(Seq<char>, Node)>),
    Array(Seq<Node>),
    Str(Seq<char>),
    Int(int),
    Other(plist::Value),
}

pub open spec fn view_entries(es: Seq<(String, PNode)>) -> Seq<(Seq<char>, Node)>
    decreases es,
{
    Seq::new(
        es.len(),
        |i: int|
            if 0 <= i < es.len() {
                (es[i].0@, view_node(es[i].1))
            } else {
                (Seq::empty(), Node::Int(0))
            },
    )
}

pub open spec fn view_list(xs: Seq<PNode>) -> Seq<Node>
    decreases xs,
{
    Seq::new(
        xs.len(),
        |i: int|
            if 0 <= i < xs.len() {
                view_node(xs[i])
            } else {
                Node::Int(0)
            },
    )
}

pub open spec fn view_node(n: PNode) -> Node
    decreases n,
{
    match n {
        PNode::Dict(es) => Node::Dict(view_entries(es@)),
        PNode::Array(xs) => Node::Array(view_list(xs@)),
        PNode::Str(s) => Node::Str(s@),
        PNode::Int(i) => Node::Int(i as int),
        PNode::Other(v) => Node::Other(v),
    }
}

impl View for PNode {
    type V = Node;

    open spec fn view(&self) -> Node {
        view_node(*self)
    }
}

/// The value stored under `key`, taking the first entry whose key matches.
pub open spec fn lookup(es: Seq<(Seq<char>, Node)>, key: Seq<char>) -> Option<Node>
    decreases es.len(),
{
    if es.len() == 0 {
        None
    } else if es[0].0 == key {
        Some(es[0].1)
    } else {
        lookup(es.drop_first(), key)
    }
}

pub open spec fn distinct_keys(es: Seq<(Seq<char>, Node)>) -> bool {
    forall|i: int, j: int| 0 <= i < j < es.len() ==> es[i].0 != es[j].0
}

/// A node the library itself can produce: no opaque scalars anywhere, and
/// every dictionary's keys distinct.  Writing such a node to a document and
/// parsing it back loses nothing.
pub open spec fn canonical(n: Node) -> bool
    decreases n,
{
    match n {
        Node::Dict(es) => distinct_keys(es) && (forall|i: int|
            0 <= i < es.len() ==> canonical(#[trigger] es[i].1)),
        Node::Array(xs) => forall|i: int| 0 <= i < xs.len() ==> canonical(#[trigger] xs[i]),
        Node::Str(_) => true,
        Node::Int(_) => true,
        Node::Other(_) => false,
    }
}

proof fn lemma_lookup_miss_prefix(es: Seq<(Seq<char>, Node)>, key: Seq<char>, i: int)
    requires
        0 <= i <= es.len(),
        forall|m: int| 0 <= m < i ==> es[m].0 != key,
    ensures
        lookup(es, key) == lookup(es.skip(i), key),
    decreases i,
{
    if i > 0 {
        assert(es.len() > 0);
        lemma_lookup_miss_prefix(es.drop_first(), key, i - 1);
        assert(es.drop_first().skip(i - 1) =~= es.skip(i));
    } else {
        assert(es.skip(0) =~= es);
    }
}

/// Looks up `key` in a dictionary's entry list, returning the first match.
pub fn dict_get<'a>(es: &'a Vec<(String, PNode)>, key: &String) -> (r: Option<&'a PNode>)
    ensures
        match r {
            Some(p) => lookup(view_entries(es@), key@) == Some(p@),
            None => lookup(view_entries(es@), key@) is None,
        },
{
    let ghost ves = view_entries(es@);
    let n = es.len();
    for i in 0..n
        invariant
            n == es.len(),
            ves == view_entries(es@),
            forall|m: int| 0 <= m < i ==> ves[m].0 != key@,
    {
        if es[i].0 == *key {
            proof {
                lemma_lookup_miss_prefix(ves, key@, i as int);
                assert(ves.skip(i as int)[0] == ves[i as int]);
            }
            return Some(&es[i].1);
        }
        proof {
            assert(ves[i as int].0 == es@[i as int].0@);
        }
    }
    proof {
        lemma_lookup_miss_prefix(ves, key@, n as int);
        assert(ves.skip(n as int).len() == 0);
    }
    None
}

} // verus!
