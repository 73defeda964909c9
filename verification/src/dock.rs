//! The Dock's persisted configuration: a typed model of the preference
//! document, loading it from bytes, appending an application entry, and
//! serializing it back.
//!
//! The document is a dictionary with two optional keys, `persistent-apps`
//! and `persistent-others`, each an array of tile entries.  A list that is
//! absent in the source is kept absent (not defaulted to empty), so that
//! storing a loaded document does not invent keys.  Unknown keys outside
//! the two modeled lists are not preserved by this minimal model.

use vstd::prelude::*;

use crate::mac_app::{AppV, MacApp};
use crate::node::{
    canonical, dict_get, distinct_keys, lookup, view_entries, view_list, view_node, Node, PNode,
};
use crate::plist_io::{node_to_value, parse_plist, parsed_plist, value_to_node, write_plist};

verus! {

/// The top-level structure of the Dock configuration document.
#[derive(Debug, PartialEq, Clone)]
pub struct Dock {
    /// Applications pinned to the Dock (left side); `None` when the key
    /// is absent from the source document.
    pub applications: Option<Vec<DockItem>>,
    /// Non-application tiles (right side), read and preserved but never
    /// interpreted; `None` when the key is absent.
    pub others: Option<Vec<DockItem>>,
}

/// An individual tile in the Dock.
#[derive(Debug, PartialEq, Clone)]
pub struct DockItem {
    /// Metadata associated with this tile (`tile-data`).
    pub metadata: TileMetadata,
    /// The kind of tile (`tile-type`).
    pub kind: DockItemKind,
}

/// The kind of a Dock tile.
#[derive(Debug, PartialEq, Clone)]
pub enum DockItemKind {
    /// A file-based application or document (`file-tile`).
    FileTile,
    /// A folder shortcut (`directory-tile`).
    DirectoryTile,
    /// A visual spacer (`spacer-tile`).
    SpacerTile,
    /// Any other tag, kept verbatim so the entry survives a round trip.
    Unknown(String),
}

/// Metadata of one tile.
#[derive(Debug, PartialEq, Clone)]
pub struct TileMetadata {
    /// Where the tile's file lives (`file-data`), absent for non-file tiles.
    pub location: Option<FileLocation>,
    /// The name shown under the icon (`file-label`).
    pub display_name: Option<String>,
    /// The application's bundle identifier (`bundle-identifier`).
    pub bundle_id: Option<String>,
}

/// A file-system location: a `file://` URL and its type tag.
#[derive(Debug, PartialEq, Clone)]
pub struct FileLocation {
    /// The path as a `file://` URL string (`_CFURLString`).
    pub url: String,
    /// The URL type tag (`_CFURLStringType`); this library writes 15,
    /// the standard tag for file URLs, and passes other read values
    /// through unmodified.
    pub url_type: i32,
}

/// Decoding the configuration document failed.
#[derive(Debug, PartialEq, Clone)]
pub enum DockError {
    /// The bytes are not a well-formed document, or its shape does not
    /// match the Dock schema; the diagnostic is kept.
    Malformed(String),
}

// --- Mathematical views -------------------------------------------------

#[verifier::ext_equal]
pub struct DockV {
    pub applications: Option<Seq<ItemV>>,
    pub others: Option<Seq<ItemV>>,
}

#[verifier::ext_equal]
pub struct ItemV {
    pub metadata: MetaV,
    pub kind: KindV,
}

#[verifier::ext_equal]
pub enum KindV {
    FileTile,
    DirectoryTile,
    SpacerTile,
    Unknown(Seq<char>),
}

#[verifier::ext_equal]
pub struct MetaV {
    pub location: Option<LocV>,
    pub display_name: Option<Seq<char>>,
    pub bundle_id: Option<Seq<char>>,
}

#[verifier::ext_equal]
pub struct LocV {
    pub url: Seq<char>,
    pub url_type: int,
}

impl View for FileLocation {
    type V = LocV;

    open spec fn view(&self) -> LocV {
        LocV { url: self.url@, url_type: self.url_type as int }
    }
}

impl View for DockItemKind {
    type V = KindV;

    open spec fn view(&self) -> KindV {
        match *self {
            DockItemKind::FileTile => KindV::FileTile,
            DockItemKind::DirectoryTile => KindV::DirectoryTile,
            DockItemKind::SpacerTile => KindV::SpacerTile,
            DockItemKind::Unknown(ref s) => KindV::Unknown(s@),
        }
    }
}

impl View for TileMetadata {
    type V = MetaV;

    open spec fn view(&self) -> MetaV {
        MetaV {
            location: match self.location {
                Some(ref l) => Some(l@),
                None => None,
            },
            display_name: match self.display_name {
                Some(ref s) => Some(s@),
                None => None,
            },
            bundle_id: match self.bundle_id {
                Some(ref s) => Some(s@),
                None => None,
            },
        }
    }
}

impl View for DockItem {
    type V = ItemV;

    open spec fn view(&self) -> ItemV {
        ItemV { metadata: self.metadata@, kind: self.kind@ }
    }
}

pub open spec fn view_items(xs: Vec<DockItem>) -> Seq<ItemV> {
    Seq::new(xs@.len(), |i: int| xs@[i]@)
}

impl View for Dock {
    type V = DockV;

    open spec fn view(&self) -> DockV {
        DockV {
            applications: match self.applications {
                Some(ref xs) => Some(view_items(*xs)),
                None => None,
            },
            others: match self.others {
                Some(ref xs) => Some(view_items(*xs)),
                None => None,
            },
        }
    }
}

// --- The document schema, as spec functions -----------------------------

pub open spec fn kind_tag(k: KindV) -> Seq<char> {
    match k {
        KindV::FileTile => "file-tile"@,
        KindV::DirectoryTile => "directory-tile"@,
        KindV::SpacerTile => "spacer-tile"@,
        KindV::Unknown(tag) => tag,
    }
}

pub open spec fn kind_of_tag(tag: Seq<char>) -> KindV {
    if tag == "file-tile"@ {
        KindV::FileTile
    } else if tag == "directory-tile"@ {
        KindV::DirectoryTile
    } else if tag == "spacer-tile"@ {
        KindV::SpacerTile
    } else {
        KindV::Unknown(tag)
    }
}

pub open spec fn dec_loc(es: Seq<(Seq<char>, Node)>) -> Option<LocV> {
    match (lookup(es, "_CFURLString"@), lookup(es, "_CFURLStringType"@)) {
        (Some(Node::Str(u)), Some(Node::Int(t))) => if i32::MIN <= t <= i32::MAX {
            Some(LocV { url: u, url_type: t })
        } else {
            None
        },
        _ => None,
    }
}

pub open spec fn dec_opt_str(o: Option<Node>) -> Option<Option<Seq<char>>> {
    match o {
        None => Some(None),
        Some(Node::Str(s)) => Some(Some(s)),
        Some(_) => None,
    }
}

pub open spec fn dec_meta(es: Seq<(Seq<char>, Node)>) -> Option<MetaV> {
    let loc = match lookup(es, "file-data"@) {
        None => Some(None),
        Some(Node::Dict(fs)) => match dec_loc(fs) {
            Some(l) => Some(Some(l)),
            None => None,
        },
        Some(_) => None,
    };
    match (loc, dec_opt_str(lookup(es, "file-label"@)), dec_opt_str(
        lookup(es, "bundle-identifier"@),
    )) {
        (Some(l), Some(d), Some(b)) => Some(MetaV { location: l, display_name: d, bundle_id: b }),
        _ => None,
    }
}

pub open spec fn dec_item(n: Node) -> Option<ItemV> {
    match n {
        Node::Dict(es) => match (lookup(es, "tile-data"@), lookup(es, "tile-type"@)) {
            (Some(Node::Dict(md)), Some(Node::Str(tag))) => match dec_meta(md) {
                Some(m) => Some(ItemV { metadata: m, kind: kind_of_tag(tag) }),
                _ => None,
            },
            _ => None,
        },
        _ => None,
    }
}

pub open spec fn dec_items(xs: Seq<Node>) -> Option<Seq<ItemV>>
    decreases xs.len(),
{
    if xs.len() == 0 {
        Some(Seq::empty())
    } else {
        match dec_item(xs[0]) {
            Some(it) => match dec_items(xs.drop_first()) {
                Some(rest) => Some(seq![it] + rest),
                None => None,
            },
            None => None,
        }
    }
}

pub open spec fn dec_opt_list(o: Option<Node>) -> Option<Option<Seq<ItemV>>> {
    match o {
        None => Some(None),
        Some(Node::Array(xs)) => match dec_items(xs) {
            Some(items) => Some(Some(items)),
            None => None,
        },
        Some(_) => None,
    }
}

/// What a parsed document means as a configuration: `None` where the
/// shape or a value's type does not match the schema.  Keys this model
/// does not declare are ignored.
pub open spec fn dec_dock(n: Node) -> Option<DockV> {
    match n {
        Node::Dict(es) => match (dec_opt_list(lookup(es, "persistent-apps"@)), dec_opt_list(
            lookup(es, "persistent-others"@),
        )) {
            (Some(a), Some(o)) => Some(DockV { applications: a, others: o }),
            _ => None,
        },
        _ => None,
    }
}

pub open spec fn enc_loc(l: LocV) -> Seq<(Seq<char>, Node)> {
    seq![("_CFURLString"@, Node::Str(l.url)), ("_CFURLStringType"@, Node::Int(l.url_type))]
}

pub open spec fn enc_meta(m: MetaV) -> Seq<(Seq<char>, Node)> {
    (match m.location {
        Some(l) => seq![("file-data"@, Node::Dict(enc_loc(l)))],
        None => Seq::empty(),
    }) + (match m.display_name {
        Some(d) => seq![("file-label"@, Node::Str(d))],
        None => Seq::empty(),
    }) + (match m.bundle_id {
        Some(b) => seq![("bundle-identifier"@, Node::Str(b))],
        None => Seq::empty(),
    })
}

pub open spec fn enc_item(it: ItemV) -> Node {
    Node::Dict(
        seq![
            ("tile-data"@, Node::Dict(enc_meta(it.metadata))),
            ("tile-type"@, Node::Str(kind_tag(it.kind))),
        ],
    )
}

pub open spec fn enc_items(xs: Seq<ItemV>) -> Seq<Node> {
    Seq::new(xs.len(), |i: int| enc_item(xs[i]))
}

/// The document a configuration serializes to.  Lists keep their order;
/// an absent list stays absent.
pub open spec fn enc_dock(d: DockV) -> Node {
    Node::Dict(
        (match d.applications {
            Some(xs) => seq![("persistent-apps"@, Node::Array(enc_items(xs)))],
            None => Seq::empty(),
        }) + (match d.others {
            Some(xs) => seq![("persistent-others"@, Node::Array(enc_items(xs)))],
            None => Seq::empty(),
        }),
    )
}

// --- Validity: what decoding can produce, and what round-trips ----------

pub open spec fn valid_kind(k: KindV) -> bool {
    match k {
        KindV::Unknown(tag) => tag != "file-tile"@ && tag != "directory-tile"@ && tag
            != "spacer-tile"@,
        _ => true,
    }
}

pub open spec fn valid_loc(l: LocV) -> bool {
    i32::MIN <= l.url_type <= i32::MAX
}

pub open spec fn valid_item(it: ItemV) -> bool {
    valid_kind(it.kind) && match it.metadata.location {
        Some(l) => valid_loc(l),
        None => true,
    }
}

pub open spec fn valid_items(xs: Seq<ItemV>) -> bool {
    forall|i: int| 0 <= i < xs.len() ==> valid_item(#[trigger] xs[i])
}

pub open spec fn valid_opt_items(o: Option<Seq<ItemV>>) -> bool {
    match o {
        Some(xs) => valid_items(xs),
        None => true,
    }
}

/// A configuration value that the document format can represent exactly:
/// every location's type tag fits its integer field, and no unknown kind
/// shadows one of the recognized tags.
pub open spec fn valid_dock(d: DockV) -> bool {
    valid_opt_items(d.applications) && valid_opt_items(d.others)
}

proof fn lemma_dec_item_valid(n: Node)
    ensures
        dec_item(n) matches Some(it) ==> valid_item(it),
{
}

proof fn lemma_dec_items_valid(xs: Seq<Node>)
    ensures
        dec_items(xs) matches Some(its) ==> valid_items(its),
    decreases xs.len(),
{
    if xs.len() > 0 {
        lemma_dec_item_valid(xs[0]);
        lemma_dec_items_valid(xs.drop_first());
        match dec_items(xs) {
            Some(its) => {
                assert forall|i: int| 0 <= i < its.len() implies valid_item(
                    #[trigger] its[i],
                ) by {
                    let rest = dec_items(xs.drop_first())->Some_0;
                    if i > 0 {
                        assert(its[i] == rest[i - 1]);
                    }
                }
            },
            None => {},
        }
    }
}

proof fn lemma_dec_dock_valid(n: Node)
    ensures
        dec_dock(n) matches Some(d) ==> valid_dock(d),
{
    match n {
        Node::Dict(es) => {
            match lookup(es, "persistent-apps"@) {
                Some(Node::Array(xs)) => lemma_dec_items_valid(xs),
                _ => {},
            }
            match lookup(es, "persistent-others"@) {
                Some(Node::Array(xs)) => lemma_dec_items_valid(xs),
                _ => {},
            }
        },
        _ => {},
    }
}

// --- Decoding, executable ----------------------------------------------

fn dec_loc_exec(es: &Vec<(String, PNode)>) -> (r: Result<FileLocation, DockError>)
    ensures
        match r {
            Ok(l) => dec_loc(view_entries(es@)) == Some(l@),
            Err(_) => dec_loc(view_entries(es@)) is None,
        },
{
    let url: String = match dict_get(es, &"_CFURLString".to_owned()) {
        Some(p) => match p {
            PNode::Str(u) => u.clone(),
            _ => {
                return Err(DockError::Malformed("_CFURLString is not a string".to_owned()));
            },
        },
        None => {
            return Err(DockError::Malformed("file-data lacks _CFURLString".to_owned()));
        },
    };
    match dict_get(es, &"_CFURLStringType".to_owned()) {
        Some(p) => match p {
            PNode::Int(t) => {
                if i32::MIN as i64 <= *t && *t <= i32::MAX as i64 {
                    Ok(FileLocation { url, url_type: *t as i32 })
                } else {
                    Err(DockError::Malformed("_CFURLStringType is out of range".to_owned()))
                }
            },
            _ => Err(DockError::Malformed("_CFURLStringType is not an integer".to_owned())),
        },
        None => Err(DockError::Malformed("file-data lacks _CFURLStringType".to_owned())),
    }
}

fn dec_label_exec(es: &Vec<(String, PNode)>, key: &String, what: &str) -> (r: Result<
    Option<String>,
    DockError,
>)
    ensures
        match r {
            Ok(o) => dec_opt_str(lookup(view_entries(es@), key@)) == Some(
                match o {
                    Some(s) => Some(s@),
                    None => None::<Seq<char>>,
                },
            ),
            Err(_) => dec_opt_str(lookup(view_entries(es@), key@)) is None,
        },
{
    match dict_get(es, key) {
        None => Ok(None),
        Some(p) => match p {
            PNode::Str(s) => Ok(Some(s.clone())),
            _ => {
                let mut m = what.to_owned();
                m.append(" is not a string");
                Err(DockError::Malformed(m))
            },
        },
    }
}

fn dec_meta_exec(es: &Vec<(String, PNode)>) -> (r: Result<TileMetadata, DockError>)
    ensures
        match r {
            Ok(m) => dec_meta(view_entries(es@)) == Some(m@),
            Err(_) => dec_meta(view_entries(es@)) is None,
        },
{
    let location: Option<FileLocation> = match dict_get(es, &"file-data".to_owned()) {
        None => None,
        Some(p) => match p {
            PNode::Dict(fs) => match dec_loc_exec(fs) {
                Ok(l) => Some(l),
                Err(e) => {
                    return Err(e);
                },
            },
            _ => {
                return Err(DockError::Malformed("file-data is not a dictionary".to_owned()));
            },
        },
    };
    let display_name = match dec_label_exec(es, &"file-label".to_owned(), "file-label") {
        Ok(o) => o,
        Err(e) => {
            return Err(e);
        },
    };
    let bundle_id = match dec_label_exec(es, &"bundle-identifier".to_owned(), "bundle-identifier") {
        Ok(o) => o,
        Err(e) => {
            return Err(e);
        },
    };
    Ok(TileMetadata { location, display_name, bundle_id })
}

fn dec_kind_exec(tag: &String) -> (r: DockItemKind)
    ensures
        r@ == kind_of_tag(tag@),
{
    if *tag == "file-tile".to_owned() {
        DockItemKind::FileTile
    } else if *tag == "directory-tile".to_owned() {
        DockItemKind::DirectoryTile
    } else if *tag == "spacer-tile".to_owned() {
        DockItemKind::SpacerTile
    } else {
        DockItemKind::Unknown(tag.clone())
    }
}

fn dec_item_exec(n: &PNode) -> (r: Result<DockItem, DockError>)
    ensures
        match r {
            Ok(it) => dec_item(n@) == Some(it@),
            Err(_) => dec_item(n@) is None,
        },
{
    match n {
        PNode::Dict(es) => {
            let metadata = match dict_get(es, &"tile-data".to_owned()) {
                Some(p) => match p {
                    PNode::Dict(md) => match dec_meta_exec(md) {
                        Ok(m) => m,
                        Err(e) => {
                            return Err(e);
                        },
                    },
                    _ => {
                        return Err(
                            DockError::Malformed("tile-data is not a dictionary".to_owned()),
                        );
                    },
                },
                None => {
                    return Err(DockError::Malformed("entry lacks tile-data".to_owned()));
                },
            };
            let kind = match dict_get(es, &"tile-type".to_owned()) {
                Some(p) => match p {
                    PNode::Str(tag) => dec_kind_exec(tag),
                    _ => {
                        return Err(DockError::Malformed("tile-type is not a string".to_owned()));
                    },
                },
                None => {
                    return Err(DockError::Malformed("entry lacks tile-type".to_owned()));
                },
            };
            Ok(DockItem { metadata, kind })
        },
        _ => Err(DockError::Malformed("entry is not a dictionary".to_owned())),
    }
}

proof fn lemma_dec_items_prefix(s: Seq<Node>, out: Seq<ItemV>, i: int)
    requires
        0 <= i <= s.len(),
        out.len() == i,
        forall|m: int| 0 <= m < i ==> dec_item(s[m]) == Some(out[m]),
    ensures
        dec_items(s) == match dec_items(s.skip(i)) {
            Some(rest) => Some(out + rest),
            None => None::<Seq<ItemV>>,
        },
    decreases i,
{
    if i == 0 {
        assert(s.skip(0) =~= s);
        match dec_items(s) {
            Some(r) => {
                assert(out + r =~= r);
            },
            None => {},
        }
    } else {
        assert(s.len() > 0);
        assert(dec_item(s[0]) == Some(out[0]));
        lemma_dec_items_prefix(s.drop_first(), out.drop_first(), i - 1);
        assert(s.drop_first().skip(i - 1) =~= s.skip(i));
        match dec_items(s.skip(i)) {
            Some(rest) => {
                assert(dec_items(s.drop_first()) == Some(out.drop_first() + rest));
                assert(seq![out[0]] + (out.drop_first() + rest) =~= out + rest);
            },
            None => {
                assert(dec_items(s.drop_first()) is None);
            },
        }
    }
}

fn dec_items_exec(xs: &Vec<PNode>) -> (r: Result<Vec<DockItem>, DockError>)
    ensures
        match r {
            Ok(v) => dec_items(view_list(xs@)) == Some(view_items(v)),
            Err(_) => dec_items(view_list(xs@)) is None,
        },
{
    let ghost s = view_list(xs@);
    let mut out: Vec<DockItem> = Vec::new();
    let n = xs.len();
    for i in 0..n
        invariant
            n == xs.len(),
            s == view_list(xs@),
            view_items(out).len() == i,
            forall|m: int| 0 <= m < i ==> dec_item(s[m]) == Some(view_items(out)[m]),
    {
        match dec_item_exec(&xs[i]) {
            Ok(it) => {
                let ghost prev = view_items(out);
                out.push(it);
                proof {
                    assert(view_items(out) =~= prev.push(it@));
                }
            },
            Err(e) => {
                proof {
                    lemma_dec_items_prefix(s, view_items(out), i as int);
                    assert(s.skip(i as int)[0] == s[i as int]);
                }
                return Err(e);
            },
        }
    }
    proof {
        lemma_dec_items_prefix(s, view_items(out), n as int);
        assert(s.skip(n as int).len() == 0);
        assert(view_items(out) + Seq::<ItemV>::empty() =~= view_items(out));
    }
    Ok(out)
}

fn dec_opt_list_exec(o: Option<&PNode>) -> (r: Result<Option<Vec<DockItem>>, DockError>)
    ensures
        match r {
            Ok(opt) => dec_opt_list(
                match o {
                    Some(p) => Some(p@),
                    None => None::<Node>,
                },
            ) == Some(
                match opt {
                    Some(v) => Some(view_items(v)),
                    None => None::<Seq<ItemV>>,
                },
            ),
            Err(_) => dec_opt_list(
                match o {
                    Some(p) => Some(p@),
                    None => None::<Node>,
                },
            ) is None,
        },
{
    match o {
        None => Ok(None),
        Some(p) => match p {
            PNode::Array(xs) => match dec_items_exec(xs) {
                Ok(v) => Ok(Some(v)),
                Err(e) => Err(e),
            },
            _ => Err(DockError::Malformed("tile list is not an array".to_owned())),
        },
    }
}

/// The meaning of a byte string as a configuration: `None` when the bytes
/// are not a well-formed document or its shape does not match the schema.
pub open spec fn spec_load(bytes: Seq<u8>) -> Option<DockV> {
    match parsed_plist(bytes) {
        None => None,
        Some(n) => dec_dock(n),
    }
}

// --- Encoding, executable ----------------------------------------------

fn enc_loc_exec(l: &FileLocation) -> (r: Vec<(String, PNode)>)
    ensures
        view_entries(r@) == enc_loc(l@),
{
    let mut out: Vec<(String, PNode)> = Vec::new();
    out.push(("_CFURLString".to_owned(), PNode::Str(l.url.clone())));
    out.push(("_CFURLStringType".to_owned(), PNode::Int(l.url_type as i64)));
    proof {
        assert(view_entries(out@) =~= enc_loc(l@));
    }
    out
}

fn enc_meta_exec(m: &TileMetadata) -> (r: Vec<(String, PNode)>)
    ensures
        view_entries(r@) == enc_meta(m@),
{
    let ghost part1: Seq<(Seq<char>, Node)> = match m@.location {
        Some(l) => seq![("file-data"@, Node::Dict(enc_loc(l)))],
        None => Seq::empty(),
    };
    let ghost part2: Seq<(Seq<char>, Node)> = match m@.display_name {
        Some(d) => seq![("file-label"@, Node::Str(d))],
        None => Seq::empty(),
    };
    let ghost part3: Seq<(Seq<char>, Node)> = match m@.bundle_id {
        Some(b) => seq![("bundle-identifier"@, Node::Str(b))],
        None => Seq::empty(),
    };
    let mut out: Vec<(String, PNode)> = Vec::new();
    match &m.location {
        Some(l) => {
            let fs = enc_loc_exec(l);
            out.push(("file-data".to_owned(), PNode::Dict(fs)));
        },
        None => {},
    }
    proof {
        assert(view_entries(out@) =~= part1);
    }
    match &m.display_name {
        Some(d) => out.push(("file-label".to_owned(), PNode::Str(d.clone()))),
        None => {},
    }
    proof {
        assert(view_entries(out@) =~= part1 + part2);
    }
    match &m.bundle_id {
        Some(b) => out.push(("bundle-identifier".to_owned(), PNode::Str(b.clone()))),
        None => {},
    }
    proof {
        assert(view_entries(out@) =~= (part1 + part2) + part3);
        assert(enc_meta(m@) == (part1 + part2) + part3);
    }
    out
}

fn enc_kind_exec(k: &DockItemKind) -> (r: String)
    ensures
        r@ == kind_tag(k@),
{
    match k {
        DockItemKind::FileTile => "file-tile".to_owned(),
        DockItemKind::DirectoryTile => "directory-tile".to_owned(),
        DockItemKind::SpacerTile => "spacer-tile".to_owned(),
        DockItemKind::Unknown(s) => s.clone(),
    }
}

fn enc_item_exec(it: &DockItem) -> (r: PNode)
    ensures
        r@ == enc_item(it@),
{
    let md = enc_meta_exec(&it.metadata);
    let ghost mdv = view_entries(md@);
    let tag = enc_kind_exec(&it.kind);
    let ghost tagv = tag@;
    let mut es: Vec<(String, PNode)> = Vec::new();
    es.push(("tile-data".to_owned(), PNode::Dict(md)));
    es.push(("tile-type".to_owned(), PNode::Str(tag)));
    proof {
        assert(es@[0].1@ == Node::Dict(mdv));
        assert(es@[1].1@ == Node::Str(tagv));
        assert(view_entries(es@)[0] == ("tile-data"@, Node::Dict(mdv)));
        assert(view_entries(es@)[1] == ("tile-type"@, Node::Str(tagv)));
        assert(view_entries(es@) =~= seq![
            ("tile-data"@, Node::Dict(enc_meta(it@.metadata))),
            ("tile-type"@, Node::Str(kind_tag(it@.kind))),
        ]);
    }
    let ghost esv = es@;
    let r = PNode::Dict(es);
    proof {
        assert(r@ == Node::Dict(view_entries(esv)));
    }
    r
}

fn enc_items_exec(xs: &Vec<DockItem>) -> (r: Vec<PNode>)
    ensures
        view_list(r@) == enc_items(view_items(*xs)),
{
    let mut out: Vec<PNode> = Vec::new();
    let n = xs.len();
    for i in 0..n
        invariant
            n == xs.len(),
            out@.len() == i,
            forall|m: int| 0 <= m < i ==> view_node(out@[m]) == enc_item(view_items(*xs)[m]),
    {
        let p = enc_item_exec(&xs[i]);
        let ghost pval = p;
        out.push(p);
        proof {
            assert(view_node(out@[i as int]) == view_node(pval));
        }
    }
    proof {
        assert forall|m: int| 0 <= m < out@.len() implies view_list(out@)[m] == enc_items(
            view_items(*xs),
        )[m] by {
            assert(view_list(out@)[m] == view_node(out@[m]));
        }
        assert(view_list(out@) =~= enc_items(view_items(*xs)));
    }
    out
}

// --- Canonicity of what the encoder emits -------------------------------

proof fn lemma_keys()
    ensures
        "_CFURLString"@ != "_CFURLStringType"@,
        "file-data"@ != "file-label"@,
        "file-data"@ != "bundle-identifier"@,
        "file-label"@ != "bundle-identifier"@,
        "tile-data"@ != "tile-type"@,
        "persistent-apps"@ != "persistent-others"@,
        "file-tile"@ != "directory-tile"@,
        "file-tile"@ != "spacer-tile"@,
        "directory-tile"@ != "spacer-tile"@,
{
    reveal_strlit("_CFURLString");
    reveal_strlit("_CFURLStringType");
    reveal_strlit("file-data");
    reveal_strlit("file-label");
    reveal_strlit("bundle-identifier");
    reveal_strlit("tile-data");
    reveal_strlit("tile-type");
    reveal_strlit("persistent-apps");
    reveal_strlit("persistent-others");
    reveal_strlit("file-tile");
    reveal_strlit("directory-tile");
    reveal_strlit("spacer-tile");
    assert(("_CFURLString"@).len() == 12);
    assert(("_CFURLStringType"@).len() == 16);
    assert(("file-data"@).len() == 9);
    assert(("file-label"@).len() == 10);
    assert(("bundle-identifier"@).len() == 17);
    assert(("persistent-apps"@).len() == 15);
    assert(("persistent-others"@).len() == 17);
    assert(("file-tile"@).len() == 9);
    assert(("directory-tile"@).len() == 14);
    assert(("spacer-tile"@).len() == 11);
    assert(("tile-data"@)[6] == 'a');
    assert(("tile-type"@)[6] == 'y');
}

proof fn lemma_enc_loc_canonical(l: LocV)
    ensures
        canonical(Node::Dict(enc_loc(l))),
{
    lemma_keys();
    let es = enc_loc(l);
    assert(canonical(es[0].1));
    assert(canonical(es[1].1));
    assert(distinct_keys(es));
}

proof fn lemma_enc_meta_canonical(m: MetaV)
    ensures
        canonical(Node::Dict(enc_meta(m))),
{
    lemma_keys();
    let es = enc_meta(m);
    assert forall|i: int| 0 <= i < es.len() implies canonical(#[trigger] es[i].1) by {
        match m.location {
            Some(l) => lemma_enc_loc_canonical(l),
            None => {},
        }
    }
    assert(distinct_keys(es));
}

proof fn lemma_enc_item_canonical(it: ItemV)
    ensures
        canonical(enc_item(it)),
{
    lemma_keys();
    lemma_enc_meta_canonical(it.metadata);
    let es = seq![
        ("tile-data"@, Node::Dict(enc_meta(it.metadata))),
        ("tile-type"@, Node::Str(kind_tag(it.kind))),
    ];
    assert(enc_item(it) == Node::Dict(es));
    assert(canonical(es[0].1));
    assert(canonical(es[1].1));
    assert(distinct_keys(es));
}

proof fn lemma_enc_items_canonical(xs: Seq<ItemV>)
    ensures
        forall|i: int| 0 <= i < xs.len() ==> canonical(#[trigger] enc_items(xs)[i]),
{
    assert forall|i: int| 0 <= i < xs.len() implies canonical(#[trigger] enc_items(xs)[i]) by {
        lemma_enc_item_canonical(xs[i]);
    }
}

proof fn lemma_enc_dock_canonical(d: DockV)
    ensures
        canonical(enc_dock(d)),
{
    lemma_keys();
    let es = match enc_dock(d) {
        Node::Dict(es) => es,
        _ => Seq::empty(),
    };
    assert forall|i: int| 0 <= i < es.len() implies canonical(#[trigger] es[i].1) by {
        match d.applications {
            Some(xs) => lemma_enc_items_canonical(xs),
            None => {},
        }
        match d.others {
            Some(xs) => lemma_enc_items_canonical(xs),
            None => {},
        }
    }
    assert(distinct_keys(es));
}

// --- Lookup algebra ------------------------------------------------------

proof fn lemma_lookup_found(s1: Seq<(Seq<char>, Node)>, s2: Seq<(Seq<char>, Node)>, key: Seq<char>)
    requires
        lookup(s1, key) is Some,
    ensures
        lookup(s1 + s2, key) == lookup(s1, key),
    decreases s1.len(),
{
    assert((s1 + s2)[0] == s1[0]);
    if s1[0].0 != key {
        lemma_lookup_found(s1.drop_first(), s2, key);
        assert(s1.drop_first() + s2 =~= (s1 + s2).drop_first());
    }
}

proof fn lemma_lookup_miss(s1: Seq<(Seq<char>, Node)>, s2: Seq<(Seq<char>, Node)>, key: Seq<char>)
    requires
        forall|m: int| 0 <= m < s1.len() ==> s1[m].0 != key,
    ensures
        lookup(s1 + s2, key) == lookup(s2, key),
    decreases s1.len(),
{
    if s1.len() == 0 {
        assert(s1 + s2 =~= s2);
    } else {
        assert((s1 + s2)[0] == s1[0]);
        lemma_lookup_miss(s1.drop_first(), s2, key);
        assert(s1.drop_first() + s2 =~= (s1 + s2).drop_first());
    }
}

proof fn lemma_lookup_none(s: Seq<(Seq<char>, Node)>, key: Seq<char>)
    requires
        forall|m: int| 0 <= m < s.len() ==> s[m].0 != key,
    ensures
        lookup(s, key) is None,
    decreases s.len(),
{
    if s.len() > 0 {
        lemma_lookup_none(s.drop_first(), key);
    }
}

// --- The round-trip law --------------------------------------------------

proof fn lemma_loc_round_trip(l: LocV)
    requires
        valid_loc(l),
    ensures
        dec_loc(enc_loc(l)) == Some(l),
{
    lemma_keys();
    let es = enc_loc(l);
    let tail = seq![("_CFURLStringType"@, Node::Int(l.url_type))];
    assert(lookup(es, "_CFURLString"@) == Some(Node::Str(l.url)));
    assert(lookup(tail, "_CFURLStringType"@) == Some(Node::Int(l.url_type)));
    assert(es.drop_first() =~= tail);
    assert(lookup(es, "_CFURLStringType"@) == lookup(tail, "_CFURLStringType"@));
}

proof fn lemma_meta_round_trip(m: MetaV)
    requires
        match m.location {
            Some(l) => valid_loc(l),
            None => true,
        },
    ensures
        dec_meta(enc_meta(m)) == Some(m),
{
    lemma_keys();
    let part1: Seq<(Seq<char>, Node)> = match m.location {
        Some(l) => seq![("file-data"@, Node::Dict(enc_loc(l)))],
        None => Seq::empty(),
    };
    let part2: Seq<(Seq<char>, Node)> = match m.display_name {
        Some(d) => seq![("file-label"@, Node::Str(d))],
        None => Seq::empty(),
    };
    let part3: Seq<(Seq<char>, Node)> = match m.bundle_id {
        Some(b) => seq![("bundle-identifier"@, Node::Str(b))],
        None => Seq::empty(),
    };
    let es = enc_meta(m);
    assert(es == (part1 + part2) + part3);
    // file-data
    match m.location {
        Some(l) => {
            assert(lookup(part1, "file-data"@) == Some(Node::Dict(enc_loc(l))));
            lemma_lookup_found(part1, part2, "file-data"@);
            lemma_lookup_found(part1 + part2, part3, "file-data"@);
            lemma_loc_round_trip(l);
        },
        None => {
            lemma_lookup_miss(part1 + part2, part3, "file-data"@);
            lemma_lookup_none(part3, "file-data"@);
        },
    }
    // file-label
    match m.display_name {
        Some(d) => {
            assert(lookup(part2, "file-label"@) == Some(Node::Str(d)));
            lemma_lookup_miss(part1, part2 + part3, "file-label"@);
            lemma_lookup_found(part2, part3, "file-label"@);
            assert((part1 + part2) + part3 =~= part1 + (part2 + part3));
        },
        None => {
            lemma_lookup_miss(part1 + part2, part3, "file-label"@);
            lemma_lookup_none(part3, "file-label"@);
        },
    }
    // bundle-identifier
    match m.bundle_id {
        Some(b) => {
            lemma_lookup_miss(part1 + part2, part3, "bundle-identifier"@);
            assert(lookup(part3, "bundle-identifier"@) == Some(Node::Str(b)));
        },
        None => {
            lemma_lookup_miss(part1 + part2, part3, "bundle-identifier"@);
            lemma_lookup_none(part3, "bundle-identifier"@);
        },
    }
}

proof fn lemma_kind_round_trip(k: KindV)
    requires
        valid_kind(k),
    ensures
        kind_of_tag(kind_tag(k)) == k,
{
    lemma_keys();
}

proof fn lemma_item_round_trip(it: ItemV)
    requires
        valid_item(it),
    ensures
        dec_item(enc_item(it)) == Some(it),
{
    lemma_keys();
    let es = seq![
        ("tile-data"@, Node::Dict(enc_meta(it.metadata))),
        ("tile-type"@, Node::Str(kind_tag(it.kind))),
    ];
    assert(enc_item(it) == Node::Dict(es));
    assert(lookup(es, "tile-data"@) == Some(Node::Dict(enc_meta(it.metadata))));
    let tail = seq![("tile-type"@, Node::Str(kind_tag(it.kind)))];
    assert(lookup(tail, "tile-type"@) == Some(Node::Str(kind_tag(it.kind))));
    assert(es.drop_first() =~= tail);
    assert(lookup(es, "tile-type"@) == lookup(tail, "tile-type"@));
    lemma_meta_round_trip(it.metadata);
    lemma_kind_round_trip(it.kind);
}

proof fn lemma_items_round_trip(xs: Seq<ItemV>)
    requires
        valid_items(xs),
    ensures
        dec_items(enc_items(xs)) == Some(xs),
    decreases xs.len(),
{
    let s = enc_items(xs);
    if xs.len() == 0 {
        assert(s.len() == 0);
        assert(dec_items(s) == Some(Seq::<ItemV>::empty()));
        assert(Seq::<ItemV>::empty() =~= xs);
    } else {
        assert(valid_item(xs[0]));
        lemma_item_round_trip(xs[0]);
        assert(s[0] == enc_item(xs[0]));
        assert(s.drop_first() =~= enc_items(xs.drop_first()));
        assert(valid_items(xs.drop_first())) by {
            assert(forall|m: int|
                0 <= m < xs.drop_first().len() ==> xs.drop_first()[m] == xs[m + 1]);
        }
        lemma_items_round_trip(xs.drop_first());
        assert(seq![xs[0]] + xs.drop_first() =~= xs);
    }
}

/// Round-trip law: a configuration that the document format represents
/// exactly (see `valid_dock`) decodes back from its own encoding
/// unchanged.  Together with the contracts of `Dock::load` and
/// `Dock::serialize` this gives `load(serialize(c)) == Ok(c)` for every
/// loaded-and-edited configuration.
pub proof fn lemma_dock_round_trip(d: DockV)
    requires
        valid_dock(d),
    ensures
        dec_dock(enc_dock(d)) == Some(d),
{
    lemma_keys();
    let parta: Seq<(Seq<char>, Node)> = match d.applications {
        Some(xs) => seq![("persistent-apps"@, Node::Array(enc_items(xs)))],
        None => Seq::empty(),
    };
    let parto: Seq<(Seq<char>, Node)> = match d.others {
        Some(xs) => seq![("persistent-others"@, Node::Array(enc_items(xs)))],
        None => Seq::empty(),
    };
    let es = parta + parto;
    assert(enc_dock(d) == Node::Dict(es));
    match d.applications {
        Some(xs) => {
            assert(lookup(parta, "persistent-apps"@) == Some(Node::Array(enc_items(xs))));
            lemma_lookup_found(parta, parto, "persistent-apps"@);
            lemma_items_round_trip(xs);
        },
        None => {
            lemma_lookup_miss(parta, parto, "persistent-apps"@);
            lemma_lookup_none(parto, "persistent-apps"@);
        },
    }
    match d.others {
        Some(xs) => {
            lemma_lookup_miss(parta, parto, "persistent-others"@);
            assert(lookup(parto, "persistent-others"@) == Some(Node::Array(enc_items(xs))));
            lemma_items_round_trip(xs);
        },
        None => {
            lemma_lookup_miss(parta, parto, "persistent-others"@);
            lemma_lookup_none(parto, "persistent-others"@);
        },
    }
}

/// Unknown-kind tolerance: a tag that is none of the recognized tile
/// kinds decodes to the `Unknown` placeholder carrying that tag, so an
/// entry with a new kind never fails the document load, and `kind_tag`
/// writes the tag back verbatim.
pub proof fn lemma_unknown_kind_tolerated(tag: Seq<char>)
    requires
        tag != "file-tile"@,
        tag != "directory-tile"@,
        tag != "spacer-tile"@,
    ensures
        kind_of_tag(tag) == KindV::Unknown(tag),
        kind_tag(kind_of_tag(tag)) == tag,
{
}

// --- The append operation ------------------------------------------------

/// The Dock entry that pins an application: a `file-tile` whose location
/// is the bundle's `file://` URL with the standard type tag, labelled
/// with the application's display name and bundle identifier.
pub open spec fn entry_of(a: AppV) -> ItemV {
    ItemV {
        kind: KindV::FileTile,
        metadata: MetaV {
            location: Some(LocV { url: "file://"@ + a.path, url_type: 15 }),
            display_name: Some(a.display_name),
            bundle_id: Some(a.bundle_id),
        },
    }
}

/// What appending an application does: `applications` becomes present if
/// it was absent, and grows by the application's entry at the end;
/// `others` is untouched.
pub open spec fn spec_add_app(d: DockV, a: AppV) -> DockV {
    DockV {
        applications: Some(
            (match d.applications {
                Some(xs) => xs,
                None => Seq::empty(),
            }).push(entry_of(a)),
        ),
        others: d.others,
    }
}

/// Append invariant: for every configuration and application, appending
/// yields a present `applications` list with exactly one more entry than
/// before (one, if it was absent), appended at the end and carrying the
/// application's bundle identifier, display name and `file://` URL; the
/// entries before it and the `others` list are unchanged.
pub proof fn lemma_add_app_appends(d: DockV, a: AppV)
    ensures
        spec_add_app(d, a).applications matches Some(xs) && {
            let prev = match d.applications {
                Some(p) => p,
                None => Seq::empty(),
            };
            &&& xs.len() == prev.len() + 1
            &&& xs.last() == entry_of(a)
            &&& forall|i: int| 0 <= i < prev.len() ==> xs[i] == prev[i]
            &&& xs.last().metadata.bundle_id == Some(a.bundle_id)
            &&& xs.last().metadata.display_name == Some(a.display_name)
            &&& xs.last().metadata.location matches Some(l) && l.url == "file://"@ + a.path
        },
        spec_add_app(d, a).others == d.others,
{
}

/// Absent-to-present transition: appending to a configuration whose
/// `applications` key is absent yields the one-entry list, not an error.
pub proof fn lemma_add_app_absent(d: DockV, a: AppV)
    requires
        d.applications is None,
    ensures
        spec_add_app(d, a).applications == Some(seq![entry_of(a)]),
{
    assert(Seq::<ItemV>::empty().push(entry_of(a)) =~= seq![entry_of(a)]);
}

/// No deduplication: appending the same application twice yields two
/// entries of identical content at the end of the list.
pub proof fn lemma_add_app_no_dedup(d: DockV, a: AppV)
    ensures
        spec_add_app(spec_add_app(d, a), a).applications matches Some(xs) && xs.len() >= 2
            && xs[xs.len() - 1] == xs[xs.len() - 2] && xs[xs.len() - 1] == entry_of(a),
{
}

/// Appending preserves representability, so an edited configuration
/// still round-trips.
pub proof fn lemma_add_app_valid(d: DockV, a: AppV)
    requires
        valid_dock(d),
    ensures
        valid_dock(spec_add_app(d, a)),
{
    let prev = match d.applications {
        Some(p) => p,
        None => Seq::<ItemV>::empty(),
    };
    let xs = prev.push(entry_of(a));
    assert(valid_item(entry_of(a)));
    assert forall|i: int| 0 <= i < xs.len() implies valid_item(#[trigger] xs[i]) by {
        if i < prev.len() {
            assert(valid_items(prev));
        }
    }
}

impl DockItem {
    /// Builds the Dock entry that pins `app`.
    pub fn new(app: &MacApp) -> (r: DockItem)
        ensures
            r@ == entry_of(app@),
    {
        let mut url = String::from_str("file://");
        url.append(app.path.as_str());
        DockItem {
            kind: DockItemKind::FileTile,
            metadata: TileMetadata {
                location: Some(FileLocation { url, url_type: 15 }),
                display_name: Some(app.display_name.clone()),
                bundle_id: Some(app.bundle_id.clone()),
            },
        }
    }
}

impl Dock {
    /// Appends the entry for `app` at the end of the applications list,
    /// creating the list first when the key was absent.  An application
    /// that is already pinned is appended again, not deduplicated.
    pub fn add_app(&mut self, app: &MacApp)
        ensures
            final(self)@ == spec_add_app(old(self)@, app@),
    {
        let mut apps: Vec<DockItem> = match self.applications.take() {
            Some(v) => v,
            None => Vec::new(),
        };
        let ghost prev = view_items(apps);
        apps.push(DockItem::new(app));
        proof {
            assert(view_items(apps) =~= prev.push(entry_of(app@)));
        }
        self.applications = Some(apps);
        proof {
            assert(self@ =~~= spec_add_app(old(self)@, app@));
        }
    }

    fn encode_node(&self) -> (r: PNode)
        ensures
            r@ == enc_dock(self@),
    {
        let ghost parta: Seq<(Seq<char>, Node)> = match self@.applications {
            Some(xs) => seq![("persistent-apps"@, Node::Array(enc_items(xs)))],
            None => Seq::empty(),
        };
        let ghost parto: Seq<(Seq<char>, Node)> = match self@.others {
            Some(xs) => seq![("persistent-others"@, Node::Array(enc_items(xs)))],
            None => Seq::empty(),
        };
        let mut es: Vec<(String, PNode)> = Vec::new();
        match &self.applications {
            Some(xs) => {
                let arr = enc_items_exec(xs);
                es.push(("persistent-apps".to_owned(), PNode::Array(arr)));
            },
            None => {},
        }
        proof {
            assert(view_entries(es@) =~= parta);
        }
        match &self.others {
            Some(xs) => {
                let arr = enc_items_exec(xs);
                es.push(("persistent-others".to_owned(), PNode::Array(arr)));
            },
            None => {},
        }
        proof {
            assert(view_entries(es@) =~= parta + parto);
        }
        PNode::Dict(es)
    }

    /// Encodes the configuration back to a persisted document.  Encoding
    /// succeeds for every configuration, and the resulting bytes parse to
    /// exactly the encoded document, so a representable configuration
    /// (every loaded or edited one, see `valid_dock`) loads back
    /// unchanged.
    pub fn serialize(&self) -> (r: Result<Vec<u8>, DockError>)
        ensures
            r is Ok,
            r matches Ok(b) ==> parsed_plist(b@) == Some(enc_dock(self@)),
            valid_dock(self@) ==> (r matches Ok(b) ==> spec_load(b@) == Some(self@)),
    {
        let top = self.encode_node();
        proof {
            lemma_enc_dock_canonical(self@);
            if valid_dock(self@) {
                lemma_dock_round_trip(self@);
            }
        }
        let v = node_to_value(top);
        match write_plist(&v) {
            Ok(b) => Ok(b),
            Err(m) => Err(DockError::Malformed(m)),
        }
    }
}

impl Dock {
    /// Decodes the persisted configuration document.  Returns exactly the
    /// configuration that `spec_load` gives for these bytes, and fails
    /// with `Malformed` precisely when the bytes have no such meaning.
    pub fn load(bytes: &[u8]) -> (r: Result<Dock, DockError>)
        ensures
            match r {
                Ok(d) => spec_load(bytes@) == Some(d@) && valid_dock(d@),
                Err(_) => spec_load(bytes@) is None,
            },
    {
        let v = match parse_plist(bytes) {
            Ok(v) => v,
            Err(m) => {
                return Err(DockError::Malformed(m));
            },
        };
        let node = value_to_node(v);
        match &node {
            PNode::Dict(es) => {
                let applications = match dec_opt_list_exec(
                    dict_get(es, &"persistent-apps".to_owned()),
                ) {
                    Ok(o) => o,
                    Err(e) => {
                        return Err(e);
                    },
                };
                let others = match dec_opt_list_exec(
                    dict_get(es, &"persistent-others".to_owned()),
                ) {
                    Ok(o) => o,
                    Err(e) => {
                        return Err(e);
                    },
                };
                let d = Dock { applications, others };
                proof {
                    lemma_dec_dock_valid(node@);
                }
                Ok(d)
            },
            _ => Err(DockError::Malformed("configuration root is not a dictionary".to_owned())),
        }
    }
}

} // verus!
