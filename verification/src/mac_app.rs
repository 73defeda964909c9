//! Reading an application bundle's metadata descriptor into a typed
//! `MacApp` record: path validation, the display-name fallback chain, and
//! the required bundle identifier.

use vstd::prelude::*;

use crate::dock::dec_opt_str;
use crate::node::{lookup, view_entries, dict_get, Node, PNode};
use crate::plist_io::{parse_plist, parsed_plist, value_to_node};

verus! {

/// A macOS application bundle and the metadata the Dock needs from it.
#[derive(Debug, PartialEq, Clone)]
pub struct MacApp {
    /// Absolute path to the `.app` bundle.
    pub path: String,
    /// Resolved display name: the descriptor's explicit display name,
    /// else its generic name, else the bundle file name with the `.app`
    /// extension stripped.
    pub display_name: String,
    /// The bundle identifier; required.
    pub bundle_id: String,
}

/// The mathematical view of a `MacApp`.
#[verifier::ext_equal]
pub struct AppV {
    pub path: Seq<char>,
    pub display_name: Seq<char>,
    pub bundle_id: Seq<char>,
}

impl View for MacApp {
    type V = AppV;

    open spec fn view(&self) -> AppV {
        AppV { path: self.path@, display_name: self.display_name@, bundle_id: self.bundle_id@ }
    }
}

/// Reading a bundle failed.
#[derive(Debug, PartialEq, Clone)]
pub enum BundleError {
    /// The path does not exist or does not name an `.app` bundle.
    InvalidBundle(String),
    /// The metadata descriptor could not be opened or read.
    DescriptorUnreadable(String),
    /// The metadata descriptor could not be decoded.
    DescriptorMalformed(String),
    /// No display name could be resolved from any source.
    MissingDisplayName(String),
    /// The descriptor lacks the required bundle identifier.
    MissingBundleId(String),
}

// --- The bundle path: name, extension, stem -----------------------------

pub open spec fn trim_slashes(p: Seq<char>) -> Seq<char>
    decreases p.len(),
{
    if p.len() > 0 && p.last() == '/' {
        trim_slashes(p.drop_last())
    } else {
        p
    }
}

/// The last path component: what follows the final separator, with
/// trailing separators ignored.
pub open spec fn file_name_of(p: Seq<char>) -> Seq<char>
    decreases p.len(),
{
    if p.len() == 0 {
        p
    } else if p.last() == '/' {
        Seq::empty()
    } else {
        file_name_of(p.drop_last()).push(p.last())
    }
}

pub open spec fn bundle_name(path: Seq<char>) -> Seq<char> {
    file_name_of(trim_slashes(path))
}

/// A file name that carries the application-bundle extension: it ends in
/// `.app` and has something before the dot.
pub open spec fn valid_bundle_name(name: Seq<char>) -> bool {
    name.len() >= 5 && name.skip(name.len() - 4) == ".app"@
}

/// The file name with every trailing `.app` extension stripped: the
/// third source of the display-name fallback chain.
pub open spec fn stem_of(name: Seq<char>) -> Seq<char>
    decreases name.len(),
{
    if name.len() >= 4 && name.skip(name.len() - 4) == ".app"@ {
        stem_of(name.take(name.len() - 4))
    } else {
        name
    }
}

proof fn lemma_file_name_skip(s: Seq<char>, b: int)
    requires
        0 <= b <= s.len(),
        forall|m: int| b <= m < s.len() ==> s[m] != '/',
        b > 0 ==> s[b - 1] == '/',
    ensures
        file_name_of(s) == s.skip(b),
    decreases s.len(),
{
    if s.len() == b {
        if b == 0 {
            assert(s.skip(0) =~= s);
        } else {
            assert(s.last() == s[b - 1]);
            assert(Seq::<char>::empty() =~= s.skip(b));
        }
    } else {
        assert(s[s.len() - 1] != '/');
        lemma_file_name_skip(s.drop_last(), b);
        assert(s.drop_last().skip(b).push(s.last()) =~= s.skip(b));
    }
}

fn has_dot_app_at(path: &str, j: usize) -> (r: bool)
    requires
        j + 4 <= path@.len(),
        path@.len() <= usize::MAX,
    ensures
        r == (path@.subrange(j as int, j as int + 4) == ".app"@),
{
    proof {
        reveal_strlit(".app");
    }
    let c0 = path.get_char(j);
    let c1 = path.get_char(j + 1);
    let c2 = path.get_char(j + 2);
    let c3 = path.get_char(j + 3);
    let r = c0 == '.' && c1 == 'a' && c2 == 'p' && c3 == 'p';
    proof {
        let s = path@.subrange(j as int, j as int + 4);
        assert(s[0] == c0 && s[1] == c1 && s[2] == c2 && s[3] == c3);
        if r {
            assert(s =~= ".app"@);
        } else {
            assert(s != ".app"@);
        }
    }
    r
}

/// Checks that `path` names an `.app` bundle and returns the display-name
/// stem of its file name; `None` when the last path component does not
/// carry the bundle extension.
pub fn bundle_stem(path: &str) -> (r: Option<String>)
    ensures
        match r {
            Some(s) => valid_bundle_name(bundle_name(path@)) && s@ == stem_of(bundle_name(path@)),
            None => !valid_bundle_name(bundle_name(path@)),
        },
{
    let len = path.unicode_len();
    proof {
        assert(path@.take(len as int) =~= path@);
    }
    let mut e = len;
    while e > 0 && path.get_char(e - 1) == '/'
        invariant
            0 <= e <= len,
            len == path@.len(),
            trim_slashes(path@) == trim_slashes(path@.take(e as int)),
        decreases e,
    {
        proof {
            let pe = path@.take(e as int);
            assert(pe.last() == path@[e as int - 1]);
            assert(pe.drop_last() =~= path@.take(e as int - 1));
        }
        e = e - 1;
    }
    proof {
        let pe = path@.take(e as int);
        if e > 0 {
            assert(pe.last() == path@[e as int - 1]);
        }
        assert(trim_slashes(path@) == pe);
    }
    let mut b = e;
    while b > 0 && path.get_char(b - 1) != '/'
        invariant
            0 <= b <= e <= len,
            len == path@.len(),
            forall|m: int| b <= m < e ==> path@[m] != '/',
        decreases b,
    {
        b = b - 1;
    }
    let ghost name = path@.subrange(b as int, e as int);
    proof {
        let pe = path@.take(e as int);
        assert forall|m: int| b <= m < pe.len() implies pe[m] != '/' by {}
        lemma_file_name_skip(pe, b as int);
        assert(pe.skip(b as int) =~= name);
        assert(bundle_name(path@) == name);
    }
    if e - b < 5 {
        return None;
    }
    if !has_dot_app_at(path, e - 4) {
        proof {
            assert(name.skip(name.len() - 4) =~= path@.subrange(e as int - 4, e as int));
        }
        return None;
    }
    proof {
        assert(name.skip(name.len() - 4) =~= path@.subrange(e as int - 4, e as int));
    }
    let mut se = e;
    while se - b >= 4 && has_dot_app_at(path, se - 4)
        invariant
            b <= se <= e <= len,
            len == path@.len(),
            stem_of(name) == stem_of(path@.subrange(b as int, se as int)),
            name == path@.subrange(b as int, e as int),
        decreases se,
    {
        proof {
            let cur = path@.subrange(b as int, se as int);
            assert(cur.skip(cur.len() - 4) =~= path@.subrange(se as int - 4, se as int));
            assert(cur.take(cur.len() - 4) =~= path@.subrange(b as int, se as int - 4));
        }
        se = se - 4;
    }
    proof {
        let cur = path@.subrange(b as int, se as int);
        if cur.len() >= 4 {
            assert(cur.skip(cur.len() - 4) =~= path@.subrange(se as int - 4, se as int));
        }
        assert(stem_of(cur) == cur);
    }
    let stem = path.substring_char(b, se);
    Some(stem.to_owned())
}

// --- The display-name fallback chain ------------------------------------

pub open spec fn view_opt_str(o: Option<String>) -> Option<Seq<char>> {
    match o {
        Some(s) => Some(s@),
        None => None,
    }
}

pub open spec fn view_sources(v: Seq<Option<String>>) -> Seq<Option<Seq<char>>> {
    Seq::new(v.len(), |i: int| view_opt_str(v[i]))
}

/// The fallback chain: the first source that is present wins.
pub open spec fn first_present(sources: Seq<Option<Seq<char>>>) -> Option<Seq<char>>
    decreases sources.len(),
{
    if sources.len() == 0 {
        None
    } else if sources[0] is Some {
        sources[0]
    } else {
        first_present(sources.drop_first())
    }
}

proof fn lemma_first_present_skip(s: Seq<Option<Seq<char>>>, i: int)
    requires
        0 <= i <= s.len(),
        forall|m: int| 0 <= m < i ==> s[m] is None,
    ensures
        first_present(s) == first_present(s.skip(i)),
    decreases i,
{
    if i > 0 {
        lemma_first_present_skip(s.drop_first(), i - 1);
        assert(s.drop_first().skip(i - 1) =~= s.skip(i));
    } else {
        assert(s.skip(0) =~= s);
    }
}

/// Resolves a name from an ordered list of optional sources, taking the
/// first that is present.
pub fn resolve_display_name(sources: &Vec<Option<String>>) -> (r: Option<String>)
    ensures
        view_opt_str(r) == first_present(view_sources(sources@)),
{
    let ghost s = view_sources(sources@);
    let n = sources.len();
    for i in 0..n
        invariant
            n == sources.len(),
            s == view_sources(sources@),
            forall|m: int| 0 <= m < i ==> s[m] is None,
    {
        match &sources[i] {
            Some(v) => {
                proof {
                    lemma_first_present_skip(s, i as int);
                    assert(s.skip(i as int)[0] == s[i as int]);
                }
                return Some(v.clone());
            },
            None => {
                proof {
                    assert(s[i as int] == view_opt_str(sources@[i as int]));
                }
            },
        }
    }
    proof {
        lemma_first_present_skip(s, n as int);
        assert(s.skip(n as int).len() == 0);
    }
    None
}

// --- The descriptor ------------------------------------------------------

/// What the library reads from a bundle's metadata descriptor.
#[verifier::ext_equal]
pub struct InfoV {
    pub bundle_id: Option<Seq<char>>,
    pub display_name: Option<Seq<char>>,
    pub name: Option<Seq<char>>,
}

/// The meaning of a parsed descriptor: its three recognized keys, each an
/// optional string; `None` where the descriptor is not a dictionary or a
/// present key is not a string.
pub open spec fn dec_info(n: Node) -> Option<InfoV> {
    match n {
        Node::Dict(es) => match (dec_opt_str(lookup(es, "CFBundleIdentifier"@)), dec_opt_str(
            lookup(es, "CFBundleDisplayName"@),
        ), dec_opt_str(lookup(es, "CFBundleName"@))) {
            (Some(b), Some(d), Some(nm)) => Some(
                InfoV { bundle_id: b, display_name: d, name: nm },
            ),
            _ => None,
        },
        _ => None,
    }
}

fn info_field(es: &Vec<(String, PNode)>, key: &String) -> (r: Result<Option<String>, BundleError>)
    ensures
        match r {
            Ok(o) => dec_opt_str(lookup(view_entries(es@), key@)) == Some(view_opt_str(o)),
            Err(e) => dec_opt_str(lookup(view_entries(es@), key@)) is None && e
                is DescriptorMalformed,
        },
{
    match dict_get(es, key) {
        None => Ok(None),
        Some(p) => match p {
            PNode::Str(s) => Ok(Some(s.clone())),
            _ => Err(
                BundleError::DescriptorMalformed("descriptor key is not a string".to_owned()),
            ),
        },
    }
}

fn dec_info_exec(n: &PNode) -> (r: Result<
    (Option<String>, Option<String>, Option<String>),
    BundleError,
>)
    ensures
        match r {
            Ok(t) => dec_info(n@) == Some(
                InfoV {
                    bundle_id: view_opt_str(t.0),
                    display_name: view_opt_str(t.1),
                    name: view_opt_str(t.2),
                },
            ),
            Err(e) => dec_info(n@) is None && e is DescriptorMalformed,
        },
{
    match n {
        PNode::Dict(es) => {
            let bid = match info_field(es, &"CFBundleIdentifier".to_owned()) {
                Ok(o) => o,
                Err(e) => {
                    return Err(e);
                },
            };
            let disp = match info_field(es, &"CFBundleDisplayName".to_owned()) {
                Ok(o) => o,
                Err(e) => {
                    return Err(e);
                },
            };
            let nm = match info_field(es, &"CFBundleName".to_owned()) {
                Ok(o) => o,
                Err(e) => {
                    return Err(e);
                },
            };
            Ok((bid, disp, nm))
        },
        _ => Err(BundleError::DescriptorMalformed("descriptor is not a dictionary".to_owned())),
    }
}

/// Prefixes a decode diagnostic with the offending bundle path, so every
/// descriptor error names the bundle it is about.
fn malformed_with_path(path: &str, cause: String) -> (r: BundleError)
    ensures
        r matches BundleError::DescriptorMalformed(m) && m@ == path@ + ": "@ + cause@
            && m@.take(path@.len() as int) == path@,
{
    let mut m = path.to_owned();
    m.append(": ");
    m.append(cause.as_str());
    proof {
        assert(m@.take(path@.len() as int) =~= path@);
    }
    BundleError::DescriptorMalformed(m)
}

impl MacApp {
    /// Builds a `MacApp` from a bundle path and the raw bytes of its
    /// metadata descriptor.  The path must name an `.app` bundle; the
    /// descriptor must decode (a decode failure reports the path with the
    /// diagnostic); the bundle identifier is required; the display name
    /// falls back from the explicit name to the generic name to the
    /// file-name stem, which is always available, so a missing display
    /// name can only be reported if every source were absent.
    pub fn from_descriptor(path: &str, descriptor: &[u8]) -> (r: Result<MacApp, BundleError>)
        ensures
            match r {
                Ok(a) => {
                    &&& valid_bundle_name(bundle_name(path@))
                    &&& parsed_plist(descriptor@) matches Some(n) && dec_info(n) matches Some(info)
                        && info.bundle_id matches Some(bid) && a@ == AppV {
                        path: path@,
                        display_name: first_present(
                            seq![
                                info.display_name,
                                info.name,
                                Some(stem_of(bundle_name(path@))),
                            ],
                        )->Some_0,
                        bundle_id: bid,
                    }
                },
                Err(BundleError::InvalidBundle(p)) => p@ == path@ && !valid_bundle_name(
                    bundle_name(path@),
                ),
                Err(BundleError::DescriptorMalformed(m)) => {
                    &&& m@.take(path@.len() as int) == path@
                    &&& valid_bundle_name(bundle_name(path@))
                    &&& (parsed_plist(descriptor@) is None || (parsed_plist(descriptor@)
                        matches Some(n) && dec_info(n) is None))
                },
                Err(BundleError::MissingBundleId(p)) => {
                    &&& p@ == path@
                    &&& valid_bundle_name(bundle_name(path@))
                    &&& parsed_plist(descriptor@) matches Some(n) && dec_info(n) matches Some(info)
                        && info.bundle_id is None
                },
                Err(BundleError::MissingDisplayName(_)) => false,
                Err(BundleError::DescriptorUnreadable(_)) => false,
            },
    {
        let stem = match bundle_stem(path) {
            Some(s) => s,
            None => {
                return Err(BundleError::InvalidBundle(path.to_owned()));
            },
        };
        let v = match parse_plist(descriptor) {
            Ok(v) => v,
            Err(m) => {
                return Err(malformed_with_path(path, m));
            },
        };
        let node = value_to_node(v);
        let (bid_o, disp_o, name_o) = match dec_info_exec(&node) {
            Ok(t) => t,
            Err(e) => match e {
                BundleError::DescriptorMalformed(m) => {
                    return Err(malformed_with_path(path, m));
                },
                _ => {
                    proof {
                        assert(false);
                    }
                    return Err(e);
                },
            },
        };
        let ghost info = dec_info(node@)->Some_0;
        let mut sources: Vec<Option<String>> = Vec::new();
        sources.push(disp_o);
        sources.push(name_o);
        sources.push(Some(stem));
        let ghost svs = view_sources(sources@);
        proof {
            assert(svs =~= seq![
                info.display_name,
                info.name,
                Some(stem_of(bundle_name(path@))),
            ]);
        }
        let display_name = match resolve_display_name(&sources) {
            Some(d) => d,
            None => {
                proof {
                    assert(svs[2] is Some);
                    assert(first_present(svs.drop_first().drop_first()) is Some) by {
                        assert(svs.drop_first().drop_first()[0] == svs[2]);
                    }
                    assert(first_present(svs.drop_first()) is Some) by {
                        assert(svs.drop_first()[0] == svs[1]);
                        assert(svs.drop_first().drop_first() == svs.drop_first().drop_first());
                    }
                    assert(first_present(svs) is Some);
                    assert(false);
                }
                return Err(BundleError::MissingDisplayName(path.to_owned()));
            },
        };
        let bundle_id = match bid_o {
            Some(b) => b,
            None => {
                return Err(BundleError::MissingBundleId(path.to_owned()));
            },
        };
        Ok(MacApp { path: path.to_owned(), display_name, bundle_id })
    }
}

} // verus!
