//! The collection tree: path normalization and materializing a walked
//! directory listing into a tree of named nodes.

use vstd::prelude::*;
use vstd::string::StrSliceExecFns;
use vstd::string::StringExecFns;
use crate::strutil::push_char;
use crate::strutil::substring_string;

verus! {

/// One step of the backslash folding: every pair of backslashes collapses,
/// left to right, into a single forward slash.
pub open spec fn collapse_backslash_pairs(s: Seq<char>) -> Seq<char>
    decreases s.len(),
{
    if s.len() >= 2 && s[0] == '\\' && s[1] == '\\' {
        seq!['/'] + collapse_backslash_pairs(s.skip(2))
    } else if s.len() >= 1 {
        seq![s[0]] + collapse_backslash_pairs(s.skip(1))
    } else {
        Seq::<char>::empty()
    }
}

/// The second step: every remaining backslash becomes a forward slash.
pub open spec fn slashify(s: Seq<char>) -> Seq<char> {
    s.map_values(|c: char| if c == '\\' { '/' } else { c })
}

/// The full path normalization: backslash pairs fold to one slash first,
/// then every leftover backslash is replaced by a slash.
pub open spec fn normalised_path(s: Seq<char>) -> Seq<char> {
    slashify(collapse_backslash_pairs(s))
}

/// Normalizes a path string for display and storage: backslash pairs fold
/// to a single forward slash, and any remaining backslash becomes a
/// forward slash as well.
pub fn normalise_path(dir: String) -> (r: String)
    ensures
        r@ == normalised_path(dir@),
{
    let s = dir.as_str();
    let n = s.unicode_len();
    let mut folded = String::new();
    let mut i: usize = 0;
    proof {
        assert(s@.skip(0) =~= s@);
        assert(folded@ + collapse_backslash_pairs(s@) =~= collapse_backslash_pairs(s@));
    }
    while i < n
        invariant
            i <= n,
            n == s@.len(),
            folded@ + collapse_backslash_pairs(s@.skip(i as int)) == collapse_backslash_pairs(s@),
        decreases n - i,
    {
        if i + 1 < n && s.get_char(i) == '\\' && s.get_char(i + 1) == '\\' {
            proof {
                assert(s@.skip(i as int)[0] == s@[i as int]);
                assert(s@.skip(i as int)[1] == s@[i as int + 1]);
                assert(s@.skip(i as int).skip(2) =~= s@.skip(i as int + 2));
            }
            push_char(&mut folded, '/');
            i = i + 2;
        } else {
            proof {
                if i as int <= s@.len() - 2 {
                    assert(s@.skip(i as int)[0] == s@[i as int]);
                    assert(s@.skip(i as int)[1] == s@[i as int + 1]);
                }
                assert(s@.skip(i as int)[0] == s@[i as int]);
                assert(s@.skip(i as int).skip(1) =~= s@.skip(i as int + 1));
            }
            let c = s.get_char(i);
            push_char(&mut folded, c);
            i = i + 1;
        }
        proof {
            assert(folded@ + collapse_backslash_pairs(s@.skip(i as int))
                == collapse_backslash_pairs(s@));
        }
    }
    proof {
        assert(s@.skip(n as int) =~= Seq::<char>::empty());
        assert(folded@ =~= collapse_backslash_pairs(s@));
    }
    let t = folded.as_str();
    let m = t.unicode_len();
    let mut out = String::new();
    let mut j: usize = 0;
    while j < m
        invariant
            j <= m,
            m == t@.len(),
            out@ == slashify(t@).subrange(0, j as int),
        decreases m - j,
    {
        let c = t.get_char(j);
        if c == '\\' {
            push_char(&mut out, '/');
        } else {
            push_char(&mut out, c);
        }
        proof {
            assert(out@ =~= slashify(t@).subrange(0, j as int + 1));
        }
        j = j + 1;
    }
    proof {
        assert(out@ =~= slashify(t@));
    }
    out
}

/// A node of the collection tree: a file carries content, a folder
/// carries children.
#[derive(Debug)]
pub struct PandaCollection {
    pub id: String,
    pub name: String,
    pub path: String,
    pub content: Option<String>,
    pub children: Option<Vec<PandaCollection>>,
    pub is_selectable: bool,
    pub item_type: String,
}

/// The structural identity of a node, with the unstable `id` left out.
pub enum CollectionShape {
    FileShape { name: Seq<char>, path: Seq<char>, content: Seq<char>, selectable: bool },
    FolderShape { name: Seq<char>, path: Seq<char>, children: Seq<CollectionShape>, selectable: bool },
}

/// The shape of a node: everything but its identifier.
pub open spec fn shape_of(n: PandaCollection) -> CollectionShape
    decreases n, 1int,
{
    match n.children {
        Some(cs) => CollectionShape::FolderShape {
            name: n.name@,
            path: n.path@,
            children: shapes_of(cs@),
            selectable: n.is_selectable,
        },
        None => CollectionShape::FileShape {
            name: n.name@,
            path: n.path@,
            content: match n.content {
                Some(c) => c@,
                None => Seq::<char>::empty(),
            },
            selectable: n.is_selectable,
        },
    }
}

/// The shapes of a list of nodes, in order.
pub open spec fn shapes_of(ns: Seq<PandaCollection>) -> Seq<CollectionShape>
    decreases ns, 0int,
{
    if ns.len() == 0 {
        Seq::<CollectionShape>::empty()
    } else {
        seq![shape_of(ns[0])] + shapes_of(ns.subrange(1, ns.len() as int))
    }
}

/// What the tree builder guarantees of every node it emits: the walk
/// marks every node selectable, gives it a fresh 36-character identifier,
/// and keeps the file/folder invariant — a folder holds children and no
/// content, a file holds content and no children.
pub open spec fn built_wf(n: PandaCollection) -> bool
    decreases n,
{
    &&& n.is_selectable == true
    &&& n.id@.len() == 36
    &&& match n.children {
        Some(cs) => {
            &&& n.content is None
            &&& n.item_type@ == "folder"@
            &&& forall|i: int| 0 <= i < cs@.len() ==> built_wf(#[trigger] cs@[i])
        },
        None => {
            &&& n.content is Some
            &&& n.item_type@ == "file"@
        },
    }
}

pub proof fn lemma_shapes_of_len(ns: Seq<PandaCollection>)
    ensures
        shapes_of(ns).len() == ns.len(),
    decreases ns.len(),
{
    if ns.len() > 0 {
        lemma_shapes_of_len(ns.subrange(1, ns.len() as int));
    }
}

pub proof fn lemma_shapes_of_index(ns: Seq<PandaCollection>, i: int)
    requires
        0 <= i < ns.len(),
    ensures
        shapes_of(ns).len() == ns.len(),
        shapes_of(ns)[i] == shape_of(ns[i]),
    decreases ns.len(),
{
    lemma_shapes_of_len(ns);
    if i > 0 {
        lemma_shapes_of_index(ns.subrange(1, ns.len() as int), i - 1);
        assert(ns.subrange(1, ns.len() as int)[i - 1] == ns[i]);
        lemma_shapes_of_len(ns.subrange(1, ns.len() as int));
    }
}

/// One entry of a walked directory listing, in preorder with its depth:
/// depth 1 is a direct child of the walked root. A file carries its
/// content, a folder carries none; a folder's subtree follows it, one
/// level deeper, before its next sibling.
#[derive(Debug)]
pub struct FsEntry {
    pub depth: usize,
    pub name: String,
    pub path: String,
    pub content: Option<String>,
}

/// The position just past the subtree that starts at `j`: the first
/// later position whose entry sits at depth `d` or above, or the end.
pub open spec fn subtree_end(s: Seq<FsEntry>, d: nat, j: int) -> int
    decreases s.len() - j,
{
    if j < 0 || j >= s.len() {
        s.len() as int
    } else if s[j].depth <= d {
        j
    } else {
        subtree_end(s, d, j + 1)
    }
}

pub proof fn lemma_subtree_end_bounds(s: Seq<FsEntry>, d: nat, j: int)
    requires
        0 <= j <= s.len(),
    ensures
        j <= subtree_end(s, d, j) <= s.len(),
    decreases s.len() - j,
{
    if j < s.len() && !(s[j].depth <= d) {
        lemma_subtree_end_bounds(s, d, j + 1);
    }
}

pub proof fn lemma_subtree_end_gt(s: Seq<FsEntry>, d: nat, j: int)
    requires
        0 <= j <= s.len(),
    ensures
        forall|m: int| j <= m < subtree_end(s, d, j) ==> s[m].depth > d,
    decreases s.len() - j,
{
    if j < s.len() && !(s[j].depth <= d) {
        lemma_subtree_end_gt(s, d, j + 1);
        lemma_subtree_end_bounds(s, d, j + 1);
    }
}

/// Whether a listing block is a well-formed preorder at depth `d`: its
/// first entry sits at depth `d`, a file's subtree is empty, and both
/// the subtree block and the remaining siblings are well-formed in turn.
pub open spec fn wf_listing(s: Seq<FsEntry>, d: nat) -> bool
    decreases s.len(),
        when s.len() >= 0
    via wf_listing_dec
{
    if s.len() == 0 {
        true
    } else {
        let k = subtree_end(s, d, 1);
        &&& s[0].depth == d
        &&& (s[0].content is Some ==> k == 1)
        &&& wf_listing(s.subrange(1, k), (d + 1) as nat)
        &&& wf_listing(s.subrange(k, s.len() as int), d)
    }
}

#[via_fn]
proof fn wf_listing_dec(s: Seq<FsEntry>, d: nat) {
    if s.len() > 0 {
        lemma_subtree_end_bounds(s, d, 1);
    }
}

/// The forest a well-formed listing block at depth `d` describes: each
/// entry becomes a node in order, a file with its content, a folder with
/// the forest of its subtree as children; every path is normalized and
/// every node is selectable.
pub open spec fn forest_shape(s: Seq<FsEntry>, d: nat) -> Seq<CollectionShape>
    decreases s.len(),
        when s.len() >= 0
    via forest_shape_dec
{
    if s.len() == 0 {
        Seq::<CollectionShape>::empty()
    } else {
        let k = subtree_end(s, d, 1);
        let head = if s[0].content is Some {
            CollectionShape::FileShape {
                name: s[0].name@,
                path: normalised_path(s[0].path@),
                content: s[0].content->0@,
                selectable: true,
            }
        } else {
            CollectionShape::FolderShape {
                name: s[0].name@,
                path: normalised_path(s[0].path@),
                children: forest_shape(s.subrange(1, k), (d + 1) as nat),
                selectable: true,
            }
        };
        seq![head] + forest_shape(s.subrange(k, s.len() as int), d)
    }
}

#[via_fn]
proof fn forest_shape_dec(s: Seq<FsEntry>, d: nat) {
    if s.len() > 0 {
        lemma_subtree_end_bounds(s, d, 1);
    }
}

fn subtree_end_exec(block: &Vec<FsEntry>, d: usize) -> (k: usize)
    requires
        block@.len() >= 1,
    ensures
        k == subtree_end(block@, d as nat, 1),
        1 <= k <= block@.len(),
{
    proof {
        lemma_subtree_end_bounds(block@, d as nat, 1);
    }
    let n = block.len();
    let mut j: usize = 1;
    while j < n && block[j].depth > d
        invariant
            1 <= j <= n,
            n == block@.len(),
            subtree_end(block@, d as nat, 1) == subtree_end(block@, d as nat, j as int),
        decreases n - j,
    {
        j = j + 1;
    }
    j
}

/// Relies on `uuid::Uuid::new_v4` and its hyphenated display form: a
/// fresh random identifier, 36 characters long. Nothing more is promised
/// of it — identifiers are not stable across runs.
#[verifier::external_body]
fn fresh_node_id() -> (r: String)
    ensures
        r@.len() == 36,
{
    uuid::Uuid::new_v4().to_string()
}

/// Builds the nodes of one well-formed listing block at depth `d`,
/// eagerly: each file entry becomes a file node, each folder entry a
/// folder node with its whole subtree built first.
fn build_forest(block: Vec<FsEntry>, d: usize) -> (r: Result<Vec<PandaCollection>, String>)
    ensures
        match r {
            Ok(nodes) => {
                &&& wf_listing(block@, d as nat)
                &&& shapes_of(nodes@) == forest_shape(block@, d as nat)
                &&& forall|i: int| 0 <= i < nodes@.len() ==> built_wf(#[trigger] nodes@[i])
            },
            Err(m) => !wf_listing(block@, d as nat) && m@ == "Invalid collection listing."@,
        },
    decreases block@.len(),
{
    let ghost b0 = block@;
    let mut block = block;
    if block.is_empty() {
        proof {
            assert(shapes_of(Seq::<PandaCollection>::empty()) =~= forest_shape(b0, d as nat));
        }
        return Ok(Vec::new());
    }
    if block[0].depth != d {
        return Err(String::from_str("Invalid collection listing."));
    }
    let k = subtree_end_exec(&block, d);
    proof {
        lemma_subtree_end_gt(b0, d as nat, 1);
    }
    let rest = block.split_off(k);
    let first = block.remove(0);
    let subtree = block;
    proof {
        assert(subtree@ =~= b0.subrange(1, k as int));
        assert(rest@ =~= b0.subrange(k as int, b0.len() as int));
        assert(first == b0[0]);
    }
    let node: PandaCollection = match first.content {
        Some(c) => {
            if k != 1 {
                return Err(String::from_str("Invalid collection listing."));
            }
            PandaCollection {
                id: fresh_node_id(),
                name: first.name,
                path: normalise_path(first.path),
                content: Some(c),
                children: None,
                is_selectable: true,
                item_type: String::from_str("file"),
            }
        },
        None => {
            let children: Vec<PandaCollection> = if k == 1 {
                proof {
                    assert(b0.subrange(1, 1) =~= Seq::<FsEntry>::empty());
                    assert(shapes_of(Seq::<PandaCollection>::empty()) =~= forest_shape(
                        b0.subrange(1, 1),
                        (d + 1) as nat,
                    ));
                }
                Vec::new()
            } else {
                proof {
                    assert(b0[1].depth > d);
                }
                match build_forest(subtree, d + 1) {
                    Ok(cs) => cs,
                    Err(m) => {
                        return Err(m);
                    },
                }
            };
            PandaCollection {
                id: fresh_node_id(),
                name: first.name,
                path: normalise_path(first.path),
                content: None,
                children: Some(children),
                is_selectable: true,
                item_type: String::from_str("folder"),
            }
        },
    };
    let mut rest_nodes = match build_forest(rest, d) {
        Ok(ns) => ns,
        Err(m) => {
            return Err(m);
        },
    };
    let ghost rn0 = rest_nodes@;
    let mut nodes: Vec<PandaCollection> = Vec::new();
    nodes.push(node);
    nodes.append(&mut rest_nodes);
    proof {
        assert(nodes@ =~= seq![node] + rn0);
        let ghost ns = nodes@;
        let ghost sub = b0.subrange(1, k as int);
        let ghost tail = b0.subrange(k as int, b0.len() as int);
        if k == 1 {
            assert(sub =~= Seq::<FsEntry>::empty());
            assert(wf_listing(sub, (d + 1) as nat));
        }
        assert(wf_listing(b0, d as nat));
        // the head of the described forest is exactly the shape of the
        // node that was just built
        let ghost f = forest_shape(b0, d as nat);
        assert(f == seq![
            if b0[0].content is Some {
                CollectionShape::FileShape {
                    name: b0[0].name@,
                    path: normalised_path(b0[0].path@),
                    content: b0[0].content->0@,
                    selectable: true,
                }
            } else {
                CollectionShape::FolderShape {
                    name: b0[0].name@,
                    path: normalised_path(b0[0].path@),
                    children: forest_shape(sub, (d + 1) as nat),
                    selectable: true,
                }
            },
        ] + forest_shape(tail, d as nat));
        assert(shape_of(node) == f[0]);
        assert(ns[0] == node);
        assert(ns.subrange(1, ns.len() as int) =~= rn0);
        assert(shapes_of(ns) == seq![shape_of(node)] + shapes_of(rn0));
        assert(shapes_of(ns) =~= f);
        assert(built_wf(node));
        assert forall|i: int| 0 <= i < ns.len() implies built_wf(#[trigger] ns[i]) by {
            if i > 0 {
                assert(ns[i] == rn0[i - 1]);
            }
        }
    }
    Ok(nodes)
}

/// The message of the first failed walk event, if any.
pub open spec fn first_walk_error(evts: Seq<Result<FsEntry, String>>) -> Option<Seq<char>>
    decreases evts.len(),
{
    if evts.len() == 0 {
        None
    } else {
        match evts[0] {
            Result::Err(m) => Some(m@),
            Result::Ok(_) => first_walk_error(evts.subrange(1, evts.len() as int)),
        }
    }
}

/// The entries of an error-free walk, in walk order.
pub open spec fn walk_entries(evts: Seq<Result<FsEntry, String>>) -> Seq<FsEntry> {
    evts.map_values(|e: Result<FsEntry, String>| e->Ok_0)
}

/// Materializes a walked directory listing into a forest of collection
/// nodes: files carry their content, folders carry the forest of their
/// subtree, paths are normalized, every node is selectable and gets a
/// fresh identifier. A failed walk event aborts the whole build with
/// that event's message — a partial tree is never returned — and so
/// does a listing that is not a well-formed preorder.
pub fn build_collection_forest(events: Vec<Result<FsEntry, String>>) -> (r: Result<
    Vec<PandaCollection>,
    String,
>)
    ensures
        match r {
            Ok(nodes) => {
                &&& first_walk_error(events@) is None
                &&& wf_listing(walk_entries(events@), 1)
                &&& shapes_of(nodes@) == forest_shape(walk_entries(events@), 1)
                &&& forall|i: int| 0 <= i < nodes@.len() ==> built_wf(#[trigger] nodes@[i])
            },
            Err(m) => match first_walk_error(events@) {
                Some(msg) => m@ == msg,
                None => !wf_listing(walk_entries(events@), 1) && m@
                    == "Invalid collection listing."@,
            },
        },
{
    let ghost e0 = events@;
    let mut events = events;
    let mut entries: Vec<FsEntry> = Vec::new();
    let mut err_msg: Option<String> = None;
    proof {
        assert(e0.skip(0) =~= e0);
        assert(entries@ =~= walk_entries(e0.take(0)));
    }
    while events.len() > 0
        invariant
            events@.len() <= e0.len(),
            events@ == e0.skip(e0.len() - events@.len()),
            match err_msg {
                Some(m) => first_walk_error(e0) == Some(m@),
                None => {
                    &&& forall|i: int| 0 <= i < e0.len() - events@.len() ==> e0[i] is Ok
                    &&& first_walk_error(e0) == first_walk_error(events@)
                    &&& entries@ == walk_entries(e0.take(e0.len() - events@.len()))
                },
            },
        decreases events@.len(),
    {
        let ghost j = e0.len() - events@.len();
        let ev = events.remove(0);
        proof {
            assert(ev == e0.skip(j)[0]);
            assert(e0.skip(j)[0] == e0[j]);
            assert(events@ =~= e0.skip(j + 1));
            assert(e0.skip(j).subrange(1, e0.skip(j).len() as int) =~= e0.skip(j + 1));
        }
        let failed = match &err_msg {
            Some(_) => true,
            None => false,
        };
        if !failed {
            match ev {
                Result::Ok(fe) => {
                    entries.push(fe);
                    proof {
                        let ghost lhs = entries@;
                        let ghost rhs = walk_entries(e0.take(j + 1));
                        assert(lhs.len() == rhs.len());
                        assert forall|i: int| 0 <= i < lhs.len() implies lhs[i] == rhs[i] by {
                            assert(e0.take(j + 1)[i] == e0[i]);
                            if i < j {
                                assert(lhs[i] == walk_entries(e0.take(j))[i]);
                                assert(e0.take(j)[i] == e0[i]);
                            } else {
                                assert(lhs[i] == fe);
                            }
                        }
                        assert(lhs =~= rhs);
                    }
                },
                Result::Err(m) => {
                    proof {
                        assert(first_walk_error(e0.skip(j)) == Some(m@));
                    }
                    err_msg = Some(m);
                },
            }
        }
    }
    match err_msg {
        Some(m) => Err(m),
        None => {
            proof {
                assert(events@ =~= Seq::<Result<FsEntry, String>>::empty());
                assert(first_walk_error(e0) is None);
                assert(e0.take(e0.len() as int) =~= e0);
                assert(entries@ == walk_entries(e0));
            }
            build_forest(entries, 1)
        },
    }
}

/// Compares two nodes for structural identity, identifiers aside: same
/// kind, name, path, content, selectability, and pairwise structurally
/// identical children.
pub fn same_structure(a: &PandaCollection, b: &PandaCollection) -> (r: bool)
    ensures
        r == (shape_of(*a) == shape_of(*b)),
    decreases *a,
{
    if !(a.name == b.name) {
        return false;
    }
    if !(a.path == b.path) {
        return false;
    }
    if a.is_selectable != b.is_selectable {
        return false;
    }
    match (&a.children, &b.children) {
        (Option::None, Option::None) => {
            proof {
                assert(shape_of(*a) == (CollectionShape::FileShape {
                    name: a.name@,
                    path: a.path@,
                    content: match a.content {
                        Some(c) => c@,
                        None => Seq::<char>::empty(),
                    },
                    selectable: a.is_selectable,
                }));
                assert(shape_of(*b) == (CollectionShape::FileShape {
                    name: b.name@,
                    path: b.path@,
                    content: match b.content {
                        Some(c) => c@,
                        None => Seq::<char>::empty(),
                    },
                    selectable: b.is_selectable,
                }));
            }
            let ce: bool = match &a.content {
                Option::Some(x) => match &b.content {
                    Option::Some(y) => *x == *y,
                    Option::None => x.as_str().is_empty(),
                },
                Option::None => match &b.content {
                    Option::Some(y) => y.as_str().is_empty(),
                    Option::None => true,
                },
            };
            proof {
                let ghost ac = (if a.content is Some { a.content->0@ } else { Seq::<char>::empty() });
                let ghost bc = (if b.content is Some { b.content->0@ } else { Seq::<char>::empty() });
                assert(ce == (ac == bc)) by {
                    if ac.len() == 0 && bc.len() == 0 {
                        assert(ac =~= bc);
                    }
                }
                assert((shape_of(*a) == shape_of(*b)) == (ac == bc));
            }
            ce
        },
        (Option::Some(ca), Option::Some(cb)) => {
            proof {
                assert(shape_of(*a) == (CollectionShape::FolderShape {
                    name: a.name@,
                    path: a.path@,
                    children: shapes_of(ca@),
                    selectable: a.is_selectable,
                }));
                assert(shape_of(*b) == (CollectionShape::FolderShape {
                    name: b.name@,
                    path: b.path@,
                    children: shapes_of(cb@),
                    selectable: b.is_selectable,
                }));
            }
            if ca.len() != cb.len() {
                proof {
                    lemma_shapes_of_len(ca@);
                    lemma_shapes_of_len(cb@);
                }
                return false;
            }
            let n = ca.len();
            let mut i: usize = 0;
            while i < n
                invariant
                    i <= n,
                    n == ca@.len(),
                    n == cb@.len(),
                    a.children matches Some(cav) && cav@ == ca@,
                    b.children matches Some(cbv) && cbv@ == cb@,
                    forall|m: int| 0 <= m < i ==> shape_of(ca@[m]) == shape_of(cb@[m]),
                decreases n - i,
            {
                proof {
                    assert(decreases_to!(*a => ca@[i as int]));
                }
                if !same_structure(&ca[i], &cb[i]) {
                    proof {
                        assert(shape_of(*a) == (CollectionShape::FolderShape {
                            name: a.name@,
                            path: a.path@,
                            children: shapes_of(ca@),
                            selectable: a.is_selectable,
                        }));
                        assert(shape_of(*b) == (CollectionShape::FolderShape {
                            name: b.name@,
                            path: b.path@,
                            children: shapes_of(cb@),
                            selectable: b.is_selectable,
                        }));
                        lemma_shapes_of_index(ca@, i as int);
                        lemma_shapes_of_index(cb@, i as int);
                    }
                    return false;
                }
                i = i + 1;
            }
            proof {
                lemma_shapes_of_len(ca@);
                lemma_shapes_of_len(cb@);
                assert forall|m: int| 0 <= m < n implies shapes_of(ca@)[m] == shapes_of(cb@)[m]
                    by {
                    lemma_shapes_of_index(ca@, m);
                    lemma_shapes_of_index(cb@, m);
                }
                assert(shapes_of(ca@) =~= shapes_of(cb@));
            }
            true
        },
        (Option::Some(ca), Option::None) => {
            proof {
                assert(shape_of(*a) is FolderShape);
                assert(shape_of(*b) is FileShape);
            }
            false
        },
        (Option::None, Option::Some(cb)) => {
            proof {
                assert(shape_of(*a) is FileShape);
                assert(shape_of(*b) is FolderShape);
            }
            false
        },
    }
}

/// Invoking the tree builder twice on an unmodified listing yields
/// structurally identical trees: the shapes of the result are a function
/// of the listing alone, so two error-free builds agree node for node,
/// identifiers aside.
pub proof fn lemma_tree_builder_idempotent(
    evts: Seq<Result<FsEntry, String>>,
    first_build: Seq<PandaCollection>,
    second_build: Seq<PandaCollection>,
)
    requires
        shapes_of(first_build) == forest_shape(walk_entries(evts), 1),
        shapes_of(second_build) == forest_shape(walk_entries(evts), 1),
    ensures
        shapes_of(first_build) == shapes_of(second_build),
        first_build.len() == second_build.len(),
        forall|i: int|
            0 <= i < first_build.len() ==> shape_of(first_build[i]) == shape_of(second_build[i]),
{
    lemma_shapes_of_len(first_build);
    lemma_shapes_of_len(second_build);
    assert forall|i: int|
        0 <= i < first_build.len() implies shape_of(first_build[i]) == shape_of(
        second_build[i],
    ) by {
        lemma_shapes_of_index(first_build, i);
        lemma_shapes_of_index(second_build, i);
    }
}

/// One filesystem action of a collection write-out.
#[derive(Debug)]
pub enum WriteAction {
    /// Ensure a directory exists at the path.
    MakeDir(String),
    /// Create a file at the path with the given content.
    WriteFile(String, String),
}

/// The mathematical form of one write action.
pub enum WriteStep {
    MakeDirStep(Seq<char>),
    WriteFileStep(Seq<char>, Seq<char>),
}

/// The step an action stands for.
pub open spec fn step_of(a: WriteAction) -> WriteStep {
    match a {
        WriteAction::MakeDir(p) => WriteStep::MakeDirStep(p@),
        WriteAction::WriteFile(p, c) => WriteStep::WriteFileStep(p@, c@),
    }
}

/// The steps a list of actions stands for, in order.
pub open spec fn steps_of(actions: Seq<WriteAction>) -> Seq<WriteStep> {
    actions.map_values(|a: WriteAction| step_of(a))
}

/// A child path: the parent, a slash, the child's name.
pub open spec fn joined_path(parent: Seq<char>, name: Seq<char>) -> Seq<char> {
    parent + seq!['/'] + name
}

/// The writes that materialize one node under a parent directory: a
/// folder becomes its directory followed by the writes of its children;
/// anything else makes sure the parent exists and writes one file,
/// empty when the node carries no content.
pub open spec fn node_write_plan(n: PandaCollection, parent: Seq<char>) -> Seq<WriteStep>
    decreases n, 1int,
{
    if n.item_type@ == "folder"@ {
        seq![WriteStep::MakeDirStep(joined_path(parent, n.name@))] + (match n.children {
            Some(cs) => forest_write_plan(cs@, joined_path(parent, n.name@)),
            None => Seq::<WriteStep>::empty(),
        })
    } else {
        seq![
            WriteStep::MakeDirStep(parent),
            WriteStep::WriteFileStep(
                joined_path(parent, n.name@),
                match n.content {
                    Some(c) => c@,
                    None => Seq::<char>::empty(),
                },
            ),
        ]
    }
}

/// The writes that materialize a whole forest under a parent directory,
/// node by node in order.
pub open spec fn forest_write_plan(ns: Seq<PandaCollection>, parent: Seq<char>) -> Seq<WriteStep>
    decreases ns, 0int,
{
    if ns.len() == 0 {
        Seq::<WriteStep>::empty()
    } else {
        forest_write_plan(ns.subrange(0, ns.len() - 1), parent) + node_write_plan(
            ns[ns.len() - 1],
            parent,
        )
    }
}

fn join_path_exec(parent: &String, name: &String) -> (r: String)
    ensures
        r@ == joined_path(parent@, name@),
{
    let mut out = parent.clone();
    push_char(&mut out, '/');
    out.append(name.as_str());
    proof {
        assert(out@ =~= joined_path(parent@, name@));
    }
    out
}

/// Computes, without touching the filesystem, the ordered writes that
/// materialize a collection forest under a parent directory.
pub fn create_collection_plan(collections: &Vec<PandaCollection>, parent_path: &String) -> (r: Vec<
    WriteAction,
>)
    ensures
        steps_of(r@) == forest_write_plan(collections@, parent_path@),
    decreases collections@,
{
    let folder_tag = String::from_str("folder");
    let mut out: Vec<WriteAction> = Vec::new();
    let n = collections.len();
    let mut i: usize = 0;
    proof {
        assert(collections@.subrange(0, 0) =~= Seq::<PandaCollection>::empty());
        assert(steps_of(out@) =~~= forest_write_plan(collections@.subrange(0, 0), parent_path@));
    }
    while i < n
        invariant
            i <= n,
            n == collections@.len(),
            steps_of(out@) == forest_write_plan(collections@.subrange(0, i as int), parent_path@),
            folder_tag@ == "folder"@,
        decreases n - i,
    {
        let ghost plan0 = steps_of(out@);
        let item = &collections[i];
        let item_path = join_path_exec(parent_path, &item.name);
        if item.item_type == folder_tag {
            out.push(WriteAction::MakeDir(item_path.clone()));
            match &item.children {
                Option::Some(cs) => {
                    proof {
                        assert(decreases_to!(collections@ => collections@[i as int]));
                        assert(decreases_to!(collections@[i as int] => cs@));
                    }
                    let mut child_actions = create_collection_plan(cs, &item_path);
                    out.append(&mut child_actions);
                },
                Option::None => {},
            }
        } else {
            out.push(WriteAction::MakeDir(parent_path.clone()));
            let content = match &item.content {
                Option::Some(c) => c.clone(),
                Option::None => String::new(),
            };
            out.push(WriteAction::WriteFile(item_path, content));
        }
        proof {
            let ghost pre = collections@.subrange(0, i as int + 1);
            assert(pre.subrange(0, pre.len() - 1) =~= collections@.subrange(0, i as int));
            assert(pre[pre.len() - 1] == collections@[i as int]);
            let ghost lhs = steps_of(out@);
            let ghost rhs = plan0 + node_write_plan(collections@[i as int], parent_path@);
            assert(lhs.len() == rhs.len());
            assert forall|k: int| 0 <= k < lhs.len() implies lhs[k] == rhs[k] by {
                if k < plan0.len() {
                    assert(lhs[k] == step_of(out@[k]));
                } else {
                    assert(lhs[k] == step_of(out@[k]));
                }
            }
            assert(lhs =~= rhs);
            assert(steps_of(out@) =~= forest_write_plan(pre, parent_path@));
        }
        i = i + 1;
    }
    proof {
        assert(collections@.subrange(0, n as int) =~= collections@);
    }
    out
}

/// The name of the workbench's configuration document.
pub open spec fn config_file_name() -> Seq<char> {
    seq!['p', 'a', 'n', 'd', 'a', '.', 'c', 'o', 'n', 'f', 'i', 'g', '.', 'j', 's', 'o', 'n']
}

fn config_name_char(i: usize) -> (c: char)
    requires
        i < 17,
    ensures
        c == config_file_name()[i as int],
{
    if i == 0 {
        'p'
    } else if i == 1 {
        'a'
    } else if i == 2 {
        'n'
    } else if i == 3 {
        'd'
    } else if i == 4 {
        'a'
    } else if i == 5 {
        '.'
    } else if i == 6 {
        'c'
    } else if i == 7 {
        'o'
    } else if i == 8 {
        'n'
    } else if i == 9 {
        'f'
    } else if i == 10 {
        'i'
    } else if i == 11 {
        'g'
    } else if i == 12 {
        '.'
    } else if i == 13 {
        'j'
    } else if i == 14 {
        's'
    } else if i == 15 {
        'o'
    } else {
        'n'
    }
}

/// Whether `a` is `b` up to ASCII case, where `b` is lower case.
pub open spec fn lower_matches(a: char, b: char) -> bool {
    (a as u32) == (b as u32) || (('A' as u32) <= (a as u32) && (a as u32) <= ('Z' as u32) && (
    a as u32) + 32 == (b as u32))
}

fn lower_matches_exec(a: char, b: char) -> (r: bool)
    ensures
        r == lower_matches(a, b),
{
    let ua = a as u32;
    let ub = b as u32;
    ua == ub || (('A' as u32) <= ua && ua <= ('Z' as u32) && ua + 32 == ub)
}

/// Whether the path names the configuration document itself: it ends,
/// ASCII case aside, with the configuration file's name.
pub open spec fn names_config_file(s: Seq<char>) -> bool {
    s.len() >= 17 && forall|i: int|
        0 <= i < 17 ==> lower_matches(s[s.len() - 17 + i], #[trigger] config_file_name()[i])
}

fn names_config_file_exec(s: &String) -> (r: bool)
    ensures
        r == names_config_file(s@),
{
    let t = s.as_str();
    let n = t.unicode_len();
    if n < 17 {
        return false;
    }
    let mut i: usize = 0;
    while i < 17
        invariant
            i <= 17,
            n == t@.len(),
            n >= 17,
            t@ == s@,
            forall|k: int|
                0 <= k < i ==> lower_matches(t@[n - 17 + k], #[trigger] config_file_name()[k]),
        decreases 17 - i,
    {
        let a = t.get_char(n - 17 + i);
        let b = config_name_char(i);
        if !lower_matches_exec(a, b) {
            return false;
        }
        i = i + 1;
    }
    true
}

/// The directory part of a normalized path: everything before the last
/// slash; a path with its only slash in front keeps it, and a bare name
/// has the empty parent.
pub open spec fn parent_dir(s: Seq<char>) -> Seq<char>
    decreases s.len(),
{
    if s.len() == 0 {
        s
    } else if s[s.len() - 1] == '/' {
        if s.len() == 1 {
            s
        } else {
            s.subrange(0, s.len() - 1)
        }
    } else {
        parent_dir(s.subrange(0, s.len() - 1))
    }
}

fn parent_dir_exec(s: &String) -> (r: String)
    ensures
        r@ == parent_dir(s@),
{
    let t = s.as_str();
    let n = t.unicode_len();
    let mut e: usize = n;
    proof {
        assert(t@.subrange(0, n as int) =~= t@);
        assert(parent_dir(t@) == parent_dir(t@.subrange(0, n as int)));
    }
    while e > 0 && t.get_char(e - 1) != '/'
        invariant
            e <= n,
            n == t@.len(),
            parent_dir(t@) == parent_dir(t@.subrange(0, e as int)),
        decreases e,
    {
        proof {
            let piece = t@.subrange(0, e as int);
            assert(piece[piece.len() - 1] == t@[e as int - 1]);
            assert(piece.subrange(0, piece.len() - 1) =~= t@.subrange(0, e as int - 1));
        }
        e = e - 1;
    }
    proof {
        let piece = t@.subrange(0, e as int);
        if e > 0 {
            assert(piece[piece.len() - 1] == t@[e as int - 1]);
            if e > 1 {
                assert(piece.subrange(0, piece.len() - 1) =~= t@.subrange(0, e as int - 1));
            } else {
                assert(piece =~= seq![t@[0]]);
            }
        } else {
            assert(piece =~= Seq::<char>::empty());
        }
    }
    if e == 0 {
        String::new()
    } else if e == 1 {
        substring_string(t, 0, 1)
    } else {
        substring_string(t, 0, e - 1)
    }
}

/// Where the configuration document and the project root stand for a
/// chosen path.
#[derive(Debug)]
pub struct ConfigLocation {
    pub config_file: String,
    pub project_root: String,
}

/// Resolves a user-chosen path: an empty path is rejected; a path that
/// names the configuration document is taken as it stands, with its
/// directory as project root; any other path is taken as the project
/// root, with the configuration document expected inside it. The path is
/// normalized first.
pub fn locate_config(config_path: String) -> (r: Result<ConfigLocation, String>)
    ensures
        ({
            let norm = normalised_path(config_path@);
            match r {
                Ok(loc) => {
                    &&& norm.len() > 0
                    &&& if names_config_file(norm) {
                        loc.config_file@ == norm && loc.project_root@ == parent_dir(norm)
                    } else {
                        loc.config_file@ == joined_path(norm, config_file_name())
                            && loc.project_root@ == norm
                    }
                },
                Err(m) => norm.len() == 0 && m@ == "You provided an empty string for cwd."@,
            }
        }),
{
    let norm = normalise_path(config_path);
    if norm.as_str().is_empty() {
        return Err(String::from_str("You provided an empty string for cwd."));
    }
    if names_config_file_exec(&norm) {
        let root = parent_dir_exec(&norm);
        Ok(ConfigLocation { config_file: norm, project_root: root })
    } else {
        let mut file = norm.clone();
        push_char(&mut file, '/');
        let mut i: usize = 0;
        while i < 17
            invariant
                i <= 17,
                file@ == norm@ + seq!['/'] + config_file_name().subrange(0, i as int),
            decreases 17 - i,
        {
            push_char(&mut file, config_name_char(i));
            proof {
                assert(config_file_name().subrange(0, i as int + 1) =~= config_file_name().subrange(
                    0,
                    i as int,
                ).push(config_file_name()[i as int]));
                assert(file@ =~= norm@ + seq!['/'] + config_file_name().subrange(0, i as int + 1));
            }
            i = i + 1;
        }
        proof {
            assert(config_file_name().subrange(0, 17) =~= config_file_name());
            assert(file@ =~= joined_path(norm@, config_file_name()));
        }
        Ok(ConfigLocation { config_file: file, project_root: norm })
    }
}

/// The directory holding the saved request collection: the configured
/// collection name resolved against the project root, normalized.
pub fn collection_dir(project_root: &String, collection: &String) -> (r: String)
    ensures
        r@ == normalised_path(joined_path(project_root@, collection@)),
{
    let joined = join_path_exec(project_root, collection);
    normalise_path(joined)
}

} // verus!
