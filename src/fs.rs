use vstd::prelude::*;
use crate::kind::{NodeKind, FileType, file_type_of, inner_to_fs_type};
use crate::path::{base_name, dir_name, split_path, bytes_eq};

verus! {

/// One node of the archive index, as plain values.
#[derive(Clone, Debug)]
pub struct NodeInfo {
    /// Full path inside the archive, `/` for the root.
    pub path: Vec<u8>,
    pub kind: NodeKind,
    /// Size in bytes (regular files).
    pub size: u64,
    /// Number of data blocks.
    pub blocks: u64,
    pub perm: u16,
    pub uid: u32,
    pub gid: u32,
}

/// The attribute record handed to the protocol.
#[derive(Clone, Copy, Debug, PartialEq, Eq, Structural)]
pub struct Attr {
    pub ino: u64,
    pub size: u64,
    pub blocks: u64,
    /// All four timestamps, in seconds since the epoch.
    pub time_secs: u64,
    pub kind: FileType,
    pub perm: u16,
    pub nlink: u32,
    pub uid: u32,
    pub gid: u32,
    pub rdev: u32,
    pub flags: u32,
    pub blksize: u32,
}

/// Errors reported to the protocol.
#[derive(Clone, Copy, Debug, PartialEq, Eq, Structural)]
pub enum FsError {
    NotFound,
    NotADirectory,
    IsADirectory,
    /// The content of a file could not be decoded.
    Io,
}

/// One entry of a directory listing.
#[derive(Clone, Debug)]
pub struct DirEntry {
    pub ino: u64,
    /// Position of the next entry in the listing.
    pub offset: u64,
    pub kind: FileType,
    pub name: Vec<u8>,
}

/// The byte `.`, of which the two synthetic listing entries are made.
pub const DOT: u8 = 46;
/// Preferred I/O block size reported in every attribute record.
pub const BLOCK_SIZE: u32 = 512;

/// The adapter: the archive index and, per node, its name and parent link.
pub struct SquashfsFilesystem {
    nodes: Vec<NodeInfo>,
    names: Vec<Vec<u8>>,
    parents: Vec<u64>,
}

// ---- the model ----

/// `id` names a node of the index.
pub open spec fn valid_id(s: Seq<NodeInfo>, id: u64) -> bool {
    1 <= id <= s.len()
}

/// The node named by `id`.
pub open spec fn node(s: Seq<NodeInfo>, id: u64) -> NodeInfo {
    s[id - 1]
}

/// Identifier of the first node at or after position `k` whose path is `t`, or 0.
pub open spec fn first_with_path(s: Seq<NodeInfo>, t: Seq<u8>, k: int) -> u64
    decreases s.len() - k,
{
    if k < 0 || k >= s.len() {
        0
    } else if s[k].path@ == t {
        (k + 1) as u64
    } else {
        first_with_path(s, t, k + 1)
    }
}

/// The node whose path is the directory part of `id`'s path, or 0 if there is none.
pub open spec fn parent_of(s: Seq<NodeInfo>, id: u64) -> u64 {
    first_with_path(s, dir_name(node(s, id).path@), 0)
}

/// The name of `id` inside its directory.
pub open spec fn name_of(s: Seq<NodeInfo>, id: u64) -> Seq<u8> {
    base_name(node(s, id).path@)
}

/// `id` names a directory.
pub open spec fn is_dir(s: Seq<NodeInfo>, id: u64) -> bool {
    valid_id(s, id) && node(s, id).kind == NodeKind::Dir
}

/// `k` is a child of `d`: it names a node other than `d` whose parent is `d`.
pub open spec fn is_child(s: Seq<NodeInfo>, d: u64, k: u64) -> bool {
    valid_id(s, k) && k != d && parent_of(s, k) == d
}

/// The children of `d` among the identifiers `1..=n`, in identifier order.
pub open spec fn children_upto(s: Seq<NodeInfo>, d: u64, n: int) -> Seq<u64>
    decreases n,
{
    if n <= 0 {
        Seq::empty()
    } else if is_child(s, d, n as u64) {
        children_upto(s, d, n - 1).push(n as u64)
    } else {
        children_upto(s, d, n - 1)
    }
}

/// The children of `d`, in the archive's stored order.
pub open spec fn children(s: Seq<NodeInfo>, d: u64) -> Seq<u64> {
    children_upto(s, d, s.len() as int)
}

/// What `..` of `d` stands for: its parent, or `d` itself where it has none.
pub open spec fn dotdot(s: Seq<NodeInfo>, d: u64) -> u64 {
    if parent_of(s, d) == 0 { d } else { parent_of(s, d) }
}

/// A listing entry as (identifier, file type, name).
pub open spec fn child_entry(s: Seq<NodeInfo>, k: u64) -> (u64, FileType, Seq<u8>) {
    (k, file_type_of(node(s, k).kind), name_of(s, k))
}

/// The full synthesized listing of `d`: `.`, `..`, then every child.
pub open spec fn listing(s: Seq<NodeInfo>, d: u64) -> Seq<(u64, FileType, Seq<u8>)> {
    seq![(d, FileType::Directory, seq![DOT]), (dotdot(s, d), FileType::Directory, seq![DOT, DOT])]
        + children(s, d).map_values(|k: u64| child_entry(s, k))
}

/// The entries of the listing from position `k` on; empty past its end.
pub open spec fn listing_from(s: Seq<NodeInfo>, d: u64, k: int) -> Seq<(u64, FileType, Seq<u8>)> {
    let l = listing(s, d);
    if k >= l.len() { Seq::empty() } else { l.subrange(k, l.len() as int) }
}

/// A listing entry without its position.
pub open spec fn entry_view(e: DirEntry) -> (u64, FileType, Seq<u8>) {
    (e.ino, e.kind, e.name@)
}

/// The attribute record of node `id`; timestamps are the epoch, links are not modelled.
pub open spec fn attr_of(s: Seq<NodeInfo>, id: u64) -> Attr {
    let n = node(s, id);
    Attr {
        ino: id,
        size: n.size,
        blocks: n.blocks,
        time_secs: 0,
        kind: file_type_of(n.kind),
        perm: n.perm,
        nlink: 1,
        uid: n.uid,
        gid: n.gid,
        rdev: 0,
        flags: 0,
        blksize: 512,
    }
}

/// `get-attributes`: the record of an existing node, else "no such entry".
pub open spec fn getattr_spec(s: Seq<NodeInfo>, id: u64) -> Result<Attr, FsError> {
    if valid_id(s, id) { Ok(attr_of(s, id)) } else { Err(FsError::NotFound) }
}

/// `open-file`: only a regular file opens.
pub open spec fn open_spec(s: Seq<NodeInfo>, id: u64) -> Result<u64, FsError> {
    if !valid_id(s, id) {
        Err(FsError::NotFound)
    } else if node(s, id).kind == NodeKind::File {
        Ok(0)
    } else if node(s, id).kind == NodeKind::Dir {
        Err(FsError::IsADirectory)
    } else {
        Err(FsError::NotFound)
    }
}

/// `open-directory`: only a directory opens, and its handle is its identifier.
pub open spec fn opendir_spec(s: Seq<NodeInfo>, id: u64) -> Result<u64, FsError> {
    if !valid_id(s, id) {
        Err(FsError::NotFound)
    } else if node(s, id).kind == NodeKind::Dir {
        Ok(id)
    } else {
        Err(FsError::NotADirectory)
    }
}

/// The bytes of `data` in `[offset, offset + size)`, clipped to its end.
pub open spec fn clip(data: Seq<u8>, offset: int, size: int) -> Seq<u8> {
    if offset >= data.len() {
        Seq::empty()
    } else if offset + size >= data.len() {
        data.subrange(offset, data.len() as int)
    } else {
        data.subrange(offset, offset + size)
    }
}

/// Position in `cs` of the first identifier named `name`, or `cs.len()`.
pub open spec fn first_named(s: Seq<NodeInfo>, cs: Seq<u64>, name: Seq<u8>, i: int) -> int
    decreases cs.len() - i,
{
    if i < 0 || i >= cs.len() {
        cs.len() as int
    } else if name_of(s, cs[i]) == name {
        i
    } else {
        first_named(s, cs, name, i + 1)
    }
}

/// `resolve-child`: the first child of directory `p` named exactly `name`, with its attributes.
pub open spec fn lookup_spec(s: Seq<NodeInfo>, p: u64, name: Seq<u8>) -> Result<(u64, Attr), FsError> {
    let cs = children(s, p);
    let i = first_named(s, cs, name, 0);
    if !is_dir(s, p) || i >= cs.len() {
        Err(FsError::NotFound)
    } else {
        Ok((cs[i], attr_of(s, cs[i])))
    }
}

/// `v` is the listing of `d` from position `k` on, each entry carrying its successor's position.
pub open spec fn listing_page(s: Seq<NodeInfo>, d: u64, k: int, v: Seq<DirEntry>) -> bool {
    &&& v.len() == listing_from(s, d, k).len()
    &&& forall|i: int| 0 <= i < v.len() ==> entry_view(#[trigger] v[i]) == listing_from(s, d, k)[i]
    &&& forall|i: int| 0 <= i < v.len() ==> (#[trigger] v[i]).offset == k + i + 1
}

impl View for SquashfsFilesystem {
    type V = Seq<NodeInfo>;

    closed spec fn view(&self) -> Seq<NodeInfo> {
        self.nodes@
    }
}

proof fn lemma_children_upto_valid(s: Seq<NodeInfo>, d: u64, n: int)
    requires
        n <= s.len(),
    ensures
        n >= 0 ==> children_upto(s, d, n).len() <= n,
        forall|i: int| 0 <= i < children_upto(s, d, n).len() ==> is_child(s, d, #[trigger] children_upto(s, d, n)[i]),
    decreases n,
{
    if n > 0 {
        lemma_children_upto_valid(s, d, n - 1);
        let prev = children_upto(s, d, n - 1);
        if is_child(s, d, n as u64) {
            let cur = prev.push(n as u64);
            assert forall|i: int| 0 <= i < cur.len() implies is_child(s, d, #[trigger] cur[i]) by {
                if i < prev.len() {
                    assert(cur[i] == prev[i]);
                }
            }
        }
    }
}

/// Every listed child of `d` is a child of `d`, and there are no more of them than nodes.
pub proof fn lemma_children_valid(s: Seq<NodeInfo>, d: u64)
    ensures
        children(s, d).len() <= s.len(),
        forall|i: int| 0 <= i < children(s, d).len() ==> is_child(s, d, #[trigger] children(s, d)[i]),
{
    lemma_children_upto_valid(s, d, s.len() as int);
}

impl SquashfsFilesystem {
    /// The cached names and parent links agree with the node paths, and every
    /// identifier and listing position fits the machine's integers.
    pub closed spec fn wf(&self) -> bool {
        &&& self.nodes@.len() + 2 < u64::MAX
        &&& self.nodes@.len() + 2 <= usize::MAX
        &&& self.names@.len() == self.nodes@.len()
        &&& self.parents@.len() == self.nodes@.len()
        &&& forall|i: int| 0 <= i < self.nodes@.len() ==>
            (#[trigger] self.names@[i])@ == name_of(self.nodes@, (i + 1) as u64)
        &&& forall|i: int| 0 <= i < self.nodes@.len() ==>
            #[trigger] self.parents@[i] == parent_of(self.nodes@, (i + 1) as u64)
    }
}

/// Identifier of the first node whose path is `t`, or 0 if none has it.
fn find_path(nodes: &Vec<NodeInfo>, t: &Vec<u8>) -> (r: u64)
    requires
        nodes@.len() < u64::MAX,
    ensures
        r == first_with_path(nodes@, t@, 0),
{
    let mut j: usize = 0;
    while j < nodes.len()
        invariant
            j <= nodes@.len() < u64::MAX,
            first_with_path(nodes@, t@, 0) == first_with_path(nodes@, t@, j as int),
        decreases nodes@.len() - j,
    {
        if bytes_eq(&nodes[j].path, t) {
            return (j + 1) as u64;
        }
        j = j + 1;
    }
    0
}

/// The result of `open-file` on `ino`, by its kind alone.
fn open_result(kind: NodeKind) -> (r: Result<u64, FsError>)
    ensures
        kind == NodeKind::File ==> r == Ok::<u64, FsError>(0),
        kind == NodeKind::Dir ==> r == Err::<u64, FsError>(FsError::IsADirectory),
        kind != NodeKind::File && kind != NodeKind::Dir ==> r == Err::<u64, FsError>(FsError::NotFound),
{
    match kind {
        NodeKind::File => Ok(0),
        NodeKind::Dir => Err(FsError::IsADirectory),
        _ => Err(FsError::NotFound),
    }
}

impl SquashfsFilesystem {
    /// Builds the adapter over an archive index given in the archive's node order.
    pub fn new(nodes: Vec<NodeInfo>) -> (r: Self)
        requires
            nodes@.len() + 2 < u64::MAX,
            nodes@.len() + 2 <= usize::MAX,
        ensures
            r.wf(),
            r@ == nodes@,
    {
        let mut names: Vec<Vec<u8>> = Vec::new();
        let mut parents: Vec<u64> = Vec::new();
        let mut i: usize = 0;
        while i < nodes.len()
            invariant
                nodes@.len() + 2 < u64::MAX,
                i <= nodes@.len(),
                names@.len() == i,
                parents@.len() == i,
                forall|k: int| 0 <= k < i ==> (#[trigger] names@[k])@ == name_of(nodes@, (k + 1) as u64),
                forall|k: int| 0 <= k < i ==> #[trigger] parents@[k] == parent_of(nodes@, (k + 1) as u64),
            decreases nodes@.len() - i,
        {
            let (dir, name) = split_path(&nodes[i].path);
            let p = find_path(&nodes, &dir);
            names.push(name);
            parents.push(p);
            i = i + 1;
        }
        SquashfsFilesystem { nodes, names, parents }
    }

    /// Number of nodes in the index.
    pub fn node_count(&self) -> (r: usize)
        requires
            self.wf(),
        ensures
            r == self@.len(),
    {
        self.nodes.len()
    }

    /// Position in the index of the node with identifier `ino`, if it exists.
    fn node_from_ino(&self, ino: u64) -> (r: Option<usize>)
        requires
            self.wf(),
        ensures
            match r {
                Some(i) => valid_id(self@, ino) && i == ino - 1,
                None => !valid_id(self@, ino),
            },
    {
        if ino >= 1 && ino <= self.nodes.len() as u64 {
            Some((ino - 1) as usize)
        } else {
            None
        }
    }

    /// The attribute record of the node at position `i`.
    fn attr_at(&self, i: usize) -> (r: Attr)
        requires
            self.wf(),
            i < self@.len(),
        ensures
            r == attr_of(self@, (i + 1) as u64),
    {
        let n = &self.nodes[i];
        Attr {
            ino: i as u64 + 1,
            size: n.size,
            blocks: n.blocks,
            time_secs: 0,
            kind: inner_to_fs_type(n.kind),
            perm: n.perm,
            nlink: 1,
            uid: n.uid,
            gid: n.gid,
            rdev: 0,
            flags: 0,
            blksize: BLOCK_SIZE,
        }
    }

    /// The attribute record of `ino`; "no such entry" if it does not exist.
    pub fn getattr(&self, ino: u64) -> (r: Result<Attr, FsError>)
        requires
            self.wf(),
        ensures
            r == getattr_spec(self@, ino),
    {
        match self.node_from_ino(ino) {
            Some(i) => Ok(self.attr_at(i)),
            None => Err(FsError::NotFound),
        }
    }

    /// Opens a regular file; the handle carries no state.
    pub fn open(&self, ino: u64) -> (r: Result<u64, FsError>)
        requires
            self.wf(),
        ensures
            r == open_spec(self@, ino),
    {
        match self.node_from_ino(ino) {
            Some(i) => open_result(self.nodes[i].kind),
            None => Err(FsError::NotFound),
        }
    }

    /// Opens a directory; the handle is the identifier itself.
    pub fn opendir(&self, ino: u64) -> (r: Result<u64, FsError>)
        requires
            self.wf(),
        ensures
            r == opendir_spec(self@, ino),
    {
        match self.node_from_ino(ino) {
            Some(i) => {
                if self.nodes[i].kind == NodeKind::Dir {
                    Ok(ino)
                } else {
                    Err(FsError::NotADirectory)
                }
            },
            None => Err(FsError::NotFound),
        }
    }
}

/// The bytes of `data` in `[offset, offset + size)`, clipped to its end.
pub fn read_range(data: &Vec<u8>, offset: u64, size: u32) -> (r: Vec<u8>)
    ensures
        r@ == clip(data@, offset as int, size as int),
{
    let n: usize = data.len();
    if offset >= n as u64 {
        return Vec::new();
    }
    let lo: usize = offset as usize;
    let avail: usize = n - lo;
    let hi: usize = if (size as u64) >= (avail as u64) { n } else { lo + size as usize };
    crate::path::copy_range(data, lo, hi)
}

impl SquashfsFilesystem {
    /// The children of directory `d`, in stored order.
    fn children_ids(&self, d: u64) -> (r: Vec<u64>)
        requires
            self.wf(),
        ensures
            r@ == children(self@, d),
    {
        let mut r: Vec<u64> = Vec::new();
        let mut i: usize = 0;
        while i < self.nodes.len()
            invariant
                self.wf(),
                i <= self@.len(),
                r@ == children_upto(self@, d, i as int),
            decreases self@.len() - i,
        {
            let id: u64 = i as u64 + 1;
            if id != d && self.parents[i] == d {
                r.push(id);
            }
            i = i + 1;
        }
        r
    }

    /// Entry `pos` of the listing of `d`, given its children and its `..`.
    fn entry_at(&self, d: u64, cs: &Vec<u64>, pos: usize, parent: u64) -> (r: DirEntry)
        requires
            self.wf(),
            is_dir(self@, d),
            cs@ == children(self@, d),
            parent == dotdot(self@, d),
            pos < cs@.len() + 2,
        ensures
            entry_view(r) == listing(self@, d)[pos as int],
            r.offset == pos + 1,
    {
        let ghost l = listing(self@, d);
        if pos == 0 {
            let r = DirEntry { ino: d, offset: 1, kind: FileType::Directory, name: vec![DOT] };
            assert(entry_view(r) =~= l[0]);
            r
        } else if pos == 1 {
            let r = DirEntry { ino: parent, offset: 2, kind: FileType::Directory, name: vec![DOT, DOT] };
            assert(entry_view(r) =~= l[1]);
            r
        } else {
            proof { lemma_children_valid(self@, d); }
            let k = cs[pos - 2];
            assert(is_child(self@, d, cs@[pos - 2]));
            let i: usize = (k - 1) as usize;
            let name = crate::path::copy_range(&self.names[i], 0, self.names[i].len());
            assert(self.names@[i as int]@ == name_of(self@, k));
            assert(name@ =~= self.names@[i as int]@);
            let r = DirEntry { ino: k, offset: pos as u64 + 1, kind: inner_to_fs_type(self.nodes[i].kind), name };
            assert(l[pos as int] == child_entry(self@, cs@[pos - 2]));
            assert(entry_view(r) =~= l[pos as int]);
            r
        }
    }

    /// Lists directory `ino` from position `offset` of `.`, `..`, then its children.
    pub fn readdir(&self, ino: u64, offset: u64) -> (r: Result<Vec<DirEntry>, FsError>)
        requires
            self.wf(),
        ensures
            !valid_id(self@, ino) ==> r == Err::<Vec<DirEntry>, FsError>(FsError::NotFound),
            valid_id(self@, ino) && !is_dir(self@, ino) ==> r == Err::<Vec<DirEntry>, FsError>(FsError::NotADirectory),
            is_dir(self@, ino) ==> r is Ok && listing_page(self@, ino, offset as int, r->Ok_0@),
    {
        let i = match self.node_from_ino(ino) {
            Some(i) => i,
            None => { return Err(FsError::NotFound); },
        };
        if self.nodes[i].kind != NodeKind::Dir {
            return Err(FsError::NotADirectory);
        }
        let cs = self.children_ids(ino);
        proof { lemma_children_valid(self@, ino); }
        let parent: u64 = if self.parents[i] == 0 { ino } else { self.parents[i] };
        let ghost l = listing(self@, ino);
        assert(l.len() == cs@.len() + 2);
        let total: usize = cs.len() + 2;
        let mut v: Vec<DirEntry> = Vec::new();
        if offset >= total as u64 {
            assert(listing_from(self@, ino, offset as int).len() == 0);
            return Ok(v);
        }
        let mut pos: usize = offset as usize;
        while pos < total
            invariant
                self.wf(),
                is_dir(self@, ino),
                cs@ == children(self@, ino),
                parent == dotdot(self@, ino),
                l == listing(self@, ino),
                total == l.len(),
                offset <= pos <= total,
                v@.len() == pos - offset,
                forall|j: int| 0 <= j < v@.len() ==> entry_view(#[trigger] v@[j]) == l[offset + j],
                forall|j: int| 0 <= j < v@.len() ==> (#[trigger] v@[j]).offset == offset + j + 1,
            decreases total - pos,
        {
            let e = self.entry_at(ino, &cs, pos, parent);
            v.push(e);
            pos = pos + 1;
        }
        Ok(v)
    }

    /// Resolves `name` among the children of directory `parent`.
    pub fn lookup(&self, parent: u64, name: &Vec<u8>) -> (r: Result<(u64, Attr), FsError>)
        requires
            self.wf(),
        ensures
            r == lookup_spec(self@, parent, name@),
    {
        match self.node_from_ino(parent) {
            Some(i) => {
                if self.nodes[i].kind != NodeKind::Dir {
                    return Err(FsError::NotFound);
                }
            },
            None => { return Err(FsError::NotFound); },
        }
        let cs = self.children_ids(parent);
        proof { lemma_children_valid(self@, parent); }
        let mut j: usize = 0;
        while j < cs.len()
            invariant
                self.wf(),
                is_dir(self@, parent),
                cs@ == children(self@, parent),
                j <= cs@.len(),
                forall|q: int| 0 <= q < cs@.len() ==> is_child(self@, parent, #[trigger] cs@[q]),
                first_named(self@, cs@, name@, 0) == first_named(self@, cs@, name@, j as int),
            decreases cs@.len() - j,
        {
            let k = cs[j];
            assert(is_child(self@, parent, cs@[j as int]));
            let idx: usize = (k - 1) as usize;
            assert(self.names@[idx as int]@ == name_of(self@, k));
            if bytes_eq(&self.names[idx], name) {
                return Ok((k, self.attr_at(idx)));
            }
            j = j + 1;
        }
        Err(FsError::NotFound)
    }

    /// Reads `size` bytes at `offset` of file `ino`, given the outcome of decoding
    /// its content (`None` where decoding failed).
    pub fn read(&self, ino: u64, offset: u64, size: u32, decoded: &Option<Vec<u8>>) -> (r: Result<Vec<u8>, FsError>)
        requires
            self.wf(),
        ensures
            open_spec(self@, ino) is Err ==> r is Err && r->Err_0 == open_spec(self@, ino)->Err_0,
            open_spec(self@, ino) is Ok && decoded is None ==> r is Err && r->Err_0 == FsError::Io,
            open_spec(self@, ino) is Ok && decoded is Some ==> r is Ok
                && r->Ok_0@ == clip(decoded->0@, offset as int, size as int),
    {
        match self.open(ino) {
            Err(e) => Err(e),
            Ok(_) => match decoded {
                Some(data) => Ok(read_range(data, offset, size)),
                None => Err(FsError::Io),
            },
        }
    }
}

} // verus!
