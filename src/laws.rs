//! Properties that relate the adapter's operations, stated over their models.
use vstd::prelude::*;
use crate::kind::{NodeKind, FileType};
use crate::fs::{
    NodeInfo, Attr, FsError, SquashfsFilesystem, DOT, valid_id, node, is_dir, is_child, children,
    child_entry, listing, listing_from, clip, first_named, lookup_spec, name_of, attr_of,
    getattr_spec, open_spec, opendir_spec, lemma_children_valid,
};

verus! {

/// Listing a directory from position 0 yields `.`, `..`, then each child in
/// stored order; from position `k` it yields the suffix of that sequence that
/// starts at `k`, and past its end it yields nothing.
pub proof fn lemma_listing_shape(s: Seq<NodeInfo>, d: u64, k: int)
    requires
        is_dir(s, d),
        0 <= k,
    ensures
        listing_from(s, d, 0) == listing(s, d),
        listing(s, d).len() == children(s, d).len() + 2,
        listing(s, d)[0] == (d, FileType::Directory, seq![DOT]),
        listing(s, d)[1].1 == FileType::Directory,
        listing(s, d)[1].2 == seq![DOT, DOT],
        forall|i: int| 0 <= i < children(s, d).len() ==>
            listing(s, d)[i + 2] == child_entry(s, #[trigger] children(s, d)[i]),
        k <= listing(s, d).len() ==> listing_from(s, d, k) == listing(s, d).subrange(k, listing(s, d).len() as int),
        k > listing(s, d).len() ==> listing_from(s, d, k).len() == 0,
{
    let l = listing(s, d);
    assert(l.subrange(0, l.len() as int) =~= l);
    if k == l.len() {
        assert(l.subrange(k, l.len() as int) =~= Seq::<(u64, FileType, Seq<u8>)>::empty());
    }
}

/// A read returns exactly `min(size, max(0, L - offset))` bytes of content of
/// length `L`, and they are that slice of the content; past the end it
/// returns nothing.
pub proof fn lemma_read_length(data: Seq<u8>, offset: int, size: int)
    requires
        0 <= offset,
        0 <= size,
    ensures
        offset <= data.len() ==> clip(data, offset, size).len() == (if size < data.len() - offset { size } else { data.len() - offset }),
        offset <= data.len() ==> clip(data, offset, size) == data.subrange(offset, offset + clip(data, offset, size).len()),
        offset > data.len() ==> clip(data, offset, size).len() == 0,
{
    if offset == data.len() {
        assert(data.subrange(offset, offset) =~= Seq::<u8>::empty());
    }
}

proof fn lemma_first_named(s: Seq<NodeInfo>, cs: Seq<u64>, name: Seq<u8>, i: int)
    requires
        0 <= i <= cs.len(),
    ensures
        i <= first_named(s, cs, name, i) <= cs.len(),
        first_named(s, cs, name, i) < cs.len() ==> name_of(s, cs[first_named(s, cs, name, i)]) == name,
        first_named(s, cs, name, i) < cs.len()
            <==> exists|j: int| i <= j < cs.len() && name_of(s, #[trigger] cs[j]) == name,
    decreases cs.len() - i,
{
    if i < cs.len() && name_of(s, cs[i]) != name {
        lemma_first_named(s, cs, name, i + 1);
        if exists|j: int| i <= j < cs.len() && name_of(s, #[trigger] cs[j]) == name {
            let j = choose|j: int| i <= j < cs.len() && name_of(s, #[trigger] cs[j]) == name;
            assert(j != i);
        }
    }
}

/// Resolving `name` under `p` succeeds exactly when `p` is a directory and
/// `name` is verbatim the name of one of its children; the identifier found is
/// such a child and comes with that child's attributes.
pub proof fn lemma_lookup_iff(s: Seq<NodeInfo>, p: u64, name: Seq<u8>)
    ensures
        lookup_spec(s, p, name) is Ok <==> (is_dir(s, p)
            && exists|i: int| 0 <= i < children(s, p).len() && name_of(s, #[trigger] children(s, p)[i]) == name),
        lookup_spec(s, p, name) is Err ==> lookup_spec(s, p, name) == Err::<(u64, Attr), FsError>(FsError::NotFound),
        lookup_spec(s, p, name) is Ok ==> ({
            let (k, a) = lookup_spec(s, p, name)->Ok_0;
            is_child(s, p, k) && name_of(s, k) == name && a == attr_of(s, k)
        }),
{
    lemma_first_named(s, children(s, p), name, 0);
    lemma_children_valid(s, p);
}

/// Resolving the same name twice under the same directory gives the same identifier.
pub proof fn lemma_lookup_repeatable(fs: &SquashfsFilesystem, p: u64, name: Seq<u8>, r1: Result<(u64, Attr), FsError>, r2: Result<(u64, Attr), FsError>)
    requires
        r1 == lookup_spec(fs@, p, name),
        r2 == lookup_spec(fs@, p, name),
    ensures
        r1 is Ok ==> r2 is Ok && r1->Ok_0.0 == r2->Ok_0.0,
{
}

/// The attributes of an identifier are a function of the index alone: two
/// queries of one identifier give identical records, and the record of an
/// existing node carries that identifier, a link count of one and the epoch.
pub proof fn lemma_getattr_stable(fs: &SquashfsFilesystem, id: u64, r1: Result<Attr, FsError>, r2: Result<Attr, FsError>)
    requires
        r1 == getattr_spec(fs@, id),
        r2 == getattr_spec(fs@, id),
    ensures
        r1 == r2,
        r1 is Ok <==> valid_id(fs@, id),
        r1 is Ok ==> r1->Ok_0.ino == id && r1->Ok_0.nlink == 1 && r1->Ok_0.time_secs == 0,
{
}

/// Opening a directory as a file fails with "is a directory"; opening a file
/// as a directory fails with "not a directory".
pub proof fn lemma_open_kind_mismatch(s: Seq<NodeInfo>, id: u64)
    ensures
        is_dir(s, id) ==> open_spec(s, id) == Err::<u64, FsError>(FsError::IsADirectory),
        valid_id(s, id) && node(s, id).kind == NodeKind::File ==> opendir_spec(s, id) == Err::<u64, FsError>(FsError::NotADirectory),
{
}

} // verus!
