use vstd::prelude::*;

verus! {

/// The byte that separates path components.
pub const SLASH: u8 = 47;

/// Index of the last separator in `p`, or -1 when there is none.
pub open spec fn last_slash(p: Seq<u8>) -> int
    decreases p.len(),
{
    if p.len() == 0 {
        -1
    } else if p.last() == SLASH {
        p.len() - 1
    } else {
        last_slash(p.drop_last())
    }
}

/// The last component of a path: what follows its last separator.
pub open spec fn base_name(p: Seq<u8>) -> Seq<u8> {
    p.subrange(last_slash(p) + 1, p.len() as int)
}

/// The directory part of a path; the root's directory is the root itself.
pub open spec fn dir_name(p: Seq<u8>) -> Seq<u8> {
    if last_slash(p) <= 0 {
        seq![SLASH]
    } else {
        p.subrange(0, last_slash(p))
    }
}

/// The last separator lies inside the path.
pub proof fn lemma_last_slash_bounds(p: Seq<u8>)
    ensures
        -1 <= last_slash(p) < p.len(),
        last_slash(p) >= 0 ==> p[last_slash(p)] == SLASH,
    decreases p.len(),
{
    if p.len() > 0 && p.last() != SLASH {
        lemma_last_slash_bounds(p.drop_last());
    }
}

/// Position of the last separator of `p`, if any.
pub fn find_last_slash(p: &Vec<u8>) -> (r: Option<usize>)
    ensures
        match r {
            Some(i) => last_slash(p@) == i as int,
            None => last_slash(p@) == -1,
        },
{
    let mut i: usize = p.len();
    assert(p@.subrange(0, i as int) =~= p@);
    while i > 0
        invariant
            i <= p@.len(),
            last_slash(p@) == last_slash(p@.subrange(0, i as int)),
        decreases i,
    {
        let ghost q = p@.subrange(0, i as int);
        if p[i - 1] == SLASH {
            assert(q.last() == SLASH);
            return Some(i - 1);
        }
        assert(q.drop_last() =~= p@.subrange(0, i - 1));
        i = i - 1;
    }
    assert(p@.subrange(0, 0).len() == 0);
    None
}

/// Copies `v[lo..hi]` into a new vector.
pub fn copy_range(v: &Vec<u8>, lo: usize, hi: usize) -> (r: Vec<u8>)
    requires
        lo <= hi <= v@.len(),
    ensures
        r@ == v@.subrange(lo as int, hi as int),
{
    let mut r: Vec<u8> = Vec::new();
    let mut i: usize = lo;
    while i < hi
        invariant
            lo <= i <= hi <= v@.len(),
            r@ == v@.subrange(lo as int, i as int),
        decreases hi - i,
    {
        r.push(v[i]);
        assert(r@ =~= v@.subrange(lo as int, i + 1));
        i = i + 1;
    }
    r
}

/// Byte-exact comparison of two byte strings.
pub fn bytes_eq(a: &Vec<u8>, b: &Vec<u8>) -> (r: bool)
    ensures
        r == (a@ == b@),
{
    if a.len() != b.len() {
        return false;
    }
    let mut i: usize = 0;
    while i < a.len()
        invariant
            a@.len() == b@.len(),
            i <= a@.len(),
            forall|k: int| 0 <= k < i ==> a@[k] == b@[k],
        decreases a@.len() - i,
    {
        if a[i] != b[i] {
            return false;
        }
        i = i + 1;
    }
    assert(a@ =~= b@);
    true
}

/// Splits a path into its directory part and its last component.
pub fn split_path(p: &Vec<u8>) -> (r: (Vec<u8>, Vec<u8>))
    ensures
        r.0@ == dir_name(p@),
        r.1@ == base_name(p@),
{
    proof { lemma_last_slash_bounds(p@); }
    let n: usize = p.len();
    match find_last_slash(p) {
        Some(i) => {
            let name = copy_range(p, i + 1, n);
            if i == 0 {
                (vec![SLASH], name)
            } else {
                (copy_range(p, 0, i), name)
            }
        },
        None => {
            let name = copy_range(p, 0, p.len());
            (vec![SLASH], name)
        },
    }
}

} // verus!
