//! Paths as byte strings, and the two operations the copier needs of them:
//! taking the file name of a path and joining a path onto a directory.

use vstd::prelude::*;

verus! {

/// What a path names on the filesystem at pre-flight time. `Missing` covers
/// both a path that does not exist and one that is neither a regular file nor
/// a directory.
#[derive(Clone, Copy, PartialEq, Eq, Structural, Debug)]
pub enum PathKind {
    File,
    Dir,
    Missing,
}

/// The path separator.
pub const SEP: u8 = 47;

/// The file name of a path: its longest suffix that contains no separator
/// (empty when the path ends in a separator).
pub open spec fn base_name_spec(p: Seq<u8>) -> Seq<u8>
    decreases p.len(),
{
    if p.len() == 0 {
        Seq::<u8>::empty()
    } else if p.last() == SEP {
        Seq::<u8>::empty()
    } else {
        base_name_spec(p.drop_last()).push(p.last())
    }
}

/// Joining `b` under directory `a`: `a` then a separator then `b`, with no
/// separator doubled and an empty `a` adding none.
pub open spec fn join_spec(a: Seq<u8>, b: Seq<u8>) -> Seq<u8> {
    if a.len() == 0 {
        b
    } else if a.last() == SEP {
        a + b
    } else {
        a + seq![SEP] + b
    }
}

/// `base_name_spec(p)` is the suffix of `p` from any cut `from` that sits
/// right after a separator (or at the start) with no separator beyond it.
pub proof fn lemma_base_name_from(p: Seq<u8>, from: int)
    requires
        0 <= from <= p.len(),
        forall|j: int| from <= j < p.len() ==> p[j] != SEP,
        from > 0 ==> p[from - 1] == SEP,
    ensures
        base_name_spec(p) == p.skip(from),
    decreases p.len(),
{
    if p.len() == 0 {
        assert(base_name_spec(p) =~= p.skip(from));
    } else if from == p.len() {
        assert(p.last() == SEP);
        assert(base_name_spec(p) =~= p.skip(from));
    } else {
        assert(p.last() != SEP);
        lemma_base_name_from(p.drop_last(), from);
        assert(base_name_spec(p) =~= p.drop_last().skip(from).push(p.last()));
        assert(p.drop_last().skip(from).push(p.last()) =~= p.skip(from));
    }
}

/// The file name of `p`: everything after the last separator, computed by one
/// backward scan.
pub fn base_name(p: &Vec<u8>) -> (r: Vec<u8>)
    ensures
        r@ == base_name_spec(p@),
{
    let mut start: usize = p.len();
    while start > 0 && p[start - 1] != SEP
        invariant
            start <= p@.len(),
            forall|j: int| start <= j < p@.len() ==> p@[j] != SEP,
        decreases start,
    {
        start = start - 1;
    }
    proof {
        lemma_base_name_from(p@, start as int);
    }
    let mut r: Vec<u8> = Vec::new();
    let mut i: usize = start;
    while i < p.len()
        invariant
            start <= i <= p@.len(),
            r@ == p@.subrange(start as int, i as int),
        decreases p@.len() - i,
    {
        r.push(p[i]);
        i = i + 1;
    }
    proof {
        assert(p@.subrange(start as int, p@.len() as int) =~= p@.skip(start as int));
    }
    r
}

/// `b` joined under directory `a`, as `join_spec` says.
pub fn join_path(a: &Vec<u8>, b: &Vec<u8>) -> (r: Vec<u8>)
    ensures
        r@ == join_spec(a@, b@),
{
    let mut r: Vec<u8> = Vec::new();
    let mut i: usize = 0;
    while i < a.len()
        invariant
            i <= a@.len(),
            r@ == a@.subrange(0, i as int),
        decreases a@.len() - i,
    {
        r.push(a[i]);
        i = i + 1;
    }
    proof {
        assert(a@.subrange(0, a@.len() as int) =~= a@);
    }
    if a.len() > 0 && r[a.len() - 1] != SEP {
        r.push(SEP);
    }
    let mut j: usize = 0;
    let base: Ghost<Seq<u8>> = Ghost(r@);
    while j < b.len()
        invariant
            j <= b@.len(),
            r@ == base@ + b@.subrange(0, j as int),
        decreases b@.len() - j,
    {
        proof {
            assert(base@ + b@.subrange(0, j as int + 1) =~= (base@ + b@.subrange(
                0,
                j as int,
            )).push(b@[j as int]));
        }
        r.push(b[j]);
        j = j + 1;
    }
    proof {
        assert(b@.subrange(0, b@.len() as int) =~= b@);
        if a@.len() == 0 {
            assert(r@ =~= join_spec(a@, b@));
        } else if a@.last() == SEP {
            assert(r@ =~= join_spec(a@, b@));
        } else {
            assert(r@ =~= join_spec(a@, b@));
        }
    }
    r
}

} // verus!
