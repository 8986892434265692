//! The plan of a copy: identity short-circuits, and large files move in
//! chunks to bound peak memory.
use vstd::prelude::*;

use crate::path::{virtualize, virtualize_spec, VirtualPath};

verus! {

/// Files up to this size are copied in one piece.
pub const COPY_THRESHOLD: u64 = 10485760;

/// The size of one piece of a larger copy.
pub const COPY_CHUNK: u64 = 2097152;

/// Whether `from` and `to` name the same entry, which makes the copy a
/// no-op: paths are compared after virtualization.
pub fn copy_is_noop(cwd: &VirtualPath, from: &str, to: &str) -> (r: bool)
    ensures
        r == (virtualize_spec(cwd@, from@) == virtualize_spec(cwd@, to@)),
{
    let a = virtualize(cwd, from);
    let b = virtualize(cwd, to);
    a.same_as(&b)
}

/// `pieces` cover the bytes `0..len` in order, each an offset and a length.
pub open spec fn tiles(pieces: Seq<(u64, u64)>, len: u64) -> bool {
    &&& pieces.len() > 0 ==> pieces[0].0 == 0
    &&& forall|i: int|
        0 <= i < pieces.len() - 1 ==> #[trigger] pieces[i + 1].0 == pieces[i].0 + pieces[i].1
    &&& pieces.len() > 0 ==> pieces.last().0 + pieces.last().1 == len
    &&& pieces.len() == 0 ==> len == 0
}

/// The pieces in which a file of `len` bytes is copied: one piece up to
/// `COPY_THRESHOLD`, otherwise pieces of `COPY_CHUNK` bytes and a last,
/// possibly shorter, one.
pub fn copy_chunks(len: u64) -> (r: Vec<(u64, u64)>)
    ensures
        tiles(r@, len),
        len <= COPY_THRESHOLD ==> r@ == seq![(0u64, len)],
        len > COPY_THRESHOLD ==> forall|i: int|
            0 <= i < r@.len() ==> 0 < (#[trigger] r@[i]).1 <= COPY_CHUNK && (i < r@.len() - 1
                ==> r@[i].1 == COPY_CHUNK),
{
    let mut r: Vec<(u64, u64)> = Vec::new();
    if len <= COPY_THRESHOLD {
        r.push((0, len));
        return r;
    }
    let mut off: u64 = 0;
    while off < len
        invariant
            off <= len,
            len > COPY_THRESHOLD,
            r@.len() > 0 ==> r@[0].0 == 0,
            r@.len() > 0 ==> r@.last().0 + r@.last().1 == off,
            r@.len() == 0 ==> off == 0,
            forall|i: int| 0 <= i < r@.len() - 1 ==> #[trigger] r@[i + 1].0 == r@[i].0 + r@[i].1,
            forall|i: int|
                0 <= i < r@.len() ==> 0 < (#[trigger] r@[i]).1 <= COPY_CHUNK && (i < r@.len() - 1
                    ==> r@[i].1 == COPY_CHUNK),
            r@.len() > 0 && off < len ==> r@.last().1 == COPY_CHUNK,
        decreases len - off,
    {
        let n = if len - off < COPY_CHUNK {
            len - off
        } else {
            COPY_CHUNK
        };
        let ghost before = r@;
        r.push((off, n));
        proof {
            assert forall|i: int| 0 <= i < r@.len() - 1 implies #[trigger] r@[i + 1].0 == r@[i].0
                + r@[i].1 by {
                if i + 1 < before.len() {
                    assert(r@[i + 1] == before[i + 1] && r@[i] == before[i]);
                }
            }
        }
        off = off + n;
    }
    r
}

/// The bytes of `content` that the pieces select, in order.
pub open spec fn gather(content: Seq<u8>, pieces: Seq<(u64, u64)>) -> Seq<u8>
    decreases pieces.len(),
{
    if pieces.len() == 0 {
        Seq::empty()
    } else {
        gather(content, pieces.drop_last()) + content.subrange(
            pieces.last().0 as int,
            pieces.last().0 + pieces.last().1,
        )
    }
}

/// Contiguous pieces from 0 select the prefix they cover.
proof fn lemma_gather_prefix(content: Seq<u8>, pieces: Seq<(u64, u64)>)
    requires
        pieces.len() > 0,
        pieces[0].0 == 0,
        forall|i: int|
            0 <= i < pieces.len() - 1 ==> #[trigger] pieces[i + 1].0 == pieces[i].0 + pieces[i].1,
        pieces.last().0 + pieces.last().1 <= content.len(),
    ensures
        gather(content, pieces) == content.subrange(0, pieces.last().0 + pieces.last().1),
    decreases pieces.len(),
{
    let init = pieces.drop_last();
    let last = pieces.last();
    if init.len() == 0 {
        assert(gather(content, init) == Seq::<u8>::empty());
        assert(last == pieces[0]);
        assert(Seq::<u8>::empty() + content.subrange(0, last.0 + last.1) =~= content.subrange(
            0,
            last.0 + last.1,
        ));
    } else {
        assert forall|i: int| 0 <= i < init.len() - 1 implies #[trigger] init[i + 1].0 == init[i].0
            + init[i].1 by {
            assert(init[i + 1] == pieces[i + 1] && init[i] == pieces[i]);
        }
        assert(init.last() == pieces[pieces.len() - 2]);
        let k = pieces.len() - 2;
        assert(pieces[k + 1].0 == pieces[k].0 + pieces[k].1);
        assert(pieces[k + 1] == last);
        assert(init[0] == pieces[0]);
        lemma_gather_prefix(content, init);
        let mid = init.last().0 + init.last().1;
        assert(content.subrange(0, mid) + content.subrange(mid, last.0 + last.1)
            =~= content.subrange(0, last.0 + last.1));
    }
}

/// Copying a file piece by piece, in the order `copy_chunks` gives, moves
/// every byte of the source once and in order: the pieces put together are
/// the source.
pub proof fn lemma_copy_pieces_preserve(content: Seq<u8>, pieces: Seq<(u64, u64)>)
    requires
        tiles(pieces, content.len() as u64),
        content.len() <= u64::MAX,
    ensures
        gather(content, pieces) == content,
{
    if pieces.len() == 0 {
        assert(content =~= Seq::<u8>::empty());
    } else {
        lemma_gather_prefix(content, pieces);
        assert(content.subrange(0, content.len() as int) =~= content);
    }
}

} // verus!
