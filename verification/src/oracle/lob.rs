//! The large-object copy protocol: one column's content is streamed per
//! row by repeated bounded reads from the source locator and piecewise
//! writes to the destination locator, tagged with piece markers, then the
//! destination is trimmed to the exact copied length.
//!
//! The locator state the engine reasons about — content length, a
//! streaming read position, nullness and the pieces written so far — is
//! modelled here; the shell maps it onto the driver's locator handles.

use vstd::prelude::*;
use crate::oracle::common::OCILobPiece;
use crate::oracle::common::OCITempLobType;

verus! {

/// One large-object locator as the copy protocol sees it: the value's
/// length, how far streaming reads have advanced, whether the column cell
/// is NULL, whether the locator is temporary, and the trace of piece
/// markers written to it.
pub struct LobDescriptor {
    pub length: u32,
    pub read_pos: u32,
    pub null: bool,
    pub temporary: bool,
    pub lob_type: OCITempLobType,
    pub pieces: Vec<OCILobPiece>,
}

impl LobDescriptor {
    /// A fresh locator; destination locators are temporary and start
    /// empty.
    pub fn new(temporary: bool, lobtype: OCITempLobType, null: bool) -> (r: LobDescriptor)
        ensures
            r.length == 0,
            r.read_pos == 0,
            r.null == null,
            r.temporary == temporary,
            r.lob_type == lobtype,
            r.pieces@.len() == 0,
    {
        LobDescriptor {
            length: 0,
            read_pos: 0,
            null,
            temporary,
            lob_type: lobtype,
            pieces: Vec::new(),
        }
    }

    /// A locator known to hold a value of the given length.
    pub fn with_length(length: u32) -> (r: LobDescriptor)
        ensures
            r.length == length,
            r.read_pos == 0,
            !r.null,
            !r.temporary,
            r.pieces@.len() == 0,
    {
        LobDescriptor {
            length,
            read_pos: 0,
            null: false,
            temporary: false,
            lob_type: OCITempLobType::Default,
            pieces: Vec::new(),
        }
    }

    /// The value's length; a locator the driver no longer backs counts as
    /// empty.
    pub fn len(&self) -> (r: u32)
        ensures
            r == self.length,
    {
        self.length
    }

    /// Whether the column cell this locator was fetched for is NULL.
    pub fn is_null(&self) -> (r: bool)
        ensures
            r == self.null,
    {
        self.null
    }

    /// One bounded streaming read into a buffer of `buffer_len` bytes:
    /// hands back whether the value's end was reached and how many bytes
    /// came, advancing the streaming position.
    pub fn read(&mut self, offset: u32, buffer_len: u32) -> (r: (bool, u32))
        requires
            offset == 1,
            buffer_len > 0,
            old(self).read_pos <= old(self).length,
        ensures
            final(self).length == old(self).length,
            final(self).null == old(self).null,
            final(self).temporary == old(self).temporary,
            final(self).lob_type == old(self).lob_type,
            final(self).pieces == old(self).pieces,
            r.1 == (if old(self).length - old(self).read_pos < buffer_len {
                (old(self).length - old(self).read_pos) as u32
            } else {
                buffer_len
            }),
            final(self).read_pos == old(self).read_pos + r.1,
            r.0 == (final(self).read_pos == old(self).length),
    {
        let remaining = self.length - self.read_pos;
        let nread: u32 = if remaining < buffer_len {
            remaining
        } else {
            buffer_len
        };
        self.read_pos = self.read_pos + nread;
        (self.read_pos == self.length, nread)
    }

    /// One piecewise write of `write_len` bytes tagged with its piece
    /// marker, appended to the value.
    pub fn write(&mut self, write_len: u32, piece: OCILobPiece, offset: u32, buffer_len: u32)
        requires
            offset == 1,
            old(self).length + write_len <= u32::MAX,
        ensures
            final(self).length == old(self).length + write_len,
            final(self).read_pos == old(self).read_pos,
            final(self).null == old(self).null,
            final(self).temporary == old(self).temporary,
            final(self).lob_type == old(self).lob_type,
            final(self).pieces@ == old(self).pieces@.push(piece),
    {
        self.length = self.length + write_len;
        self.pieces.push(piece);
    }

    /// Trims the value to exactly the given length.
    pub fn trim(&mut self, total_lob_len: u32)
        requires
            total_lob_len <= old(self).length,
        ensures
            final(self).length == total_lob_len,
            final(self).read_pos == old(self).read_pos,
            final(self).null == old(self).null,
            final(self).temporary == old(self).temporary,
            final(self).lob_type == old(self).lob_type,
            final(self).pieces == old(self).pieces,
    {
        self.length = total_lob_len;
    }
}

/// The piece marker one chunked write carries, decided by whether its
/// chunk is the first of the value and whether it is the last: the only
/// piece, the first, a middle piece, or the last.
pub fn piece_for(first: bool, last: bool) -> (p: OCILobPiece)
    ensures
        p == (if last {
            if first {
                OCILobPiece::OnePiece
            } else {
                OCILobPiece::LastPiece
            }
        } else {
            if first {
                OCILobPiece::FirstPiece
            } else {
                OCILobPiece::NextPiece
            }
        }),
{
    if last {
        if first {
            OCILobPiece::OnePiece
        } else {
            OCILobPiece::LastPiece
        }
    } else {
        if first {
            OCILobPiece::FirstPiece
        } else {
            OCILobPiece::NextPiece
        }
    }
}

/// Whether a write status is part of normal streaming: the need-data
/// status is expected after a first or middle piece; after the only or
/// the last piece, and for any other status, the write failed.
pub fn lob_write_tolerated(code: i64, piece: OCILobPiece) -> (r: bool)
    ensures
        r == (code == 99 && (piece == OCILobPiece::FirstPiece || piece
            == OCILobPiece::NextPiece)),
{
    code == 99 && (piece == OCILobPiece::FirstPiece || piece == OCILobPiece::NextPiece)
}

/// The piece markers a copy of `remaining` bytes in chunks of `chunk`
/// bytes writes: a single chunk is one piece, otherwise a first piece,
/// middle pieces, and a last piece.
pub open spec fn copy_pieces(remaining: int, chunk: int, first: bool) -> Seq<OCILobPiece>
    decreases remaining,
{
    if remaining <= 0 || chunk <= 0 {
        Seq::empty()
    } else if remaining <= chunk {
        seq![
            if first {
                OCILobPiece::OnePiece
            } else {
                OCILobPiece::LastPiece
            },
        ]
    } else {
        seq![
            if first {
                OCILobPiece::FirstPiece
            } else {
                OCILobPiece::NextPiece
            },
        ] + copy_pieces(remaining - chunk, chunk, false)
    }
}

/// Copies one value between locators by repeated bounded reads and
/// piecewise writes, then trims the destination to the copied length:
/// the destination ends holding exactly as many bytes as the source, its
/// writes tagged as the protocol demands.
pub fn lob_copy(src: &mut LobDescriptor, dst: &mut LobDescriptor, buffer_len: u32) -> (r: u32)
    requires
        buffer_len > 0,
        old(src).read_pos == 0,
        old(dst).length == 0,
        old(src).length < u32::MAX,
        old(dst).pieces@.len() == 0,
    ensures
        r == old(src).length,
        final(src).length == old(src).length,
        final(src).null == old(src).null,
        final(src).temporary == old(src).temporary,
        final(src).lob_type == old(src).lob_type,
        final(dst).length == old(src).length,
        final(dst).null == old(dst).null,
        final(dst).temporary == old(dst).temporary,
        final(dst).lob_type == old(dst).lob_type,
        final(dst).pieces@ == copy_pieces(old(src).length as int, buffer_len as int, true),
{
    let mut total_lob_len: u32 = 0;
    let mut is_first = true;
    let offset: u32 = 1;
    loop
        invariant_except_break
            buffer_len > 0,
            offset == 1,
            src.length == old(src).length,
            src.length < u32::MAX,
            src.read_pos <= src.length,
            total_lob_len == src.read_pos,
            dst.length == total_lob_len,
            is_first == (src.read_pos == 0),
            dst.pieces@ + copy_pieces(
                src.length - src.read_pos,
                buffer_len as int,
                is_first,
            ) == copy_pieces(old(src).length as int, buffer_len as int, true),
            src.null == old(src).null,
            src.temporary == old(src).temporary,
            src.lob_type == old(src).lob_type,
            src.pieces == old(src).pieces,
            dst.null == old(dst).null,
            dst.temporary == old(dst).temporary,
            dst.lob_type == old(dst).lob_type,
            dst.read_pos == old(dst).read_pos,
        ensures
            src.length == old(src).length,
            total_lob_len <= dst.length,
            dst.length == src.read_pos,
            total_lob_len == src.read_pos,
            dst.pieces@ == copy_pieces(old(src).length as int, buffer_len as int, true),
            total_lob_len == old(src).length,
            src.null == old(src).null,
            src.temporary == old(src).temporary,
            src.lob_type == old(src).lob_type,
            src.pieces == old(src).pieces,
            dst.null == old(dst).null,
            dst.temporary == old(dst).temporary,
            dst.lob_type == old(dst).lob_type,
            dst.read_pos == old(dst).read_pos,
        decreases src.length - src.read_pos + (if is_first {
            1int
        } else {
            0int
        }),
    {
        let ghost rem0 = src.length - src.read_pos;
        let read_result = src.read(offset, buffer_len);
        let finita = read_result.0;
        let rows = read_result.1;
        if rows == 0 {
            proof {
                assert(rem0 == 0);
                assert(copy_pieces(0, buffer_len as int, is_first) =~= Seq::<OCILobPiece>::empty());
                assert(dst.pieces@ + Seq::<OCILobPiece>::empty() =~= dst.pieces@);
            }
            break;
        }
        let piece = piece_for(is_first, finita);
        dst.write(rows, piece, offset, buffer_len);
        total_lob_len = total_lob_len + rows;
        proof {
            if rem0 <= buffer_len {
                assert(copy_pieces(rem0, buffer_len as int, is_first) =~= seq![piece]);
            } else {
                assert(copy_pieces(rem0, buffer_len as int, is_first) =~= seq![piece]
                    + copy_pieces(rem0 - buffer_len, buffer_len as int, false));
            }
            assert(dst.pieces@ + copy_pieces(
                src.length - src.read_pos,
                buffer_len as int,
                false,
            ) =~= copy_pieces(old(src).length as int, buffer_len as int, true));
        }
        if finita {
            proof {
                assert(copy_pieces(0, buffer_len as int, false) =~= Seq::<OCILobPiece>::empty());
                assert(dst.pieces@ + Seq::<OCILobPiece>::empty() =~= dst.pieces@);
            }
            break;
        }
        is_first = false;
    }
    dst.trim(total_lob_len);
    total_lob_len
}

/// Copying a value whose length is an exact multiple of the read-chunk
/// size writes exactly that many full chunks, and tags the terminal write
/// as the last piece (the only piece, for a single chunk).
pub proof fn lemma_chunk_boundary_copy(k: nat, chunk: nat)
    requires
        chunk > 0,
        k >= 1,
    ensures
        copy_pieces((k * chunk) as int, chunk as int, true).len() == k,
        copy_pieces((k * chunk) as int, chunk as int, true).last() == (if k == 1 {
            OCILobPiece::OnePiece
        } else {
            OCILobPiece::LastPiece
        }),
    decreases k,
{
    if k == 1 {
        assert(1 * chunk == chunk) by (nonlinear_arith);
    } else {
        assert((k * chunk) as int - chunk as int == ((k - 1) * chunk) as int) by (nonlinear_arith);
        assert(k * chunk > chunk) by (nonlinear_arith)
            requires
                k >= 2,
                chunk > 0,
        ;
        lemma_chunk_last((k - 1) as nat, chunk);
    }
}

/// The tail of a multi-chunk copy: `k` further chunks end in a last
/// piece.
proof fn lemma_chunk_last(k: nat, chunk: nat)
    requires
        chunk > 0,
        k >= 1,
    ensures
        copy_pieces((k * chunk) as int, chunk as int, false).len() == k,
        copy_pieces((k * chunk) as int, chunk as int, false).last() == OCILobPiece::LastPiece,
    decreases k,
{
    if k == 1 {
        assert(1 * chunk == chunk) by (nonlinear_arith);
    } else {
        assert((k * chunk) as int - chunk as int == ((k - 1) * chunk) as int) by (nonlinear_arith);
        assert(k * chunk > chunk) by (nonlinear_arith)
            requires
                k >= 2,
                chunk > 0,
        ;
        lemma_chunk_last((k - 1) as nat, chunk);
    }
}

} // verus!
