//! What holds of the binary codec: reading undoes writing, the unused user
//! of a deposit or a withdrawal is written as 0, and how malformed and
//! oversized streams fail.

use crate::endian::{
    be_u32, be_u64, i64_be, lemma_i64_be_roundtrip, lemma_u32_be_roundtrip, lemma_u64_be_roundtrip,
    u32_be, u64_be,
};
use crate::errors::ParseErrorView;
use crate::format::bin::{
    bad_magic, decode_body, decode_frames, decode_sized, decode_stream, description_utf8,
    encode_body, encode_frame, encode_frames, fits_frame, magic, size_limit_exceeded, written_from,
    written_to,
};
use crate::models::{
    lemma_tx_status_code_roundtrip, lemma_tx_type_code_roundtrip, BinRecordView, TxType,
};
use vstd::prelude::*;
use vstd::utf8::{encode_utf8_decode_utf8, encode_utf8_valid_utf8};

verus! {

/// The record that reading the frame of `r` yields: `r` with the unused user
/// as written, with the description's true byte length, and without a
/// description where that length is 0.
pub open spec fn stored(r: BinRecordView) -> BinRecordView {
    BinRecordView {
        tx_id: r.tx_id,
        tx_type: r.tx_type,
        from_user_id: written_from(r),
        to_user_id: written_to(r),
        amount: r.amount,
        timestamp: r.timestamp,
        status: r.status,
        desc_len: description_utf8(r.description).len() as u32,
        description: if description_utf8(r.description).len() > 0 {
            r.description
        } else {
            None
        },
    }
}

/// The records that reading the frames of `rs` yields.
pub open spec fn stored_all(rs: Seq<BinRecordView>) -> Seq<BinRecordView> {
    Seq::new(rs.len(), |i: int| stored(rs[i]))
}

/// Whether the body of every record of `rs` fits a frame.
pub open spec fn all_fit(rs: Seq<BinRecordView>) -> bool {
    forall|i: int| 0 <= i < rs.len() ==> fits_frame(#[trigger] rs[i])
}

/// Where in its body each field of a record stands.
pub proof fn lemma_body_layout(r: BinRecordView)
    ensures
        encode_body(r).len() == 46 + description_utf8(r.description).len(),
        encode_body(r).subrange(0, 8) == u64_be(r.tx_id),
        encode_body(r)[8] == r.tx_type.code(),
        encode_body(r).subrange(9, 17) == u64_be(written_from(r)),
        encode_body(r).subrange(17, 25) == u64_be(written_to(r)),
        encode_body(r).subrange(25, 33) == i64_be(r.amount),
        encode_body(r).subrange(33, 41) == u64_be(r.timestamp),
        encode_body(r)[41] == r.status.code(),
        encode_body(r).subrange(42, 46) == u32_be(description_utf8(r.description).len() as u32),
        encode_body(r).subrange(46, encode_body(r).len() as int) == description_utf8(
            r.description,
        ),
{
    reveal(encode_body);
    let b = encode_body(r);
    assert(b.subrange(0, 8) =~= u64_be(r.tx_id));
    assert(b.subrange(9, 17) =~= u64_be(written_from(r)));
    assert(b.subrange(17, 25) =~= u64_be(written_to(r)));
    assert(b.subrange(25, 33) =~= i64_be(r.amount));
    assert(b.subrange(33, 41) =~= u64_be(r.timestamp));
    assert(b.subrange(42, 46) =~= u32_be(description_utf8(r.description).len() as u32));
    assert(b.subrange(46, b.len() as int) =~= description_utf8(r.description));
}

/// Decoding the body of a record yields the record as stored.
pub proof fn lemma_body_roundtrip(r: BinRecordView)
    requires
        fits_frame(r),
    ensures
        decode_body(encode_body(r)) == Ok::<BinRecordView, ParseErrorView>(stored(r)),
{
    reveal(decode_body);
    let b = encode_body(r);
    lemma_body_layout(r);
    lemma_u64_be_roundtrip(r.tx_id);
    lemma_u64_be_roundtrip(written_from(r));
    lemma_u64_be_roundtrip(written_to(r));
    lemma_u64_be_roundtrip(r.timestamp);
    lemma_i64_be_roundtrip(r.amount);
    lemma_tx_type_code_roundtrip(r.tx_type);
    lemma_tx_status_code_roundtrip(r.status);
    let text = description_utf8(r.description);
    lemma_u32_be_roundtrip(text.len() as u32);
    let n = be_u32(b.subrange(42, 46));
    assert(n == text.len());
    assert(b.subrange(46, 46 + n) == text);
    match r.description {
        Some(d) => {
            encode_utf8_valid_utf8(d);
            encode_utf8_decode_utf8(d);
        },
        None => {},
    }
}

/// A frame is its magic, four bytes of length, and its body.
pub proof fn lemma_frame_layout(r: BinRecordView)
    requires
        fits_frame(r),
    ensures
        encode_frame(r).len() == 8 + encode_body(r).len(),
        encode_frame(r).take(4) == magic(),
        be_u32(encode_frame(r).subrange(4, 8)) == encode_body(r).len(),
        encode_frame(r).skip(8) == encode_body(r),
{
    reveal(encode_frame);
    let f = encode_frame(r);
    lemma_body_layout(r);
    lemma_u32_be_roundtrip(encode_body(r).len() as u32);
    assert(f.take(4) =~= magic());
    assert(f.subrange(4, 8) =~= u32_be(encode_body(r).len() as u32));
    assert(f.skip(8) =~= encode_body(r));
}

/// Reading a frame that is followed by `suffix` yields the record as stored
/// and goes on with `suffix`.
pub proof fn lemma_frame_roundtrip(
    r: BinRecordView,
    suffix: Seq<u8>,
    consumed: int,
    limit: usize,
    done: Seq<BinRecordView>,
)
    requires
        fits_frame(r),
        0 <= consumed,
        consumed + encode_frame(r).len() <= limit,
    ensures
        decode_frames(encode_frame(r) + suffix, consumed, limit, done) == decode_frames(
            suffix,
            consumed + encode_frame(r).len(),
            limit,
            done.push(stored(r)),
        ),
{
    let f = encode_frame(r);
    let body = encode_body(r);
    let all = f + suffix;
    lemma_frame_layout(r);
    lemma_body_roundtrip(r);
    assert(all.take(4) =~= f.take(4));
    let rest = all.skip(4);
    assert(rest.subrange(0, 4) =~= f.subrange(4, 8));
    let n = be_u32(rest.subrange(0, 4)) as int;
    assert(n == body.len());
    assert(rest.subrange(4, 4 + n) =~= body);
    assert(decode_sized(rest, consumed + 4, limit) == Ok::<(BinRecordView, int), ParseErrorView>(
        (stored(r), 4 + n),
    ));
    assert(all.skip(4 + (4 + n)) =~= suffix);
}

/// Reading the frames of `rs`, followed by `suffix`, yields the records as
/// stored and goes on with `suffix`.
pub proof fn lemma_frames_roundtrip(
    rs: Seq<BinRecordView>,
    suffix: Seq<u8>,
    consumed: int,
    limit: usize,
    done: Seq<BinRecordView>,
)
    requires
        all_fit(rs),
        0 <= consumed,
        consumed + encode_frames(rs).len() <= limit,
    ensures
        decode_frames(encode_frames(rs) + suffix, consumed, limit, done) == decode_frames(
            suffix,
            consumed + encode_frames(rs).len(),
            limit,
            done + stored_all(rs),
        ),
    decreases rs.len(),
{
    if rs.len() == 0 {
        assert(encode_frames(rs) + suffix =~= suffix);
        assert(done + stored_all(rs) =~= done);
    } else {
        let init = rs.drop_last();
        let last = rs.last();
        let tail = encode_frame(last) + suffix;
        assert(all_fit(init)) by {
            assert forall|i: int| 0 <= i < init.len() implies fits_frame(#[trigger] init[i]) by {
                assert(init[i] == rs[i]);
            }
        }
        assert(fits_frame(rs[rs.len() - 1]));
        assert(encode_frames(rs) + suffix =~= encode_frames(init) + tail);
        lemma_frames_roundtrip(init, tail, consumed, limit, done);
        lemma_frame_roundtrip(
            last,
            suffix,
            consumed + encode_frames(init).len(),
            limit,
            done + stored_all(init),
        );
        assert((done + stored_all(init)).push(stored(last)) =~= done + stored_all(rs));
    }
}

/// Reading undoes writing: the stream of the frames of `rs` decodes to the
/// records of `rs` as stored, where every body fits a frame and the stream is
/// within the ceiling.
pub proof fn lemma_stream_roundtrip(rs: Seq<BinRecordView>, limit: usize)
    requires
        all_fit(rs),
        encode_frames(rs).len() <= limit,
    ensures
        decode_stream(encode_frames(rs), limit) == Ok::<Seq<BinRecordView>, ParseErrorView>(
            stored_all(rs),
        ),
{
    lemma_frames_roundtrip(rs, Seq::empty(), 0, limit, Seq::empty());
    assert(encode_frames(rs) + Seq::<u8>::empty() =~= encode_frames(rs));
    assert(Seq::<BinRecordView>::empty() + stored_all(rs) =~= stored_all(rs));
}

/// In the frame of a deposit the bytes of the source user decode to 0, and
/// in the frame of a withdrawal the bytes of the destination user do,
/// whatever the record holds there.
pub proof fn lemma_unused_user_is_zero(r: BinRecordView)
    requires
        fits_frame(r),
    ensures
        r.tx_type == TxType::Deposit ==> be_u64(encode_frame(r).subrange(17, 25)) == 0,
        r.tx_type == TxType::Withdrawal ==> be_u64(encode_frame(r).subrange(25, 33)) == 0,
        r.tx_type != TxType::Deposit ==> be_u64(encode_frame(r).subrange(17, 25))
            == r.from_user_id,
        r.tx_type != TxType::Withdrawal ==> be_u64(encode_frame(r).subrange(25, 33))
            == r.to_user_id,
{
    lemma_frame_layout(r);
    lemma_body_layout(r);
    let f = encode_frame(r);
    let b = encode_body(r);
    assert(f.subrange(17, 25) =~= b.subrange(9, 17));
    assert(f.subrange(25, 33) =~= b.subrange(17, 25));
    lemma_u64_be_roundtrip(written_from(r));
    lemma_u64_be_roundtrip(written_to(r));
}

/// A stream whose first four bytes are not the magic constant fails with a
/// structural parse error that shows those bytes, whatever follows them.
pub proof fn lemma_magic_mismatch(data: Seq<u8>, limit: usize)
    requires
        data.len() >= 4,
        data.take(4) != magic(),
    ensures
        decode_stream(data, limit) == Err::<Seq<BinRecordView>, ParseErrorView>(
            bad_magic(data.take(4)),
        ),
        decode_stream(data, limit)->Err_0 is ParseError,
{
}

/// A stream that ends inside a magic constant fails with a structural parse
/// error as well.
pub proof fn lemma_magic_cut_short(data: Seq<u8>, limit: usize)
    requires
        0 < data.len() < 4,
    ensures
        decode_stream(data, limit) == Err::<Seq<BinRecordView>, ParseErrorView>(bad_magic(data)),
{
}

/// A first frame whose declared length takes the stream over the ceiling
/// fails with the size-limit error, before its body is looked at.
pub proof fn lemma_frame_over_limit(data: Seq<u8>, limit: usize)
    requires
        data.len() >= 8,
        data.take(4) == magic(),
        8 + be_u32(data.subrange(4, 8)) > limit,
    ensures
        decode_stream(data, limit) == Err::<Seq<BinRecordView>, ParseErrorView>(
            size_limit_exceeded(8 + be_u32(data.subrange(4, 8)), limit),
        ),
{
    let rest = data.skip(4);
    assert(rest.subrange(0, 4) =~= data.subrange(4, 8));
}

} // verus!
