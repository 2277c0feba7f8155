//! The binary codec: a stream of frames, each a magic constant, the body
//! length as a big-endian `u32`, and the body with all integers big-endian.

use crate::decimal::{decimal, decimal_chars, push_decimal};
use crate::endian::{
    be_i64, be_u32, be_u64, i64_be, i64_from_be, push_i64_be, push_u32_be, push_u64_be, u32_be,
    u32_from_be, u64_be, u64_from_be,
};
use crate::errors::{ParseError, ParseErrorView};
use crate::models::{
    description_overflow, record_views, BinRecordView, TxStatus, TxType, YPBankBinFormat,
};
use crate::strings::{chars_to_string, push_str, string_from_utf8};
use vstd::prelude::*;
use vstd::slice::{slice_subrange, slice_to_vec};
use vstd::utf8::{decode_utf8, encode_utf8, valid_utf8};

verus! {

/// Number of bytes of the magic constant that opens every frame.
pub const MAGIC_SIZE: usize = 4;

/// The magic constant that opens every frame.
pub const MAGIC: [u8; 4] = [0x59, 0x50, 0x42, 0x4E];

/// Number of bytes of a body without its description.
pub const FIXED_BODY_SIZE: usize = 46;

/// The default ceiling, in bytes, on what a binary stream may hold.
pub const MAX_BIN_SIZE: usize = 1073741824;

/// The magic constant as a byte sequence.
pub open spec fn magic() -> Seq<u8> {
    seq![0x59u8, 0x50u8, 0x42u8, 0x4Eu8]
}

/// The UTF-8 bytes of an optional description; none where it is absent.
pub open spec fn description_utf8(d: Option<Seq<char>>) -> Seq<u8> {
    match d {
        Some(t) => encode_utf8(t),
        None => Seq::empty(),
    }
}

/// The source user as written: 0 for a deposit, which has no source.
pub open spec fn written_from(r: BinRecordView) -> u64 {
    if r.tx_type == TxType::Deposit {
        0
    } else {
        r.from_user_id
    }
}

/// The destination user as written: 0 for a withdrawal, which has no
/// destination.
pub open spec fn written_to(r: BinRecordView) -> u64 {
    if r.tx_type == TxType::Withdrawal {
        0
    } else {
        r.to_user_id
    }
}

/// Whether the body of `r` has a length that fits the frame's `u32`.
pub open spec fn fits_frame(r: BinRecordView) -> bool {
    46 + description_utf8(r.description).len() <= u32::MAX
}

/// The body of the frame of `r`. The description's length is taken from the
/// description itself, not from the record's `desc_len`.
#[verifier::opaque]
pub open spec fn encode_body(r: BinRecordView) -> Seq<u8> {
    u64_be(r.tx_id) + seq![r.tx_type.code()] + u64_be(written_from(r)) + u64_be(written_to(r))
        + i64_be(r.amount) + u64_be(r.timestamp) + seq![r.status.code()] + u32_be(
        description_utf8(r.description).len() as u32,
    ) + description_utf8(r.description)
}

/// The frame of `r`: magic, body length, body.
#[verifier::opaque]
pub open spec fn encode_frame(r: BinRecordView) -> Seq<u8> {
    magic() + u32_be(encode_body(r).len() as u32) + encode_body(r)
}

/// The frames of `rs`, one after the other.
pub open spec fn encode_frames(rs: Seq<BinRecordView>) -> Seq<u8>
    decreases rs.len(),
{
    if rs.len() == 0 {
        Seq::empty()
    } else {
        encode_frames(rs.drop_last()) + encode_frame(rs.last())
    }
}

/// Index of the first record of `rs` whose body does not fit a frame, or
/// `rs.len()` where every body fits.
pub open spec fn first_unfit(rs: Seq<BinRecordView>) -> int
    decreases rs.len(),
{
    if rs.len() == 0 || !fits_frame(rs[0]) {
        0
    } else {
        1 + first_unfit(rs.drop_first())
    }
}

/// The first unfit record is where every earlier record fits.
pub proof fn lemma_first_unfit_is(rs: Seq<BinRecordView>, k: int)
    requires
        0 <= k <= rs.len(),
        forall|i: int| 0 <= i < k ==> fits_frame(#[trigger] rs[i]),
        k < rs.len() ==> !fits_frame(rs[k]),
    ensures
        first_unfit(rs) == k,
    decreases rs.len(),
{
    if k > 0 {
        let t = rs.drop_first();
        assert(fits_frame(rs[0]));
        assert forall|i: int| 0 <= i < k - 1 implies fits_frame(#[trigger] t[i]) by {
            assert(t[i] == rs[i + 1]);
        }
        lemma_first_unfit_is(t, k - 1);
    }
}

/// The body of a record is 46 bytes and its description.
pub proof fn lemma_encode_body_len(r: BinRecordView)
    ensures
        encode_body(r).len() == 46 + description_utf8(r.description).len(),
{
    reveal(encode_body);
}

/// A binary decode error with the given message.
pub open spec fn bin_error(message: Seq<char>) -> ParseErrorView {
    ParseErrorView::ParseBinaryError { message }
}

/// The error of a stream that ends inside a body or a description.
pub open spec fn short_read() -> ParseErrorView {
    ParseErrorView::IOError {
        err_source: "failed to fill whole buffer"@,
        description: "cannot read the binary record"@,
    }
}

/// The decimal values of `b`, separated by a comma and a space.
pub open spec fn bytes_list(b: Seq<u8>) -> Seq<char>
    decreases b.len(),
{
    if b.len() == 0 {
        Seq::empty()
    } else if b.len() == 1 {
        decimal(b[0] as nat)
    } else {
        bytes_list(b.drop_last()) + ", "@ + decimal(b.last() as nat)
    }
}

/// The structural error of a frame that does not open with the magic
/// constant; the message shows the bytes found in its place.
pub open spec fn bad_magic(found: Seq<u8>) -> ParseErrorView {
    ParseErrorView::ParseError {
        message: "invalid magic: ["@ + bytes_list(found) + "], expected [89, 80, 66, 78]"@,
        line: 0,
        column: 0,
    }
}

/// The error of a stream that holds more bytes than the ceiling allows; a
/// count beyond the range of `usize` is reported as the largest `usize`.
pub open spec fn size_limit_exceeded(actual: int, limit: usize) -> ParseErrorView {
    ParseErrorView::SizeLimitExceeded {
        actual: if actual > usize::MAX {
            usize::MAX
        } else {
            actual as usize
        },
        limit,
    }
}

/// The record that a frame body holds, or the error of decoding it. The
/// fields are read in the order of the layout, and the first that cannot be
/// read decides the error. Bytes after the description are not looked at.
#[verifier::opaque]
pub open spec fn decode_body(b: Seq<u8>) -> Result<BinRecordView, ParseErrorView> {
    if b.len() < 8 {
        Err(bin_error("cannot read u64 (big endian)"@))
    } else if b.len() < 9 {
        Err(bin_error("cannot read u8"@))
    } else if TxType::from_code(b[8]) is None {
        Err(bin_error("invalid TX_TYPE"@))
    } else if b.len() < 25 {
        Err(bin_error("cannot read u64 (big endian)"@))
    } else if b.len() < 33 {
        Err(bin_error("cannot read i64 (big endian)"@))
    } else if b.len() < 41 {
        Err(bin_error("cannot read u64 (big endian)"@))
    } else if b.len() < 42 {
        Err(bin_error("cannot read u8"@))
    } else if TxStatus::from_code(b[41]) is None {
        Err(bin_error("invalid TX_STATUS"@))
    } else if b.len() < 46 {
        Err(bin_error("cannot read u32 (big endian)"@))
    } else {
        let n = be_u32(b.subrange(42, 46));
        let text = b.subrange(46, 46 + n);
        if n > 0 && b.len() < 46 + n {
            Err(short_read())
        } else if n > 0 && !valid_utf8(text) {
            Err(bin_error("description is not valid UTF-8"@))
        } else {
            Ok(
                BinRecordView {
                    tx_id: be_u64(b.subrange(0, 8)),
                    tx_type: TxType::from_code(b[8])->0,
                    from_user_id: be_u64(b.subrange(9, 17)),
                    to_user_id: be_u64(b.subrange(17, 25)),
                    amount: be_i64(b.subrange(25, 33)),
                    timestamp: be_u64(b.subrange(33, 41)),
                    status: TxStatus::from_code(b[41])->0,
                    desc_len: n,
                    description: if n > 0 {
                        Some(decode_utf8(text))
                    } else {
                        None
                    },
                },
            )
        }
    }
}

/// What reading the length and the body of a frame yields, given the bytes
/// `rest` after the frame's magic and the count `consumed` of bytes read so
/// far, the magic included: the record and the number of bytes it took, or
/// the error. The ceiling is checked before the body is looked at.
pub open spec fn decode_sized(rest: Seq<u8>, consumed: int, limit: usize) -> Result<
    (BinRecordView, int),
    ParseErrorView,
> {
    if rest.len() < 4 {
        Err(bin_error("cannot read u32 (big endian)"@))
    } else {
        let n = be_u32(rest.subrange(0, 4)) as int;
        if consumed + 4 + n > limit {
            Err(size_limit_exceeded(consumed + 4 + n, limit))
        } else if rest.len() < 4 + n {
            Err(short_read())
        } else {
            match decode_body(rest.subrange(4, 4 + n)) {
                Ok(r) => Ok((r, 4 + n)),
                Err(e) => Err(e),
            }
        }
    }
}

/// The records of the frames in `rest`, after the records `done` of the
/// `consumed` bytes before them, or the first error.
///
/// The stream ends well only at a frame boundary. A frame that does not open
/// with the whole magic constant is a structural error.
pub open spec fn decode_frames(
    rest: Seq<u8>,
    consumed: int,
    limit: usize,
    done: Seq<BinRecordView>,
) -> Result<Seq<BinRecordView>, ParseErrorView>
    decreases rest.len(),
{
    if rest.len() == 0 {
        Ok(done)
    } else if rest.len() < 4 {
        Err(bad_magic(rest))
    } else if rest.take(4) != magic() {
        Err(bad_magic(rest.take(4)))
    } else {
        match decode_sized(rest.skip(4), consumed + 4, limit) {
            Ok((r, used)) => decode_frames(
                rest.skip(4 + used),
                consumed + 4 + used,
                limit,
                done.push(r),
            ),
            Err(e) => Err(e),
        }
    }
}

/// The records of a binary stream under a byte ceiling, or the first error.
pub open spec fn decode_stream(data: Seq<u8>, limit: usize) -> Result<
    Seq<BinRecordView>,
    ParseErrorView,
> {
    decode_frames(data, 0, limit, Seq::empty())
}

/// Whether `r` is the outcome `expected`: the same record, or the same error.
pub open spec fn decoded_as(
    r: Result<YPBankBinFormat, ParseError>,
    expected: Result<BinRecordView, ParseErrorView>,
) -> bool {
    match r {
        Ok(rec) => expected == Ok::<BinRecordView, ParseErrorView>(rec@),
        Err(e) => expected == Err::<BinRecordView, ParseErrorView>(e@),
    }
}

/// Whether `r` is the outcome `expected`: the same records, or the same
/// error.
pub open spec fn decoded_all_as(
    r: Result<Vec<YPBankBinFormat>, ParseError>,
    expected: Result<Seq<BinRecordView>, ParseErrorView>,
) -> bool {
    match r {
        Ok(records) => expected == Ok::<Seq<BinRecordView>, ParseErrorView>(
            record_views(records@),
        ),
        Err(e) => expected == Err::<Seq<BinRecordView>, ParseErrorView>(e@),
    }
}

/// The error of a stream that ends inside a body or a description.
fn short_read_error() -> (e: ParseError)
    ensures
        e@ == short_read(),
{
    ParseError::io_error("failed to fill whole buffer", "cannot read the binary record")
}

/// The error of a frame that opens with `found` in place of the magic.
fn bad_magic_error(found: &[u8]) -> (e: ParseError)
    ensures
        e@ == bad_magic(found@),
{
    let mut message: Vec<char> = Vec::new();
    push_str(&mut message, "invalid magic: [");
    let ghost head = message@;
    let mut i: usize = 0;
    proof {
        assert(bytes_list(found@.take(0)) =~= Seq::<char>::empty());
        assert(head + Seq::<char>::empty() =~= head);
    }
    while i < found.len()
        invariant
            i <= found.len(),
            message@ == head + bytes_list(found@.take(i as int)),
        decreases found.len() - i,
    {
        let ghost before = found@.take(i as int);
        if i > 0 {
            push_str(&mut message, ", ");
        }
        push_decimal(&mut message, found[i] as u64);
        proof {
            let now = found@.take(i + 1);
            assert(now.drop_last() =~= before);
            assert(now.last() == found@[i as int]);
            if i == 0 {
                assert(now[0] == found@[0]);
                assert(message@ =~= head + bytes_list(now));
            } else {
                assert(message@ =~= head + bytes_list(now));
            }
        }
        i += 1;
    }
    push_str(&mut message, "], expected [89, 80, 66, 78]");
    proof {
        assert(found@.take(i as int) =~= found@);
    }
    let text = chars_to_string(message.as_slice());
    ParseError::parse_error(text.as_str(), 0, 0)
}

impl YPBankBinFormat {
    /// Reads one byte at `*pos` and moves past it.
    fn read_u8(data: &[u8], pos: &mut usize) -> (r: Result<u8, ParseError>)
        requires
            *old(pos) <= data.len(),
        ensures
            match r {
                Ok(x) => {
                    &&& *old(pos) + 1 <= data.len()
                    &&& *final(pos) == *old(pos) + 1
                    &&& x == data@[*old(pos) as int]
                },
                Err(e) => {
                    &&& *old(pos) + 1 > data.len()
                    &&& *final(pos) == *old(pos)
                    &&& e@ == bin_error("cannot read u8"@)
                },
            },
    {
        if data.len() - *pos < 1 {
            return Err(ParseError::parse_bin_error("cannot read u8"));
        }
        let x: u8 = data[*pos];
        *pos = *pos + 1;
        Ok(x)
    }

    /// Reads a big-endian `u32` at `*pos` and moves past it.
    fn read_u32be(data: &[u8], pos: &mut usize) -> (r: Result<u32, ParseError>)
        requires
            *old(pos) <= data.len(),
        ensures
            match r {
                Ok(x) => {
                    &&& *old(pos) + 4 <= data.len()
                    &&& *final(pos) == *old(pos) + 4
                    &&& x == be_u32(data@.subrange(*old(pos) as int, *old(pos) + 4))
                },
                Err(e) => {
                    &&& *old(pos) + 4 > data.len()
                    &&& *final(pos) == *old(pos)
                    &&& e@ == bin_error("cannot read u32 (big endian)"@)
                },
            },
    {
        if data.len() - *pos < 4 {
            return Err(ParseError::parse_bin_error("cannot read u32 (big endian)"));
        }
        let x: u32 = u32_from_be(data, *pos);
        *pos = *pos + 4;
        Ok(x)
    }

    /// Reads a big-endian `u64` at `*pos` and moves past it.
    fn read_u64_be(data: &[u8], pos: &mut usize) -> (r: Result<u64, ParseError>)
        requires
            *old(pos) <= data.len(),
        ensures
            match r {
                Ok(x) => {
                    &&& *old(pos) + 8 <= data.len()
                    &&& *final(pos) == *old(pos) + 8
                    &&& x == be_u64(data@.subrange(*old(pos) as int, *old(pos) + 8))
                },
                Err(e) => {
                    &&& *old(pos) + 8 > data.len()
                    &&& *final(pos) == *old(pos)
                    &&& e@ == bin_error("cannot read u64 (big endian)"@)
                },
            },
    {
        if data.len() - *pos < 8 {
            return Err(ParseError::parse_bin_error("cannot read u64 (big endian)"));
        }
        let x: u64 = u64_from_be(data, *pos);
        *pos = *pos + 8;
        Ok(x)
    }

    /// Reads a big-endian `i64` at `*pos` and moves past it.
    fn read_i64_be(data: &[u8], pos: &mut usize) -> (r: Result<i64, ParseError>)
        requires
            *old(pos) <= data.len(),
        ensures
            match r {
                Ok(x) => {
                    &&& *old(pos) + 8 <= data.len()
                    &&& *final(pos) == *old(pos) + 8
                    &&& x == be_i64(data@.subrange(*old(pos) as int, *old(pos) + 8))
                },
                Err(e) => {
                    &&& *old(pos) + 8 > data.len()
                    &&& *final(pos) == *old(pos)
                    &&& e@ == bin_error("cannot read i64 (big endian)"@)
                },
            },
    {
        if data.len() - *pos < 8 {
            return Err(ParseError::parse_bin_error("cannot read i64 (big endian)"));
        }
        let x: i64 = i64_from_be(data, *pos);
        *pos = *pos + 8;
        Ok(x)
    }

    /// Decodes a record from the body of its frame.
    pub fn new_from_cursor(body: &[u8]) -> (r: Result<Self, ParseError>)
        ensures
            decoded_as(r, decode_body(body@)),
    {
        proof {
            reveal(decode_body);
        }
        let mut pos: usize = 0;
        let tx_id: u64 = match Self::read_u64_be(body, &mut pos) {
            Ok(v) => v,
            Err(e) => {
                return Err(e);
            },
        };
        let tx_type_byte: u8 = match Self::read_u8(body, &mut pos) {
            Ok(v) => v,
            Err(e) => {
                return Err(e);
            },
        };
        let tx_type = match TxType::from_u8(tx_type_byte) {
            Some(t) => t,
            None => {
                return Err(ParseError::parse_bin_error("invalid TX_TYPE"));
            },
        };
        let from_user_id: u64 = match Self::read_u64_be(body, &mut pos) {
            Ok(v) => v,
            Err(e) => {
                return Err(e);
            },
        };
        let to_user_id: u64 = match Self::read_u64_be(body, &mut pos) {
            Ok(v) => v,
            Err(e) => {
                return Err(e);
            },
        };
        let amount: i64 = match Self::read_i64_be(body, &mut pos) {
            Ok(v) => v,
            Err(e) => {
                return Err(e);
            },
        };
        let timestamp: u64 = match Self::read_u64_be(body, &mut pos) {
            Ok(v) => v,
            Err(e) => {
                return Err(e);
            },
        };
        let status_byte: u8 = match Self::read_u8(body, &mut pos) {
            Ok(v) => v,
            Err(e) => {
                return Err(e);
            },
        };
        let status = match TxStatus::from_u8(status_byte) {
            Some(s) => s,
            None => {
                return Err(ParseError::parse_bin_error("invalid TX_STATUS"));
            },
        };
        let desc_len: u32 = match Self::read_u32be(body, &mut pos) {
            Ok(v) => v,
            Err(e) => {
                return Err(e);
            },
        };
        let description: Option<String> = if desc_len > 0 {
            if body.len() - pos < desc_len as usize {
                return Err(short_read_error());
            }
            let bytes = slice_to_vec(slice_subrange(body, pos, pos + desc_len as usize));
            match string_from_utf8(bytes) {
                Some(text) => Some(text),
                None => {
                    return Err(ParseError::parse_bin_error("description is not valid UTF-8"));
                },
            }
        } else {
            None
        };
        Ok(
            YPBankBinFormat {
                tx_id,
                tx_type,
                from_user_id,
                to_user_id,
                amount,
                timestamp,
                status,
                desc_len,
                description,
            },
        )
    }

    /// Reads the length and the body of one frame at `*pos`, where the
    /// frame's magic has just been read, and moves past them.
    pub fn read_executor(data: &[u8], pos: &mut usize, limit: usize) -> (r: Result<
        Self,
        ParseError,
    >)
        requires
            *old(pos) <= data.len(),
        ensures
            *final(pos) <= data.len(),
            match r {
                Ok(rec) => decode_sized(data@.skip(*old(pos) as int), *old(pos) as int, limit)
                    == Ok::<(BinRecordView, int), ParseErrorView>(
                    (rec@, *final(pos) - *old(pos)),
                ),
                Err(e) => decode_sized(data@.skip(*old(pos) as int), *old(pos) as int, limit)
                    == Err::<(BinRecordView, int), ParseErrorView>(e@),
            },
    {
        let ghost start = *pos as int;
        let ghost rest = data@.skip(start);
        let record_size: u32 = match Self::read_u32be(data, pos) {
            Ok(v) => v,
            Err(e) => {
                return Err(e);
            },
        };
        proof {
            assert(rest.subrange(0, 4) =~= data@.subrange(start, start + 4));
        }
        let total: Option<usize> = (*pos).checked_add(record_size as usize);
        match total {
            None => {
                return Err(ParseError::SizeLimitExceeded { actual: usize::MAX, limit });
            },
            Some(t) => {
                if t > limit {
                    return Err(ParseError::SizeLimitExceeded { actual: t, limit });
                }
            },
        }
        if data.len() - *pos < record_size as usize {
            return Err(short_read_error());
        }
        let body = slice_subrange(data, *pos, *pos + record_size as usize);
        proof {
            assert(body@ =~= rest.subrange(4, 4 + record_size));
        }
        let record = match Self::new_from_cursor(body) {
            Ok(rec) => rec,
            Err(e) => {
                return Err(e);
            },
        };
        *pos = *pos + record_size as usize;
        Ok(record)
    }

    /// Reads every frame of `data`. The stream may hold `limit` bytes at
    /// most, counted frame by frame as the frames' lengths are read.
    pub fn read_from_with_limit(data: &[u8], limit: usize) -> (r: Result<Vec<Self>, ParseError>)
        ensures
            decoded_all_as(r, decode_stream(data@, limit)),
    {
        let mut records: Vec<Self> = Vec::new();
        let mut pos: usize = 0;
        proof {
            assert(data@.skip(0) =~= data@);
            assert(record_views(records@) =~= Seq::<BinRecordView>::empty());
        }
        while pos < data.len()
            invariant
                pos <= data.len(),
                decode_stream(data@, limit) == decode_frames(
                    data@.skip(pos as int),
                    pos as int,
                    limit,
                    record_views(records@),
                ),
            decreases data.len() - pos,
        {
            let ghost rest = data@.skip(pos as int);
            let ghost done = record_views(records@);
            if data.len() - pos < MAGIC_SIZE {
                let found = slice_subrange(data, pos, data.len());
                proof {
                    assert(found@ =~= rest);
                }
                return Err(bad_magic_error(found));
            }
            let found = slice_subrange(data, pos, pos + MAGIC_SIZE);
            proof {
                assert(found@ =~= rest.take(4));
            }
            if found[0] != MAGIC[0] || found[1] != MAGIC[1] || found[2] != MAGIC[2] || found[3]
                != MAGIC[3] {
                proof {
                    assert(found@ != magic()) by {
                        if found@ == magic() {
                            assert(found@[0] == magic()[0]);
                            assert(found@[1] == magic()[1]);
                            assert(found@[2] == magic()[2]);
                            assert(found@[3] == magic()[3]);
                        }
                    }
                }
                return Err(bad_magic_error(found));
            }
            proof {
                assert(found@ =~= magic());
            }
            let ghost before = pos as int;
            pos = pos + MAGIC_SIZE;
            proof {
                assert(rest.skip(4) =~= data@.skip(pos as int));
            }
            let record = match Self::read_executor(data, &mut pos, limit) {
                Ok(rec) => rec,
                Err(e) => {
                    return Err(e);
                },
            };
            records.push(record);
            proof {
                let used = pos - before - 4;
                assert(rest.skip(4 + used) =~= data@.skip(pos as int));
                assert(record_views(records@) =~= done.push(record@));
            }
        }
        proof {
            assert(data@.skip(pos as int).len() == 0);
        }
        Ok(records)
    }

    /// Reads every frame of `data`, under the default byte ceiling.
    pub fn read_from(data: &[u8]) -> (r: Result<Vec<Self>, ParseError>)
        ensures
            decoded_all_as(r, decode_stream(data@, MAX_BIN_SIZE)),
    {
        Self::read_from_with_limit(data, MAX_BIN_SIZE)
    }

    /// Appends the body of the record's frame to `body`.
    fn write_body(&self, body: &mut Vec<u8>)
        requires
            fits_frame(self@),
        ensures
            final(body)@ == old(body)@ + encode_body(self@),
    {
        push_u64_be(body, self.tx_id);
        body.push(self.tx_type.as_u8());
        let from_user: u64 = match self.tx_type {
            TxType::Deposit => 0,
            _ => self.from_user_id,
        };
        push_u64_be(body, from_user);
        let to_user: u64 = match self.tx_type {
            TxType::Withdrawal => 0,
            _ => self.to_user_id,
        };
        push_u64_be(body, to_user);
        push_i64_be(body, self.amount);
        push_u64_be(body, self.timestamp);
        body.push(self.status.as_u8());
        match &self.description {
            Some(desc) => {
                let bytes = desc.as_str().as_bytes();
                push_u32_be(body, bytes.len() as u32);
                body.extend_from_slice(bytes);
            },
            None => {
                push_u32_be(body, 0);
            },
        }
        proof {
            reveal(encode_body);
            assert(final(body)@ =~= old(body)@ + encode_body(self@));
        }
    }

    /// Byte length of the record's description in UTF-8; 0 where it has none.
    fn description_len(&self) -> (n: usize)
        ensures
            n == description_utf8(self@.description).len(),
    {
        match &self.description {
            Some(desc) => desc.as_str().as_bytes().len(),
            None => 0,
        }
    }

    /// Appends the frames of `records` to `writer`, in order.
    ///
    /// For a deposit the source user is written as 0, for a withdrawal the
    /// destination user. A record whose description is too long for a frame
    /// stops the writing with an overflow error: the frames of the records
    /// before it have been written, and nothing of it or after it.
    pub fn write_to(writer: &mut Vec<u8>, records: &[Self]) -> (r: Result<(), ParseError>)
        ensures
            match r {
                Ok(()) => {
                    &&& first_unfit(record_views(records@)) == records.len()
                    &&& final(writer)@ == old(writer)@ + encode_frames(record_views(records@))
                },
                Err(e) => {
                    let k = first_unfit(record_views(records@));
                    &&& 0 <= k < records.len()
                    &&& final(writer)@ == old(writer)@ + encode_frames(
                        record_views(records@).take(k),
                    )
                    &&& e@ == description_overflow(
                        description_utf8(records[k]@.description).len(),
                    )
                },
            },
    {
        let ghost views = record_views(records@);
        let mut i: usize = 0;
        proof {
            assert(encode_frames(views.take(0)) =~= Seq::<u8>::empty());
            assert(old(writer)@ + Seq::<u8>::empty() =~= old(writer)@);
        }
        while i < records.len()
            invariant
                i <= records.len(),
                views == record_views(records@),
                forall|j: int| 0 <= j < i ==> fits_frame(#[trigger] views[j]),
                writer@ == old(writer)@ + encode_frames(views.take(i as int)),
            decreases records.len() - i,
        {
            let record = &records[i];
            let len: usize = record.description_len();
            proof {
                assert(views[i as int] == record@);
            }
            if len > 4294967295usize - 46 {
                let value = chars_to_string(decimal_chars(len as u64).as_slice());
                proof {
                    lemma_first_unfit_is(views, i as int);
                }
                return Err(ParseError::over_flow_size("usize", "u32", value.as_str()));
            }
            let mut body: Vec<u8> = Vec::new();
            record.write_body(&mut body);
            let ghost before = writer@;
            writer.extend_from_slice(&MAGIC);
            push_u32_be(writer, body.len() as u32);
            writer.extend_from_slice(body.as_slice());
            proof {
                reveal(encode_frame);
                lemma_encode_body_len(record@);
                assert(MAGIC@ =~= magic());
                assert(body@ =~= encode_body(record@));
                assert(writer@ =~= before + encode_frame(record@));
                assert(views.take(i + 1).drop_last() =~= views.take(i as int));
                assert(views.take(i + 1).last() == record@);
                assert(writer@ =~= old(writer)@ + encode_frames(views.take(i + 1)));
            }
            i += 1;
        }
        proof {
            assert(views.take(i as int) =~= views);
            lemma_first_unfit_is(views, i as int);
        }
        Ok(())
    }
}

} // verus!
