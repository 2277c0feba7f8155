//! What holds of reading and writing canonical transactions: for each
//! format, reading the bytes that writing yields gives the transactions
//! back, for the transactions that the format can carry.

use crate::errors::ParseErrorView;
use crate::format::bin::{encode_frames, fits_frame, MAX_BIN_SIZE};
use crate::format::bin_laws::{all_fit, lemma_stream_roundtrip, stored, stored_all};
use crate::format::csv::csv_text;
use crate::format::csv_laws::lemma_csv_roundtrip;
use crate::format::text::blocks_text;
use crate::format::text_laws::lemma_text_roundtrip;
use crate::models::{
    lemma_bin_conversion_roundtrip, lemma_record_conversion_roundtrip, no_line_feeds, BinRecordView,
    RecordView, TransactionView, TxType,
};
use crate::strings::has_no_line_feed;
use crate::supported::{
    bin_to_transactions, records_to_transactions, transactions_to_bin, transactions_to_records,
    YPFormatSupported,
};
use crate::traits::{decode_text_stream, over_limit, MAX_TEXT_SIZE};
use vstd::prelude::*;
use vstd::utf8::{encode_scalar, encode_utf8, encode_utf8_decode_utf8, encode_utf8_valid_utf8};

verus! {

/// Whether a canonical transaction is textual: it has a description, its
/// amount has the sign its kind calls for, and the magnitude of the amount
/// fits the signed range.
pub open spec fn is_textual(t: TransactionView) -> bool {
    &&& t.description is Some
    &&& t.sign_normal()
    &&& t.amount != i64::MIN
}

/// Whether the CSV and text formats carry a canonical transaction
/// unchanged: it is textual, and its description holds no line feed.
pub open spec fn is_text_carried(t: TransactionView) -> bool {
    is_textual(t) && has_no_line_feed(t.description->0)
}

/// Whether the binary format carries a canonical transaction unchanged: the
/// user that its kind does not use is 0, a transfer or withdrawal amount is
/// not positive, and its description, if it has one, is not empty and fits
/// a frame.
pub open spec fn is_bin_carried(t: TransactionView) -> bool {
    &&& t.tx_type == TxType::Deposit ==> t.from_user_id == 0
    &&& t.tx_type == TxType::Withdrawal ==> t.to_user_id == 0
    &&& t.tx_type.is_debit() ==> t.amount <= 0
    &&& t.description is Some ==> t.description->0.len() > 0
    &&& 46 + t.description_bytes() <= u32::MAX
}

/// The binary records of canonical transactions whose descriptions fit.
pub open spec fn bin_records(ts: Seq<TransactionView>) -> Seq<BinRecordView> {
    Seq::new(ts.len(), |i: int| ts[i].to_bin()->0)
}

/// The bytes that writing `ts` in a format yields.
pub open spec fn written(format: YPFormatSupported, ts: Seq<TransactionView>) -> Seq<u8> {
    match format {
        YPFormatSupported::Csv => encode_utf8(csv_text(transactions_to_records(ts))),
        YPFormatSupported::Text => encode_utf8(blocks_text(transactions_to_records(ts))),
        YPFormatSupported::Binary => encode_frames(bin_records(ts)),
    }
}

/// The records of textual transactions convert back to the transactions,
/// from any place on.
pub proof fn lemma_records_back(ts: Seq<TransactionView>, i: int, done: Seq<TransactionView>)
    requires
        forall|j: int| 0 <= j < ts.len() ==> is_textual(#[trigger] ts[j]),
        0 <= i <= ts.len(),
    ensures
        records_to_transactions(transactions_to_records(ts), i, done) == Ok::<
            Seq<TransactionView>,
            ParseErrorView,
        >(done + ts.skip(i)),
    decreases ts.len() - i,
{
    let rs = transactions_to_records(ts);
    if i >= ts.len() {
        assert(done + ts.skip(i) =~= done);
    } else {
        assert(is_textual(ts[i]));
        lemma_record_conversion_roundtrip(ts[i]);
        assert(rs[i] == ts[i].to_record());
        lemma_records_back(ts, i + 1, done.push(ts[i]));
        assert(done.push(ts[i]) + ts.skip(i + 1) =~= done + ts.skip(i));
    }
}

/// The binary records of transactions whose descriptions fit are what the
/// conversion yields, from any place on.
pub proof fn lemma_bin_records(ts: Seq<TransactionView>, i: int, done: Seq<BinRecordView>)
    requires
        forall|j: int| 0 <= j < ts.len() ==> (#[trigger] ts[j]).to_bin() is Some,
        0 <= i <= ts.len(),
    ensures
        transactions_to_bin(ts, i, done) == Ok::<Seq<BinRecordView>, ParseErrorView>(
            done + bin_records(ts).skip(i),
        ),
    decreases ts.len() - i,
{
    if i >= ts.len() {
        assert(done + bin_records(ts).skip(i) =~= done);
    } else {
        assert(ts[i].to_bin() is Some);
        lemma_bin_records(ts, i + 1, done.push(ts[i].to_bin()->0));
        assert(done.push(ts[i].to_bin()->0) + bin_records(ts).skip(i + 1) =~= done + bin_records(
            ts,
        ).skip(i));
    }
}

/// Round trip through CSV: reading the bytes that writing yields gives the
/// transactions back, for one or more transactions that the format carries and a
/// text within the byte ceiling.
pub proof fn lemma_csv_read_write(ts: Seq<TransactionView>)
    requires
        ts.len() > 0,
        forall|i: int| 0 <= i < ts.len() ==> is_text_carried(#[trigger] ts[i]),
        written(YPFormatSupported::Csv, ts).len() <= MAX_TEXT_SIZE,
    ensures
        YPFormatSupported::Csv.read(written(YPFormatSupported::Csv, ts)) == Ok::<
            Seq<TransactionView>,
            ParseErrorView,
        >(ts),
{
    let rs = transactions_to_records(ts);
    let text = csv_text(rs);
    encode_utf8_valid_utf8(text);
    encode_utf8_decode_utf8(text);
    assert(no_line_feeds(rs)) by {
        assert forall|i: int| 0 <= i < rs.len() implies has_no_line_feed(#[trigger] rs[i].description) by {
            assert(is_text_carried(ts[i]));
        }
    }
    lemma_csv_roundtrip(rs);
    assert forall|j: int| 0 <= j < ts.len() implies is_textual(#[trigger] ts[j]) by {
        assert(is_text_carried(ts[j]));
    }
    lemma_records_back(ts, 0, Seq::empty());
    assert(Seq::<TransactionView>::empty() + ts.skip(0) =~= ts);
}

/// Round trip through the text format: reading the bytes that writing
/// yields gives the transactions back, for one or more transactions that the
/// format carries and a text within the byte ceiling.
pub proof fn lemma_text_read_write(ts: Seq<TransactionView>)
    requires
        ts.len() > 0,
        forall|i: int| 0 <= i < ts.len() ==> is_text_carried(#[trigger] ts[i]),
        written(YPFormatSupported::Text, ts).len() <= MAX_TEXT_SIZE,
    ensures
        YPFormatSupported::Text.read(written(YPFormatSupported::Text, ts)) == Ok::<
            Seq<TransactionView>,
            ParseErrorView,
        >(ts),
{
    let rs = transactions_to_records(ts);
    let text = blocks_text(rs);
    encode_utf8_valid_utf8(text);
    encode_utf8_decode_utf8(text);
    assert(no_line_feeds(rs)) by {
        assert forall|i: int| 0 <= i < rs.len() implies has_no_line_feed(#[trigger] rs[i].description) by {
            assert(is_text_carried(ts[i]));
        }
    }
    lemma_text_roundtrip(rs);
    assert forall|j: int| 0 <= j < ts.len() implies is_textual(#[trigger] ts[j]) by {
        assert(is_text_carried(ts[j]));
    }
    lemma_records_back(ts, 0, Seq::empty());
    assert(Seq::<TransactionView>::empty() + ts.skip(0) =~= ts);
}

/// A text that is not empty has UTF-8 bytes.
pub proof fn lemma_encode_utf8_nonempty(d: Seq<char>)
    requires
        d.len() > 0,
    ensures
        encode_utf8(d).len() > 0,
{
    assert(encode_scalar(d[0] as u32).len() > 0);
}

/// The binary record of a transaction that the binary format carries is
/// stored as it is.
pub proof fn lemma_bin_record_stored(t: TransactionView)
    requires
        is_bin_carried(t),
    ensures
        t.to_bin() is Some,
        fits_frame(t.to_bin()->0),
        stored(t.to_bin()->0) == t.to_bin()->0,
        stored(t.to_bin()->0).to_transaction() == t,
{
    match t.description {
        Some(d) => {
            lemma_encode_utf8_nonempty(d);
        },
        None => {},
    }
    lemma_bin_conversion_roundtrip(t);
}

/// Round trip through the binary format: reading the bytes that writing
/// yields gives the transactions back, for transactions that the format
/// carries and a stream within the byte ceiling.
pub proof fn lemma_bin_read_write(ts: Seq<TransactionView>)
    requires
        forall|i: int| 0 <= i < ts.len() ==> is_bin_carried(#[trigger] ts[i]),
        written(YPFormatSupported::Binary, ts).len() <= MAX_BIN_SIZE,
    ensures
        transactions_to_bin(ts, 0, Seq::empty()) == Ok::<Seq<BinRecordView>, ParseErrorView>(
            bin_records(ts),
        ),
        YPFormatSupported::Binary.read(written(YPFormatSupported::Binary, ts)) == Ok::<
            Seq<TransactionView>,
            ParseErrorView,
        >(ts),
{
    let bs = bin_records(ts);
    assert forall|j: int| 0 <= j < ts.len() implies (#[trigger] ts[j]).to_bin() is Some by {
        lemma_bin_record_stored(ts[j]);
    }
    lemma_bin_records(ts, 0, Seq::empty());
    assert(Seq::<BinRecordView>::empty() + bs.skip(0) =~= bs);
    assert(all_fit(bs)) by {
        assert forall|i: int| 0 <= i < bs.len() implies fits_frame(#[trigger] bs[i]) by {
            lemma_bin_record_stored(ts[i]);
        }
    }
    lemma_stream_roundtrip(bs, MAX_BIN_SIZE);
    assert(bin_to_transactions(stored_all(bs)) =~= ts) by {
        assert forall|i: int| 0 <= i < ts.len() implies bin_to_transactions(stored_all(bs))[i]
            == ts[i] by {
            lemma_bin_record_stored(ts[i]);
        }
    }
}

/// A stream of a text-based format that holds more bytes than the ceiling
/// allows fails with the size-limit error, whatever it holds.
pub proof fn lemma_text_over_limit(
    data: Seq<u8>,
    limit: usize,
    parsed: Result<Seq<RecordView>, ParseErrorView>,
)
    requires
        data.len() > limit,
    ensures
        decode_text_stream(data, limit, parsed) == Err::<Seq<RecordView>, ParseErrorView>(
            over_limit(data.len() as usize, limit),
        ),
{
}

} // verus!
