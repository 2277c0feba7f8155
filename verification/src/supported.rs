//! The supported formats, and reading and writing canonical transactions in
//! a format chosen by its tag.

use crate::errors::{ParseError, ParseErrorView};
use crate::format::bin::{decode_stream, description_utf8, encode_frames, first_unfit, MAX_BIN_SIZE};
use crate::format::csv::{csv_text, parse_csv};
use crate::format::text::{blocks_text, parse_blocks};
use crate::models::{
    amount_overflow, description_overflow, normalize_sign, option_text, record_views, signed_amount,
    unsigned_abs, BinRecordView, RecordView, TransactionView, YPBankBinFormat, YPBankCsvFormat,
    YPBankTextFormat, YPBankTransaction,
};
use crate::strings::{chars_eq_str, str_to_chars};
use crate::traits::{decode_text_stream, YPBankIO, MAX_TEXT_SIZE};
use vstd::prelude::*;
use vstd::utf8::{decode_utf8, encode_utf8};

verus! {

/// The formats in which transactions can be read and written.
#[derive(Debug, Clone, Copy, PartialEq, Eq, Structural)]
pub enum YPFormatSupported {
    Csv,
    Text,
    Binary,
}

/// The canonical transactions of the records `rs` from the `i`-th on, after
/// the transactions `done`, or the overflow error of the first record whose
/// amount does not fit the signed range.
pub open spec fn records_to_transactions(
    rs: Seq<RecordView>,
    i: int,
    done: Seq<TransactionView>,
) -> Result<Seq<TransactionView>, ParseErrorView>
    decreases rs.len() - i,
{
    if i < 0 || i >= rs.len() {
        Ok(done)
    } else {
        match rs[i].to_transaction() {
            Some(t) => records_to_transactions(rs, i + 1, done.push(t)),
            None => Err(amount_overflow(rs[i].amount)),
        }
    }
}

/// The canonical transactions of binary records.
pub open spec fn bin_to_transactions(rs: Seq<BinRecordView>) -> Seq<TransactionView> {
    Seq::new(rs.len(), |i: int| rs[i].to_transaction())
}

/// The CSV or text records of canonical transactions.
pub open spec fn transactions_to_records(ts: Seq<TransactionView>) -> Seq<RecordView> {
    Seq::new(ts.len(), |i: int| ts[i].to_record())
}

/// The binary records of the canonical transactions `ts` from the `i`-th
/// on, after the records `done`, or the overflow error of the first
/// transaction whose description is too long.
pub open spec fn transactions_to_bin(
    ts: Seq<TransactionView>,
    i: int,
    done: Seq<BinRecordView>,
) -> Result<Seq<BinRecordView>, ParseErrorView>
    decreases ts.len() - i,
{
    if i < 0 || i >= ts.len() {
        Ok(done)
    } else {
        match ts[i].to_bin() {
            Some(b) => transactions_to_bin(ts, i + 1, done.push(b)),
            None => Err(description_overflow(ts[i].description_bytes())),
        }
    }
}

/// The outcome of parsing, carried over to canonical transactions.
pub open spec fn then_to_transactions(parsed: Result<Seq<RecordView>, ParseErrorView>) -> Result<
    Seq<TransactionView>,
    ParseErrorView,
> {
    match parsed {
        Ok(rs) => records_to_transactions(rs, 0, Seq::empty()),
        Err(e) => Err(e),
    }
}

/// Whether `r` is the outcome `expected`: the same transactions, or the same
/// error.
pub open spec fn read_as(
    r: Result<Vec<YPBankTransaction>, ParseError>,
    expected: Result<Seq<TransactionView>, ParseErrorView>,
) -> bool {
    match r {
        Ok(ts) => expected == Ok::<Seq<TransactionView>, ParseErrorView>(record_views(ts@)),
        Err(e) => expected == Err::<Seq<TransactionView>, ParseErrorView>(e@),
    }
}

impl YPFormatSupported {
    /// The format that a tag names: `csv`, `txt` or `text`, `bin` or
    /// `binary`.
    pub open spec fn of_tag(tag: Seq<char>) -> Option<YPFormatSupported> {
        if tag == "csv"@ {
            Some(YPFormatSupported::Csv)
        } else if tag == "txt"@ || tag == "text"@ {
            Some(YPFormatSupported::Text)
        } else if tag == "bin"@ || tag == "binary"@ {
            Some(YPFormatSupported::Binary)
        } else {
            None
        }
    }

    /// The short name of the format, which is also its file extension.
    pub open spec fn name(self) -> Seq<char> {
        match self {
            YPFormatSupported::Csv => "csv"@,
            YPFormatSupported::Text => "txt"@,
            YPFormatSupported::Binary => "bin"@,
        }
    }

    /// The canonical transactions of a byte stream of the format, or the
    /// first error of reading, parsing or converting it.
    pub open spec fn read(self, data: Seq<u8>) -> Result<Seq<TransactionView>, ParseErrorView> {
        match self {
            YPFormatSupported::Csv => then_to_transactions(
                decode_text_stream(data, MAX_TEXT_SIZE, parse_csv(decode_utf8(data))),
            ),
            YPFormatSupported::Text => then_to_transactions(
                decode_text_stream(data, MAX_TEXT_SIZE, parse_blocks(decode_utf8(data))),
            ),
            YPFormatSupported::Binary => match decode_stream(data, MAX_BIN_SIZE) {
                Ok(rs) => Ok(bin_to_transactions(rs)),
                Err(e) => Err(e),
            },
        }
    }

    /// The format that `tag` names. Any other tag is an unsupported format.
    pub fn from_tag(tag: &str) -> (r: Result<Self, ParseError>)
        ensures
            match r {
                Ok(f) => Self::of_tag(tag@) == Some(f),
                Err(e) => Self::of_tag(tag@) is None && e@ == (ParseErrorView::UnsupportedFormat {
                    invalid_format: tag@,
                }),
            },
    {
        let chars = str_to_chars(tag);
        if chars_eq_str(chars.as_slice(), "csv") {
            Ok(YPFormatSupported::Csv)
        } else if chars_eq_str(chars.as_slice(), "txt") || chars_eq_str(chars.as_slice(), "text") {
            Ok(YPFormatSupported::Text)
        } else if chars_eq_str(chars.as_slice(), "bin") || chars_eq_str(
            chars.as_slice(),
            "binary",
        ) {
            Ok(YPFormatSupported::Binary)
        } else {
            Err(ParseError::UnsupportedFormat { invalid_format: tag.to_owned() })
        }
    }

    /// The short name of the format.
    pub fn as_str(&self) -> (s: &'static str)
        ensures
            s@ == self.name(),
    {
        match self {
            YPFormatSupported::Csv => "csv",
            YPFormatSupported::Text => "txt",
            YPFormatSupported::Binary => "bin",
        }
    }

    /// The short name of the format.
    pub fn to_string(&self) -> (s: String)
        ensures
            s@ == self.name(),
    {
        self.as_str().to_owned()
    }

    /// Parses a byte stream of the format into canonical transactions.
    pub fn to_transaction(self, data: &[u8]) -> (r: Result<Vec<YPBankTransaction>, ParseError>)
        ensures
            read_as(r, self.read(data@)),
    {
        match self {
            YPFormatSupported::Csv => {
                let records = match YPBankCsvFormat::read_from(data) {
                    Ok(records) => records,
                    Err(e) => {
                        return Err(e);
                    },
                };
                csv_to_transactions(&records)
            },
            YPFormatSupported::Text => {
                let records = match YPBankTextFormat::read_from(data) {
                    Ok(records) => records,
                    Err(e) => {
                        return Err(e);
                    },
                };
                text_to_transactions(&records)
            },
            YPFormatSupported::Binary => {
                let records = match YPBankBinFormat::read_from(data) {
                    Ok(records) => records,
                    Err(e) => {
                        return Err(e);
                    },
                };
                Ok(binary_to_transactions(&records))
            },
        }
    }

    /// Appends the byte stream of `transactions` in the format to `writer`.
    ///
    /// For CSV and text this cannot fail. For the binary format, a
    /// description too long for its length field is an overflow error, and
    /// nothing is written; one that fits the field but not a frame stops the
    /// writing as [`YPBankBinFormat::write_to`] says.
    pub fn from_transaction(self, writer: &mut Vec<u8>, transactions: &[YPBankTransaction]) -> (r:
        Result<(), ParseError>)
        ensures
            match self {
                YPFormatSupported::Csv => r is Ok && final(writer)@ == old(writer)@ + encode_utf8(
                    csv_text(transactions_to_records(record_views(transactions@))),
                ),
                YPFormatSupported::Text => r is Ok && final(writer)@ == old(writer)@ + encode_utf8(
                    blocks_text(transactions_to_records(record_views(transactions@))),
                ),
                YPFormatSupported::Binary => match transactions_to_bin(
                    record_views(transactions@),
                    0,
                    Seq::empty(),
                ) {
                    Err(e) => r is Err && r->Err_0@ == e && final(writer)@ == old(writer)@,
                    Ok(bs) => match r {
                        Ok(()) => first_unfit(bs) == bs.len() && final(writer)@ == old(writer)@
                            + encode_frames(bs),
                        Err(e) => {
                            let k = first_unfit(bs);
                            &&& 0 <= k < bs.len()
                            &&& final(writer)@ == old(writer)@ + encode_frames(bs.take(k))
                            &&& e@ == description_overflow(
                                description_utf8(bs[k].description).len(),
                            )
                        },
                    },
                },
            },
    {
        match self {
            YPFormatSupported::Csv => {
                let records = transactions_to_csv(transactions);
                YPBankCsvFormat::write_to(writer, records.as_slice())
            },
            YPFormatSupported::Text => {
                let records = transactions_to_text(transactions);
                YPBankTextFormat::write_to(writer, records.as_slice())
            },
            YPFormatSupported::Binary => {
                let records = match transactions_to_binary(transactions) {
                    Ok(records) => records,
                    Err(e) => {
                        return Err(e);
                    },
                };
                let ghost bs = record_views(records@);
                let r = YPBankBinFormat::write_to(writer, records.as_slice());
                proof {
                    let k = first_unfit(bs);
                    if 0 <= k < bs.len() {
                        assert(bs[k] == records@[k]@);
                    }
                }
                r
            },
        }
    }
}

/// A copy of an optional string.
fn clone_option(s: &Option<String>) -> (r: Option<String>)
    ensures
        option_text(r) == option_text(*s),
{
    match s {
        Some(t) => Some(t.clone()),
        None => None,
    }
}

/// The canonical transactions of CSV records.
fn csv_to_transactions(records: &Vec<YPBankCsvFormat>) -> (r: Result<
    Vec<YPBankTransaction>,
    ParseError,
>)
    ensures
        read_as(r, records_to_transactions(record_views(records@), 0, Seq::empty())),
{
    let ghost rs = record_views(records@);
    let mut out: Vec<YPBankTransaction> = Vec::new();
    let mut i: usize = 0;
    proof {
        assert(record_views(out@) =~= Seq::<TransactionView>::empty());
    }
    while i < records.len()
        invariant
            i <= records.len(),
            rs == record_views(records@),
            records_to_transactions(rs, 0, Seq::empty()) == records_to_transactions(
                rs,
                i as int,
                record_views(out@),
            ),
        decreases records.len() - i,
    {
        let source = &records[i];
        let ghost done = record_views(out@);
        proof {
            assert(rs[i as int] == source@);
        }
        let amount: i64 = match signed_amount(source.tx_type, source.amount) {
            Ok(a) => a,
            Err(e) => {
                return Err(e);
            },
        };
        let t = YPBankTransaction {
            tx_id: source.tx_id,
            tx_type: source.tx_type,
            from_user_id: source.from_user_id,
            to_user_id: source.to_user_id,
            amount,
            timestamp: source.timestamp,
            status: source.status,
            description: Some(source.description.clone()),
        };
        out.push(t);
        proof {
            assert(record_views(out@) =~= done.push(t@));
        }
        i += 1;
    }
    Ok(out)
}

/// The canonical transactions of text records.
fn text_to_transactions(records: &Vec<YPBankTextFormat>) -> (r: Result<
    Vec<YPBankTransaction>,
    ParseError,
>)
    ensures
        read_as(r, records_to_transactions(record_views(records@), 0, Seq::empty())),
{
    let ghost rs = record_views(records@);
    let mut out: Vec<YPBankTransaction> = Vec::new();
    let mut i: usize = 0;
    proof {
        assert(record_views(out@) =~= Seq::<TransactionView>::empty());
    }
    while i < records.len()
        invariant
            i <= records.len(),
            rs == record_views(records@),
            records_to_transactions(rs, 0, Seq::empty()) == records_to_transactions(
                rs,
                i as int,
                record_views(out@),
            ),
        decreases records.len() - i,
    {
        let source = &records[i];
        let ghost done = record_views(out@);
        proof {
            assert(rs[i as int] == source@);
        }
        let amount: i64 = match signed_amount(source.tx_type, source.amount) {
            Ok(a) => a,
            Err(e) => {
                return Err(e);
            },
        };
        let t = YPBankTransaction {
            tx_id: source.tx_id,
            tx_type: source.tx_type,
            from_user_id: source.from_user_id,
            to_user_id: source.to_user_id,
            amount,
            timestamp: source.timestamp,
            status: source.status,
            description: Some(source.description.clone()),
        };
        out.push(t);
        proof {
            assert(record_views(out@) =~= done.push(t@));
        }
        i += 1;
    }
    Ok(out)
}

/// The canonical transactions of binary records.
fn binary_to_transactions(records: &Vec<YPBankBinFormat>) -> (out: Vec<YPBankTransaction>)
    ensures
        record_views(out@) == bin_to_transactions(record_views(records@)),
{
    let mut out: Vec<YPBankTransaction> = Vec::new();
    let mut i: usize = 0;
    while i < records.len()
        invariant
            i <= records.len(),
            out.len() == i,
            forall|j: int| 0 <= j < i ==> (#[trigger] out@[j])@ == records@[j]@.to_transaction(),
        decreases records.len() - i,
    {
        let source = &records[i];
        let t = YPBankTransaction {
            tx_id: source.tx_id,
            tx_type: source.tx_type,
            from_user_id: source.from_user_id,
            to_user_id: source.to_user_id,
            amount: normalize_sign(source.tx_type, source.amount),
            timestamp: source.timestamp,
            status: source.status,
            description: clone_option(&source.description),
        };
        out.push(t);
        i += 1;
    }
    proof {
        assert(record_views(out@) =~= bin_to_transactions(record_views(records@)));
    }
    out
}

/// The text of an optional description; empty where it is absent.
fn description_or_empty(description: &Option<String>) -> (s: String)
    ensures
        s@ == match option_text(*description) {
            Some(d) => d,
            None => Seq::empty(),
        },
{
    match description {
        Some(d) => d.clone(),
        None => String::new(),
    }
}

/// The CSV records of canonical transactions.
fn transactions_to_csv(transactions: &[YPBankTransaction]) -> (out: Vec<YPBankCsvFormat>)
    ensures
        record_views(out@) == transactions_to_records(record_views(transactions@)),
{
    let mut out: Vec<YPBankCsvFormat> = Vec::new();
    let mut i: usize = 0;
    while i < transactions.len()
        invariant
            i <= transactions.len(),
            out.len() == i,
            forall|j: int| 0 <= j < i ==> (#[trigger] out@[j])@ == transactions@[j]@.to_record(),
        decreases transactions.len() - i,
    {
        let t = &transactions[i];
        let record = YPBankCsvFormat {
            tx_id: t.tx_id,
            tx_type: t.tx_type,
            from_user_id: t.from_user_id,
            to_user_id: t.to_user_id,
            amount: unsigned_abs(t.amount),
            timestamp: t.timestamp,
            status: t.status,
            description: description_or_empty(&t.description),
        };
        out.push(record);
        i += 1;
    }
    proof {
        assert(record_views(out@) =~= transactions_to_records(record_views(transactions@)));
    }
    out
}

/// The text records of canonical transactions.
fn transactions_to_text(transactions: &[YPBankTransaction]) -> (out: Vec<YPBankTextFormat>)
    ensures
        record_views(out@) == transactions_to_records(record_views(transactions@)),
{
    let mut out: Vec<YPBankTextFormat> = Vec::new();
    let mut i: usize = 0;
    while i < transactions.len()
        invariant
            i <= transactions.len(),
            out.len() == i,
            forall|j: int| 0 <= j < i ==> (#[trigger] out@[j])@ == transactions@[j]@.to_record(),
        decreases transactions.len() - i,
    {
        let t = &transactions[i];
        let record = YPBankTextFormat {
            tx_id: t.tx_id,
            tx_type: t.tx_type,
            from_user_id: t.from_user_id,
            to_user_id: t.to_user_id,
            amount: unsigned_abs(t.amount),
            timestamp: t.timestamp,
            status: t.status,
            description: description_or_empty(&t.description),
        };
        out.push(record);
        i += 1;
    }
    proof {
        assert(record_views(out@) =~= transactions_to_records(record_views(transactions@)));
    }
    out
}

/// The binary records of canonical transactions, or the overflow error of
/// the first whose description is too long.
fn transactions_to_binary(transactions: &[YPBankTransaction]) -> (r: Result<
    Vec<YPBankBinFormat>,
    ParseError,
>)
    ensures
        match r {
            Ok(records) => transactions_to_bin(record_views(transactions@), 0, Seq::empty())
                == Ok::<Seq<BinRecordView>, ParseErrorView>(record_views(records@)),
            Err(e) => transactions_to_bin(record_views(transactions@), 0, Seq::empty())
                == Err::<Seq<BinRecordView>, ParseErrorView>(e@),
        },
{
    let ghost ts = record_views(transactions@);
    let mut out: Vec<YPBankBinFormat> = Vec::new();
    let mut i: usize = 0;
    proof {
        assert(record_views(out@) =~= Seq::<BinRecordView>::empty());
    }
    while i < transactions.len()
        invariant
            i <= transactions.len(),
            ts == record_views(transactions@),
            transactions_to_bin(ts, 0, Seq::empty()) == transactions_to_bin(
                ts,
                i as int,
                record_views(out@),
            ),
        decreases transactions.len() - i,
    {
        let t = &transactions[i];
        let ghost done = record_views(out@);
        proof {
            assert(ts[i as int] == t@);
        }
        let copy = YPBankTransaction {
            tx_id: t.tx_id,
            tx_type: t.tx_type,
            from_user_id: t.from_user_id,
            to_user_id: t.to_user_id,
            amount: t.amount,
            timestamp: t.timestamp,
            status: t.status,
            description: clone_option(&t.description),
        };
        let record = match copy.into_bin() {
            Ok(record) => record,
            Err(e) => {
                return Err(e);
            },
        };
        out.push(record);
        proof {
            assert(record_views(out@) =~= done.push(record@));
        }
        i += 1;
    }
    Ok(out)
}

} // verus!
