//! The interface that the text-based codecs share.

use crate::errors::{ParseError, ParseErrorView};
use crate::models::{record_views, RecordView};
use crate::strings::string_from_utf8;
use vstd::prelude::*;
use vstd::slice::slice_to_vec;
use vstd::utf8::{decode_utf8, encode_utf8, valid_utf8};

verus! {

/// The default ceiling, in bytes, on what a CSV or text stream may hold.
pub const MAX_TEXT_SIZE: usize = 104857600;

/// The error of a stream that holds more bytes than the ceiling allows.
pub open spec fn over_limit(actual: usize, limit: usize) -> ParseErrorView {
    ParseErrorView::SizeLimitExceeded { actual, limit }
}

/// The error of a stream that is not UTF-8 text.
pub open spec fn not_text() -> ParseErrorView {
    ParseErrorView::IOError {
        err_source: "stream did not contain valid UTF-8"@,
        description: "cannot read the data as text"@,
    }
}

/// Whether `r` is the outcome `expected`: the same records, or the same
/// error.
pub open spec fn parsed_as<T: View<V = RecordView>>(
    r: Result<Vec<T>, ParseError>,
    expected: Result<Seq<RecordView>, ParseErrorView>,
) -> bool {
    match r {
        Ok(records) => expected == Ok::<Seq<RecordView>, ParseErrorView>(record_views(records@)),
        Err(e) => expected == Err::<Seq<RecordView>, ParseErrorView>(e@),
    }
}

/// The records of a byte stream of a text-based format under a byte
/// ceiling, given what parsing its text yields: the stream must be within the
/// ceiling, be UTF-8 text, parse, and hold one record at least.
pub open spec fn decode_text_stream(
    data: Seq<u8>,
    limit: usize,
    parsed: Result<Seq<RecordView>, ParseErrorView>,
) -> Result<Seq<RecordView>, ParseErrorView> {
    if data.len() > limit {
        Err(over_limit(data.len() as usize, limit))
    } else if !valid_utf8(data) {
        Err(not_text())
    } else {
        match parsed {
            Ok(records) => if records.len() == 0 {
                Err(ParseErrorView::EmptyData)
            } else {
                Ok(records)
            },
            Err(e) => Err(e),
        }
    }
}

/// A codec of a text-based format: it maps text to records and back.
pub trait YPBankIO {
    /// The record type of the format.
    type DataFormat: View<V = RecordView>;

    /// The records that a text of the format holds, or the first error.
    spec fn parse_text(text: Seq<char>) -> Result<Seq<RecordView>, ParseErrorView>;

    /// The text of the format that holds the given records.
    spec fn format_text(records: Seq<RecordView>) -> Seq<char>;

    /// Parses a whole text of the format.
    fn read_executor(buffer: String) -> (r: Result<Vec<Self::DataFormat>, ParseError>)
        ensures
            parsed_as(r, Self::parse_text(buffer@)),
    ;

    /// Appends the UTF-8 bytes of the text of `records` to `writer`.
    fn write_to(writer: &mut Vec<u8>, records: &[Self::DataFormat]) -> (r: Result<
        (),
        ParseError,
    >)
        ensures
            r is Ok,
            final(writer)@ == old(writer)@ + encode_utf8(
                Self::format_text(record_views(records@)),
            ),
    ;

    /// Reads the records of a byte stream that may hold `limit` bytes at
    /// most. The ceiling is checked before anything is parsed; a stream that
    /// holds no record is an error.
    fn read_from_with_limit(data: &[u8], limit: usize) -> (r: Result<
        Vec<Self::DataFormat>,
        ParseError,
    >)
        ensures
            parsed_as(
                r,
                decode_text_stream(data@, limit, Self::parse_text(decode_utf8(data@))),
            ),
    {
        if data.len() > limit {
            return Err(ParseError::SizeLimitExceeded { actual: data.len(), limit });
        }
        let buffer = match string_from_utf8(slice_to_vec(data)) {
            Some(text) => text,
            None => {
                return Err(
                    ParseError::io_error(
                        "stream did not contain valid UTF-8",
                        "cannot read the data as text",
                    ),
                );
            },
        };
        let records = match Self::read_executor(buffer) {
            Ok(records) => records,
            Err(e) => {
                return Err(e);
            },
        };
        if records.len() == 0 {
            return Err(ParseError::EmptyData);
        }
        Ok(records)
    }

    /// Reads the records of a byte stream under the default byte ceiling.
    fn read_from(data: &[u8]) -> (r: Result<Vec<Self::DataFormat>, ParseError>)
        ensures
            parsed_as(
                r,
                decode_text_stream(data@, MAX_TEXT_SIZE, Self::parse_text(decode_utf8(data@))),
            ),
    {
        Self::read_from_with_limit(data, MAX_TEXT_SIZE)
    }
}

} // verus!
