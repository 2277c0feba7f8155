//! Codecs for bank-transaction records in three interchangeable formats
//! (CSV, length-framed binary, key/value text blocks) and the conversions
//! between the per-format records and one canonical transaction model.

pub mod cli;
pub mod convert;
pub mod decimal;
pub mod endian;
pub mod errors;
pub mod fields;
pub mod format;
pub mod laws;
pub mod models;
pub mod strings;
pub mod supported;
pub mod traits;

pub use crate::supported::YPFormatSupported;

use crate::errors::ParseError;
use crate::format::bin::{
    decode_stream, decoded_all_as, description_utf8, encode_frames, first_unfit, MAX_BIN_SIZE,
};
use crate::format::csv::{csv_text, parse_csv};
use crate::format::text::{blocks_text, parse_blocks};
use crate::models::{
    description_overflow, record_views, YPBankBinFormat, YPBankCsvFormat, YPBankTextFormat,
};
use crate::traits::{decode_text_stream, parsed_as, YPBankIO, MAX_TEXT_SIZE};
use vstd::prelude::*;
use vstd::utf8::{decode_utf8, encode_utf8};

verus! {

/// Reads the records of a CSV byte stream.
pub fn read_csv(data: &[u8]) -> (r: Result<Vec<YPBankCsvFormat>, ParseError>)
    ensures
        parsed_as(r, decode_text_stream(data@, MAX_TEXT_SIZE, parse_csv(decode_utf8(data@)))),
{
    YPBankCsvFormat::read_from(data)
}

/// Appends the CSV byte stream of `records` to `writer`.
pub fn write_csv(writer: &mut Vec<u8>, records: &[YPBankCsvFormat]) -> (r: Result<(), ParseError>)
    ensures
        r is Ok,
        final(writer)@ == old(writer)@ + encode_utf8(csv_text(record_views(records@))),
{
    YPBankCsvFormat::write_to(writer, records)
}

/// Reads the records of a binary byte stream.
pub fn read_bin(data: &[u8]) -> (r: Result<Vec<YPBankBinFormat>, ParseError>)
    ensures
        decoded_all_as(r, decode_stream(data@, MAX_BIN_SIZE)),
{
    YPBankBinFormat::read_from(data)
}

/// Appends the frames of `records` to `writer`; see
/// [`YPBankBinFormat::write_to`].
pub fn write_bin(writer: &mut Vec<u8>, records: &[YPBankBinFormat]) -> (r: Result<(), ParseError>)
    ensures
        match r {
            Ok(()) => {
                &&& first_unfit(record_views(records@)) == records.len()
                &&& final(writer)@ == old(writer)@ + encode_frames(record_views(records@))
            },
            Err(e) => {
                let k = first_unfit(record_views(records@));
                &&& 0 <= k < records.len()
                &&& final(writer)@ == old(writer)@ + encode_frames(record_views(records@).take(k))
                &&& e@ == description_overflow(description_utf8(records[k]@.description).len())
            },
        },
{
    YPBankBinFormat::write_to(writer, records)
}

/// Reads the records of a byte stream in the text-block format.
pub fn read_text(data: &[u8]) -> (r: Result<Vec<YPBankTextFormat>, ParseError>)
    ensures
        parsed_as(r, decode_text_stream(data@, MAX_TEXT_SIZE, parse_blocks(decode_utf8(data@)))),
{
    YPBankTextFormat::read_from(data)
}

/// Appends the byte stream of `records` in the text-block format to
/// `writer`.
pub fn write_text(writer: &mut Vec<u8>, records: &[YPBankTextFormat]) -> (r: Result<(), ParseError>)
    ensures
        r is Ok,
        final(writer)@ == old(writer)@ + encode_utf8(blocks_text(record_views(records@))),
{
    YPBankTextFormat::write_to(writer, records)
}

} // verus!
