//! `TryFrom` between the canonical transaction and the per-format records.

use crate::errors::ParseError;
use crate::models::{
    amount_overflow, description_overflow, YPBankBinFormat, YPBankCsvFormat, YPBankTextFormat,
    YPBankTransaction,
};
use vstd::prelude::*;
use vstd::std_specs::convert::TryFromSpecImpl;

verus! {

/// The canonical transaction of a CSV record.
impl TryFrom<YPBankCsvFormat> for YPBankTransaction {
    type Error = ParseError;

    fn try_from(source: YPBankCsvFormat) -> (r: Result<Self, ParseError>)
        ensures
            match r {
                Ok(t) => source@.to_transaction() == Some(t@),
                Err(e) => source@.to_transaction() is None && e@ == amount_overflow(source.amount),
            },
    {
        YPBankTransaction::from_csv(source)
    }
}

/// The canonical transaction of a text record: the fields as they are, the
/// description present, and the magnitude as a signed amount that is made
/// negative for a transfer or a withdrawal. A magnitude beyond the signed
/// range is an overflow error that names the two types and shows the
/// magnitude.
impl TryFrom<YPBankTextFormat> for YPBankTransaction {
    type Error = ParseError;

    fn try_from(source: YPBankTextFormat) -> (r: Result<Self, ParseError>)
        ensures
            match r {
                Ok(t) => source@.to_transaction() == Some(t@),
                Err(e) => source@.to_transaction() is None && e@ == amount_overflow(source.amount),
            },
    {
        YPBankTransaction::from_text(source)
    }
}

/// The canonical transaction of a binary record: the fields as they are,
/// without the length of the description, and the amount as stored, but
/// made negative where it is positive and the kind is a transfer or a
/// withdrawal. The description stays as it is, present or absent. This
/// conversion never fails.
impl TryFrom<YPBankBinFormat> for YPBankTransaction {
    type Error = ParseError;

    fn try_from(source: YPBankBinFormat) -> (r: Result<Self, ParseError>)
        ensures
            r is Ok,
            r->Ok_0@ == source@.to_transaction(),
    {
        Ok(YPBankTransaction::from_bin(source))
    }
}

/// The CSV record of a canonical transaction: the fields as they are, the
/// amount without its sign, and the empty text where the transaction has
/// no description. This conversion never fails.
///
/// The magnitude of the most negative amount is 2^63, which the unsigned
/// field holds; converting that record back is an overflow error, as that
/// magnitude is beyond the signed range.
impl TryFrom<YPBankTransaction> for YPBankCsvFormat {
    type Error = ParseError;

    fn try_from(source: YPBankTransaction) -> (r: Result<Self, ParseError>)
        ensures
            r is Ok,
            r->Ok_0@ == source@.to_record(),
    {
        Ok(source.into_csv())
    }
}

/// The text record of a canonical transaction: the fields as they are, the
/// amount without its sign, and the empty text where the transaction has
/// no description. This conversion never fails.
///
/// The magnitude of the most negative amount is 2^63, which the unsigned
/// field holds; converting that record back is an overflow error, as that
/// magnitude is beyond the signed range.
impl TryFrom<YPBankTransaction> for YPBankTextFormat {
    type Error = ParseError;

    fn try_from(source: YPBankTransaction) -> (r: Result<Self, ParseError>)
        ensures
            r is Ok,
            r->Ok_0@ == source@.to_record(),
    {
        Ok(source.into_text())
    }
}

/// The binary record of a canonical transaction: the fields and the signed
/// amount as they are, with the length of the description taken from its
/// UTF-8 bytes, 0 where there is none.
///
/// A description of more bytes than 32 bits count is an overflow error that
/// names the two types and shows the byte length; the conversion succeeds
/// on every other transaction.
impl TryFrom<YPBankTransaction> for YPBankBinFormat {
    type Error = ParseError;

    fn try_from(source: YPBankTransaction) -> (r: Result<Self, ParseError>)
        ensures
            match r {
                Ok(b) => source@.to_bin() == Some(b@),
                Err(e) => source@.to_bin() is None && e@ == description_overflow(
                    source@.description_bytes(),
                ),
            },
    {
        source.into_bin()
    }
}

/// The contract of this conversion stands on `try_from` itself.
impl TryFromSpecImpl<YPBankCsvFormat> for YPBankTransaction {
    open spec fn obeys_try_from_spec() -> bool {
        false
    }

    open spec fn try_from_spec(v: YPBankCsvFormat) -> Result<Self, ParseError> {
        arbitrary()
    }
}

/// The contract of this conversion stands on `try_from` itself.
impl TryFromSpecImpl<YPBankTextFormat> for YPBankTransaction {
    open spec fn obeys_try_from_spec() -> bool {
        false
    }

    open spec fn try_from_spec(v: YPBankTextFormat) -> Result<Self, ParseError> {
        arbitrary()
    }
}

/// The contract of this conversion stands on `try_from` itself.
impl TryFromSpecImpl<YPBankBinFormat> for YPBankTransaction {
    open spec fn obeys_try_from_spec() -> bool {
        false
    }

    open spec fn try_from_spec(v: YPBankBinFormat) -> Result<Self, ParseError> {
        arbitrary()
    }
}

/// The contract of this conversion stands on `try_from` itself.
impl TryFromSpecImpl<YPBankTransaction> for YPBankCsvFormat {
    open spec fn obeys_try_from_spec() -> bool {
        false
    }

    open spec fn try_from_spec(v: YPBankTransaction) -> Result<Self, ParseError> {
        arbitrary()
    }
}

/// The contract of this conversion stands on `try_from` itself.
impl TryFromSpecImpl<YPBankTransaction> for YPBankTextFormat {
    open spec fn obeys_try_from_spec() -> bool {
        false
    }

    open spec fn try_from_spec(v: YPBankTransaction) -> Result<Self, ParseError> {
        arbitrary()
    }
}

/// The contract of this conversion stands on `try_from` itself.
impl TryFromSpecImpl<YPBankTransaction> for YPBankBinFormat {
    open spec fn obeys_try_from_spec() -> bool {
        false
    }

    open spec fn try_from_spec(v: YPBankTransaction) -> Result<Self, ParseError> {
        arbitrary()
    }
}

} // verus!
