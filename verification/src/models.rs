//! The canonical transaction, the per-format records, and their enumerations.

use crate::decimal::{decimal, decimal_chars, parse_u64, parse_u64_chars};
use crate::errors::{overflow_description, ParseError, ParseErrorView};
use crate::fields::FieldMap;
use crate::strings::{
    chars_eq_str, chars_to_string, has_no_line_feed, is_upper_ascii, is_upper_word,
    lemma_uppercase_fixed, str_to_chars, to_upper, uppercase,
};
use vstd::prelude::*;
use vstd::utf8::encode_utf8;

verus! {

/// The kind of a transaction.
#[derive(Debug, Clone, Copy, PartialEq, Eq, Structural)]
pub enum TxType {
    Deposit,
    Transfer,
    Withdrawal,
}

/// The outcome of a transaction.
#[derive(Debug, Clone, Copy, PartialEq, Eq, Structural)]
pub enum TxStatus {
    Success,
    Failure,
    Pending,
}

impl TxType {
    /// The numeric code of the kind in the binary format.
    pub open spec fn code(self) -> u8 {
        match self {
            TxType::Deposit => 0,
            TxType::Transfer => 1,
            TxType::Withdrawal => 2,
        }
    }

    /// The kind that a numeric code stands for.
    pub open spec fn from_code(value: u8) -> Option<TxType> {
        if value == 0 {
            Some(TxType::Deposit)
        } else if value == 1 {
            Some(TxType::Transfer)
        } else if value == 2 {
            Some(TxType::Withdrawal)
        } else {
            None
        }
    }

    /// The upper-case label of the kind in the text formats.
    pub open spec fn label(self) -> Seq<char> {
        match self {
            TxType::Deposit => "DEPOSIT"@,
            TxType::Transfer => "TRANSFER"@,
            TxType::Withdrawal => "WITHDRAWAL"@,
        }
    }

    /// The kind that a text names, whatever its letter case.
    pub open spec fn parse(s: Seq<char>) -> Option<TxType> {
        let u = uppercase(s);
        if u == "DEPOSIT"@ {
            Some(TxType::Deposit)
        } else if u == "TRANSFER"@ {
            Some(TxType::Transfer)
        } else if u == "WITHDRAWAL"@ {
            Some(TxType::Withdrawal)
        } else {
            None
        }
    }

    /// Whether an amount of this kind is stored negative in canonical form.
    pub open spec fn is_debit(self) -> bool {
        self == TxType::Transfer || self == TxType::Withdrawal
    }

    /// The numeric code of the kind.
    pub fn as_u8(self) -> (r: u8)
        ensures
            r == self.code(),
    {
        match self {
            TxType::Deposit => 0,
            TxType::Transfer => 1,
            TxType::Withdrawal => 2,
        }
    }

    /// The kind that the numeric code stands for, if any.
    pub fn from_u8(value: u8) -> (r: Option<Self>)
        ensures
            r == Self::from_code(value),
    {
        if value == 0 {
            Some(TxType::Deposit)
        } else if value == 1 {
            Some(TxType::Transfer)
        } else if value == 2 {
            Some(TxType::Withdrawal)
        } else {
            None
        }
    }

    /// The label as a static string.
    pub fn as_str(&self) -> (s: &'static str)
        ensures
            s@ == self.label(),
    {
        match self {
            TxType::Deposit => "DEPOSIT",
            TxType::Transfer => "TRANSFER",
            TxType::Withdrawal => "WITHDRAWAL",
        }
    }

    /// The upper-case label of the kind.
    pub fn to_string(&self) -> (s: String)
        ensures
            s@ == self.label(),
    {
        self.as_str().to_owned()
    }

    /// Reads a kind from its label in any letter case.
    pub fn from_chars(v: &[char]) -> (r: Option<Self>)
        ensures
            r == Self::parse(v@),
    {
        let u = to_upper(v);
        if chars_eq_str(u.as_slice(), "DEPOSIT") {
            Some(TxType::Deposit)
        } else if chars_eq_str(u.as_slice(), "TRANSFER") {
            Some(TxType::Transfer)
        } else if chars_eq_str(u.as_slice(), "WITHDRAWAL") {
            Some(TxType::Withdrawal)
        } else {
            None
        }
    }

    /// Reads a kind from its label in any letter case.
    pub fn from_str(s: &str) -> (r: Option<Self>)
        ensures
            r == Self::parse(s@),
    {
        let v = str_to_chars(s);
        Self::from_chars(v.as_slice())
    }
}

impl TxStatus {
    /// The numeric code of the status in the binary format.
    pub open spec fn code(self) -> u8 {
        match self {
            TxStatus::Success => 0,
            TxStatus::Failure => 1,
            TxStatus::Pending => 2,
        }
    }

    /// The status that a numeric code stands for.
    pub open spec fn from_code(value: u8) -> Option<TxStatus> {
        if value == 0 {
            Some(TxStatus::Success)
        } else if value == 1 {
            Some(TxStatus::Failure)
        } else if value == 2 {
            Some(TxStatus::Pending)
        } else {
            None
        }
    }

    /// The upper-case label of the status in the text formats.
    pub open spec fn label(self) -> Seq<char> {
        match self {
            TxStatus::Success => "SUCCESS"@,
            TxStatus::Failure => "FAILURE"@,
            TxStatus::Pending => "PENDING"@,
        }
    }

    /// The status that a text names, whatever its letter case.
    pub open spec fn parse(s: Seq<char>) -> Option<TxStatus> {
        let u = uppercase(s);
        if u == "SUCCESS"@ {
            Some(TxStatus::Success)
        } else if u == "FAILURE"@ {
            Some(TxStatus::Failure)
        } else if u == "PENDING"@ {
            Some(TxStatus::Pending)
        } else {
            None
        }
    }

    /// The numeric code of the status.
    pub fn as_u8(self) -> (r: u8)
        ensures
            r == self.code(),
    {
        match self {
            TxStatus::Success => 0,
            TxStatus::Failure => 1,
            TxStatus::Pending => 2,
        }
    }

    /// The status that the numeric code stands for, if any.
    pub fn from_u8(value: u8) -> (r: Option<Self>)
        ensures
            r == Self::from_code(value),
    {
        if value == 0 {
            Some(TxStatus::Success)
        } else if value == 1 {
            Some(TxStatus::Failure)
        } else if value == 2 {
            Some(TxStatus::Pending)
        } else {
            None
        }
    }

    /// The label as a static string.
    pub fn as_str(&self) -> (s: &'static str)
        ensures
            s@ == self.label(),
    {
        match self {
            TxStatus::Success => "SUCCESS",
            TxStatus::Failure => "FAILURE",
            TxStatus::Pending => "PENDING",
        }
    }

    /// The upper-case label of the status.
    pub fn to_string(&self) -> (s: String)
        ensures
            s@ == self.label(),
    {
        self.as_str().to_owned()
    }

    /// Reads a status from its label in any letter case.
    pub fn from_chars(v: &[char]) -> (r: Option<Self>)
        ensures
            r == Self::parse(v@),
    {
        let u = to_upper(v);
        if chars_eq_str(u.as_slice(), "SUCCESS") {
            Some(TxStatus::Success)
        } else if chars_eq_str(u.as_slice(), "FAILURE") {
            Some(TxStatus::Failure)
        } else if chars_eq_str(u.as_slice(), "PENDING") {
            Some(TxStatus::Pending)
        } else {
            None
        }
    }

    /// Reads a status from its label in any letter case.
    pub fn from_str(s: &str) -> (r: Option<Self>)
        ensures
            r == Self::parse(s@),
    {
        let v = str_to_chars(s);
        Self::from_chars(v.as_slice())
    }
}

/// The canonical transaction: the one record type into which every format is
/// read and from which every format is written.
#[derive(Debug, Clone, PartialEq)]
pub struct YPBankTransaction {
    pub tx_id: u64,
    pub tx_type: TxType,
    pub from_user_id: u64,
    pub to_user_id: u64,
    /// Signed amount: deposits are not negative, transfers and withdrawals
    /// are not positive.
    pub amount: i64,
    pub timestamp: u64,
    pub status: TxStatus,
    pub description: Option<String>,
}

/// A record of the CSV format: the amount is a magnitude, and the
/// description is always present.
#[derive(Debug, Clone, PartialEq)]
pub struct YPBankCsvFormat {
    pub tx_id: u64,
    pub tx_type: TxType,
    pub from_user_id: u64,
    pub to_user_id: u64,
    pub amount: u64,
    pub timestamp: u64,
    pub status: TxStatus,
    pub description: String,
}

/// A record of the text-block format: the amount is a magnitude, and the
/// description is always present.
#[derive(Debug, Clone, PartialEq)]
pub struct YPBankTextFormat {
    pub tx_id: u64,
    pub tx_type: TxType,
    pub from_user_id: u64,
    pub to_user_id: u64,
    pub amount: u64,
    pub timestamp: u64,
    pub status: TxStatus,
    pub description: String,
}

/// A record of the binary format: the amount is signed as stored.
#[derive(Debug, Clone, PartialEq)]
pub struct YPBankBinFormat {
    pub tx_id: u64,
    pub tx_type: TxType,
    pub from_user_id: u64,
    pub to_user_id: u64,
    pub amount: i64,
    pub timestamp: u64,
    pub status: TxStatus,
    /// Length in bytes of the UTF-8 description that follows.
    pub desc_len: u32,
    /// The description; absent where `desc_len` is 0.
    pub description: Option<String>,
}

/// The mathematical value of a canonical transaction.
pub ghost struct TransactionView {
    pub tx_id: u64,
    pub tx_type: TxType,
    pub from_user_id: u64,
    pub to_user_id: u64,
    pub amount: i64,
    pub timestamp: u64,
    pub status: TxStatus,
    pub description: Option<Seq<char>>,
}

/// The mathematical value of a CSV or text-block record.
pub ghost struct RecordView {
    pub tx_id: u64,
    pub tx_type: TxType,
    pub from_user_id: u64,
    pub to_user_id: u64,
    pub amount: u64,
    pub timestamp: u64,
    pub status: TxStatus,
    pub description: Seq<char>,
}

/// The mathematical value of a binary record.
pub ghost struct BinRecordView {
    pub tx_id: u64,
    pub tx_type: TxType,
    pub from_user_id: u64,
    pub to_user_id: u64,
    pub amount: i64,
    pub timestamp: u64,
    pub status: TxStatus,
    pub desc_len: u32,
    pub description: Option<Seq<char>>,
}

/// The character sequence of an optional string.
pub open spec fn option_text(s: Option<String>) -> Option<Seq<char>> {
    match s {
        Some(t) => Some(t@),
        None => None,
    }
}

impl View for YPBankTransaction {
    type V = TransactionView;

    open spec fn view(&self) -> TransactionView {
        TransactionView {
            tx_id: self.tx_id,
            tx_type: self.tx_type,
            from_user_id: self.from_user_id,
            to_user_id: self.to_user_id,
            amount: self.amount,
            timestamp: self.timestamp,
            status: self.status,
            description: option_text(self.description),
        }
    }
}

impl View for YPBankCsvFormat {
    type V = RecordView;

    open spec fn view(&self) -> RecordView {
        RecordView {
            tx_id: self.tx_id,
            tx_type: self.tx_type,
            from_user_id: self.from_user_id,
            to_user_id: self.to_user_id,
            amount: self.amount,
            timestamp: self.timestamp,
            status: self.status,
            description: self.description@,
        }
    }
}

impl View for YPBankTextFormat {
    type V = RecordView;

    open spec fn view(&self) -> RecordView {
        RecordView {
            tx_id: self.tx_id,
            tx_type: self.tx_type,
            from_user_id: self.from_user_id,
            to_user_id: self.to_user_id,
            amount: self.amount,
            timestamp: self.timestamp,
            status: self.status,
            description: self.description@,
        }
    }
}

impl View for YPBankBinFormat {
    type V = BinRecordView;

    open spec fn view(&self) -> BinRecordView {
        BinRecordView {
            tx_id: self.tx_id,
            tx_type: self.tx_type,
            from_user_id: self.from_user_id,
            to_user_id: self.to_user_id,
            amount: self.amount,
            timestamp: self.timestamp,
            status: self.status,
            desc_len: self.desc_len,
            description: option_text(self.description),
        }
    }
}

/// The mathematical values of a sequence of records.
pub open spec fn record_views<T: View>(records: Seq<T>) -> Seq<T::V> {
    Seq::new(records.len(), |i: int| records[i]@)
}

/// Whether no description of the records `rs` holds a line feed, so that
/// the line-based formats can carry each on one line.
pub open spec fn no_line_feeds(rs: Seq<RecordView>) -> bool {
    forall|i: int| 0 <= i < rs.len() ==> has_no_line_feed(#[trigger] rs[i].description)
}

/// The canonical amount of a stored amount: transfers and withdrawals are
/// made negative, every other amount stays as stored.
pub open spec fn canonical_amount(tx_type: TxType, amount: i64) -> i64 {
    if tx_type.is_debit() && amount > 0 {
        (-amount) as i64
    } else {
        amount
    }
}

/// The magnitude of a signed amount.
pub open spec fn magnitude(amount: i64) -> u64 {
    if amount >= 0 {
        amount as u64
    } else {
        (-amount) as u64
    }
}

impl RecordView {
    /// The canonical transaction of a CSV or text record, where the amount
    /// fits the signed range.
    pub open spec fn to_transaction(self) -> Option<TransactionView> {
        if self.amount > i64::MAX {
            None
        } else {
            Some(
                TransactionView {
                    tx_id: self.tx_id,
                    tx_type: self.tx_type,
                    from_user_id: self.from_user_id,
                    to_user_id: self.to_user_id,
                    amount: canonical_amount(self.tx_type, self.amount as i64),
                    timestamp: self.timestamp,
                    status: self.status,
                    description: Some(self.description),
                },
            )
        }
    }
}

impl BinRecordView {
    /// The canonical transaction of a binary record.
    pub open spec fn to_transaction(self) -> TransactionView {
        TransactionView {
            tx_id: self.tx_id,
            tx_type: self.tx_type,
            from_user_id: self.from_user_id,
            to_user_id: self.to_user_id,
            amount: canonical_amount(self.tx_type, self.amount),
            timestamp: self.timestamp,
            status: self.status,
            description: self.description,
        }
    }
}

impl TransactionView {
    /// The CSV or text record of a canonical transaction: the amount loses
    /// its sign, and an absent description becomes the empty text.
    pub open spec fn to_record(self) -> RecordView {
        RecordView {
            tx_id: self.tx_id,
            tx_type: self.tx_type,
            from_user_id: self.from_user_id,
            to_user_id: self.to_user_id,
            amount: magnitude(self.amount),
            timestamp: self.timestamp,
            status: self.status,
            description: match self.description {
                Some(d) => d,
                None => Seq::empty(),
            },
        }
    }

    /// Length in bytes of the UTF-8 form of the description; 0 where there
    /// is none.
    pub open spec fn description_bytes(self) -> nat {
        match self.description {
            Some(d) => encode_utf8(d).len(),
            None => 0,
        }
    }

    /// The binary record of a canonical transaction, where the description's
    /// byte length fits 32 bits.
    pub open spec fn to_bin(self) -> Option<BinRecordView> {
        if self.description_bytes() > u32::MAX {
            None
        } else {
            Some(
                BinRecordView {
                    tx_id: self.tx_id,
                    tx_type: self.tx_type,
                    from_user_id: self.from_user_id,
                    to_user_id: self.to_user_id,
                    amount: self.amount,
                    timestamp: self.timestamp,
                    status: self.status,
                    desc_len: self.description_bytes() as u32,
                    description: self.description,
                },
            )
        }
    }

    /// Whether the amount's sign is the one its kind calls for: deposits not
    /// negative, transfers and withdrawals not positive.
    pub open spec fn sign_normal(self) -> bool {
        if self.tx_type.is_debit() {
            self.amount <= 0
        } else {
            self.amount >= 0
        }
    }
}

/// The error of a magnitude that does not fit the signed amount.
pub open spec fn amount_overflow(amount: u64) -> ParseErrorView {
    ParseErrorView::OverflowSize {
        from: "u64"@,
        to: "i64"@,
        description: overflow_description(decimal(amount as nat), "i64"@),
    }
}

/// The error of a description whose byte length does not fit 32 bits.
pub open spec fn description_overflow(len: nat) -> ParseErrorView {
    ParseErrorView::OverflowSize {
        from: "usize"@,
        to: "u32"@,
        description: overflow_description(decimal(len), "u32"@),
    }
}

/// The magnitude of `amount`.
pub fn unsigned_abs(amount: i64) -> (r: u64)
    ensures
        r == magnitude(amount),
{
    if amount >= 0 {
        amount as u64
    } else if amount == i64::MIN {
        9223372036854775808u64
    } else {
        (-amount) as u64
    }
}

/// The signed amount that a record of kind `tx_type` with magnitude `amount`
/// has in canonical form, or the overflow error.
pub fn signed_amount(tx_type: TxType, amount: u64) -> (r: Result<i64, ParseError>)
    ensures
        match r {
            Ok(a) => amount <= i64::MAX && a == canonical_amount(tx_type, amount as i64),
            Err(e) => amount > i64::MAX && e@ == amount_overflow(amount),
        },
{
    if amount > 9223372036854775807u64 {
        let value = chars_to_string(decimal_chars(amount).as_slice());
        return Err(ParseError::over_flow_size("u64", "i64", value.as_str()));
    }
    let a: i64 = amount as i64;
    Ok(normalize_sign(tx_type, a))
}

/// The canonical amount of an amount stored with kind `tx_type`.
pub fn normalize_sign(tx_type: TxType, amount: i64) -> (r: i64)
    ensures
        r == canonical_amount(tx_type, amount),
{
    match tx_type {
        TxType::Deposit => amount,
        _ => if amount > 0 {
            -amount
        } else {
            amount
        },
    }
}

impl YPBankTransaction {
    /// The canonical transaction of a CSV record. Fails with an overflow
    /// error exactly where the magnitude exceeds the signed range.
    pub fn from_csv(source: YPBankCsvFormat) -> (r: Result<Self, ParseError>)
        ensures
            match r {
                Ok(t) => source@.to_transaction() == Some(t@),
                Err(e) => source@.to_transaction() is None && e@ == amount_overflow(source.amount),
            },
    {
        let amount: i64 = match signed_amount(source.tx_type, source.amount) {
            Ok(a) => a,
            Err(e) => {
                return Err(e);
            },
        };
        Ok(
            YPBankTransaction {
                tx_id: source.tx_id,
                tx_type: source.tx_type,
                from_user_id: source.from_user_id,
                to_user_id: source.to_user_id,
                amount,
                timestamp: source.timestamp,
                status: source.status,
                description: Some(source.description),
            },
        )
    }

    /// The canonical transaction of a text record. Fails with an overflow
    /// error exactly where the magnitude exceeds the signed range.
    pub fn from_text(source: YPBankTextFormat) -> (r: Result<Self, ParseError>)
        ensures
            match r {
                Ok(t) => source@.to_transaction() == Some(t@),
                Err(e) => source@.to_transaction() is None && e@ == amount_overflow(source.amount),
            },
    {
        let amount: i64 = match signed_amount(source.tx_type, source.amount) {
            Ok(a) => a,
            Err(e) => {
                return Err(e);
            },
        };
        Ok(
            YPBankTransaction {
                tx_id: source.tx_id,
                tx_type: source.tx_type,
                from_user_id: source.from_user_id,
                to_user_id: source.to_user_id,
                amount,
                timestamp: source.timestamp,
                status: source.status,
                description: Some(source.description),
            },
        )
    }

    /// The canonical transaction of a binary record.
    pub fn from_bin(source: YPBankBinFormat) -> (t: Self)
        ensures
            t@ == source@.to_transaction(),
    {
        YPBankTransaction {
            tx_id: source.tx_id,
            tx_type: source.tx_type,
            from_user_id: source.from_user_id,
            to_user_id: source.to_user_id,
            amount: normalize_sign(source.tx_type, source.amount),
            timestamp: source.timestamp,
            status: source.status,
            description: source.description,
        }
    }

    /// The CSV record of the transaction.
    pub fn into_csv(self) -> (r: YPBankCsvFormat)
        ensures
            r@ == self@.to_record(),
    {
        YPBankCsvFormat {
            tx_id: self.tx_id,
            tx_type: self.tx_type,
            from_user_id: self.from_user_id,
            to_user_id: self.to_user_id,
            amount: unsigned_abs(self.amount),
            timestamp: self.timestamp,
            status: self.status,
            description: match self.description {
                Some(d) => d,
                None => String::new(),
            },
        }
    }

    /// The text record of the transaction.
    pub fn into_text(self) -> (r: YPBankTextFormat)
        ensures
            r@ == self@.to_record(),
    {
        YPBankTextFormat {
            tx_id: self.tx_id,
            tx_type: self.tx_type,
            from_user_id: self.from_user_id,
            to_user_id: self.to_user_id,
            amount: unsigned_abs(self.amount),
            timestamp: self.timestamp,
            status: self.status,
            description: match self.description {
                Some(d) => d,
                None => String::new(),
            },
        }
    }

    /// The binary record of the transaction. Fails with an overflow error
    /// exactly where the description's byte length exceeds 32 bits.
    pub fn into_bin(self) -> (r: Result<YPBankBinFormat, ParseError>)
        ensures
            match r {
                Ok(b) => self@.to_bin() == Some(b@),
                Err(e) => self@.to_bin() is None && e@ == description_overflow(
                    self@.description_bytes(),
                ),
            },
    {
        let len: usize = match &self.description {
            Some(d) => d.as_str().as_bytes().len(),
            None => 0,
        };
        if len > 4294967295usize {
            let value = chars_to_string(decimal_chars(len as u64).as_slice());
            return Err(ParseError::over_flow_size("usize", "u32", value.as_str()));
        }
        Ok(
            YPBankBinFormat {
                tx_id: self.tx_id,
                tx_type: self.tx_type,
                from_user_id: self.from_user_id,
                to_user_id: self.to_user_id,
                amount: self.amount,
                timestamp: self.timestamp,
                status: self.status,
                desc_len: len as u32,
                description: self.description,
            },
        )
    }
}

/// The number stored under `key`, where the field is present and its text
/// is a `u64`.
pub open spec fn field_u64(m: Map<Seq<char>, Seq<char>>, key: Seq<char>) -> Option<u64> {
    if m.contains_key(key) {
        parse_u64(m[key])
    } else {
        None
    }
}

/// The kind stored under `TX_TYPE`, where the field is present and names one.
pub open spec fn field_tx_type(m: Map<Seq<char>, Seq<char>>) -> Option<TxType> {
    if m.contains_key("TX_TYPE"@) {
        TxType::parse(m["TX_TYPE"@])
    } else {
        None
    }
}

/// The status stored under `STATUS`, where the field is present and names one.
pub open spec fn field_status(m: Map<Seq<char>, Seq<char>>) -> Option<TxStatus> {
    if m.contains_key("STATUS"@) {
        TxStatus::parse(m["STATUS"@])
    } else {
        None
    }
}

/// The record that a field map describes, or the name of the first field, in
/// the order of the record's fields, that is absent or does not parse.
pub open spec fn record_from_fields(m: Map<Seq<char>, Seq<char>>) -> Result<RecordView, Seq<char>> {
    if field_u64(m, "TX_ID"@) is None {
        Err("TX_ID"@)
    } else if field_tx_type(m) is None {
        Err("TX_TYPE"@)
    } else if field_u64(m, "FROM_USER_ID"@) is None {
        Err("FROM_USER_ID"@)
    } else if field_u64(m, "TO_USER_ID"@) is None {
        Err("TO_USER_ID"@)
    } else if field_u64(m, "AMOUNT"@) is None {
        Err("AMOUNT"@)
    } else if field_u64(m, "TIMESTAMP"@) is None {
        Err("TIMESTAMP"@)
    } else if field_status(m) is None {
        Err("STATUS"@)
    } else if !m.contains_key("DESCRIPTION"@) {
        Err("DESCRIPTION"@)
    } else {
        Ok(
            RecordView {
                tx_id: field_u64(m, "TX_ID"@)->0,
                tx_type: field_tx_type(m)->0,
                from_user_id: field_u64(m, "FROM_USER_ID"@)->0,
                to_user_id: field_u64(m, "TO_USER_ID"@)->0,
                amount: field_u64(m, "AMOUNT"@)->0,
                timestamp: field_u64(m, "TIMESTAMP"@)->0,
                status: field_status(m)->0,
                description: m["DESCRIPTION"@],
            },
        )
    }
}

/// Whether `r` is what building a record from the field map `m` yields: the
/// record, or the error that names the first unusable field.
pub open spec fn built_from_fields<R: View<V = RecordView>>(
    r: Result<R, ParseError>,
    m: Map<Seq<char>, Seq<char>>,
) -> bool {
    match r {
        Ok(rec) => record_from_fields(m) == Ok::<RecordView, Seq<char>>(rec@),
        Err(e) => record_from_fields(m) is Err && e@ == (ParseErrorView::IncorrectField {
            key: record_from_fields(m)->Err_0,
        }),
    }
}

/// The error that names `key` as absent or malformed.
fn incorrect_field(key: &str) -> (e: ParseError)
    ensures
        e@ == (ParseErrorView::IncorrectField { key: key@ }),
{
    ParseError::IncorrectField { key: key.to_owned() }
}

/// Reads the number stored under `key`.
fn read_u64_field(fields: &FieldMap, key: &str) -> (r: Result<u64, ParseError>)
    ensures
        match r {
            Ok(n) => field_u64(fields@, key@) == Some(n),
            Err(e) => field_u64(fields@, key@) is None && e@ == (ParseErrorView::IncorrectField {
                key: key@,
            }),
        },
{
    match fields.get(key) {
        Some(text) => {
            let chars = str_to_chars(text.as_str());
            match parse_u64_chars(chars.as_slice()) {
                Some(n) => Ok(n),
                None => Err(incorrect_field(key)),
            }
        },
        None => Err(incorrect_field(key)),
    }
}

/// Reads the kind stored under `TX_TYPE`.
fn read_tx_type_field(fields: &FieldMap) -> (r: Result<TxType, ParseError>)
    ensures
        match r {
            Ok(t) => field_tx_type(fields@) == Some(t),
            Err(e) => field_tx_type(fields@) is None && e@ == (ParseErrorView::IncorrectField {
                key: "TX_TYPE"@,
            }),
        },
{
    match fields.get("TX_TYPE") {
        Some(text) => match TxType::from_str(text.as_str()) {
            Some(t) => Ok(t),
            None => Err(incorrect_field("TX_TYPE")),
        },
        None => Err(incorrect_field("TX_TYPE")),
    }
}

/// Reads the status stored under `STATUS`.
fn read_status_field(fields: &FieldMap) -> (r: Result<TxStatus, ParseError>)
    ensures
        match r {
            Ok(s) => field_status(fields@) == Some(s),
            Err(e) => field_status(fields@) is None && e@ == (ParseErrorView::IncorrectField {
                key: "STATUS"@,
            }),
        },
{
    match fields.get("STATUS") {
        Some(text) => match TxStatus::from_str(text.as_str()) {
            Some(s) => Ok(s),
            None => Err(incorrect_field("STATUS")),
        },
        None => Err(incorrect_field("STATUS")),
    }
}

impl YPBankCsvFormat {
    /// Builds a record from field texts by field name. Fails with
    /// `IncorrectField` naming the first field, in the record's field order,
    /// that is absent or does not parse.
    pub fn new_from_map(fields: &FieldMap) -> (r: Result<Self, ParseError>)
        ensures
            built_from_fields(r, fields@),
    {
        let tx_id: u64 = match read_u64_field(fields, "TX_ID") {
            Ok(v) => v,
            Err(e) => {
                return Err(e);
            },
        };
        let tx_type = match read_tx_type_field(fields) {
            Ok(v) => v,
            Err(e) => {
                return Err(e);
            },
        };
        let from_user_id: u64 = match read_u64_field(fields, "FROM_USER_ID") {
            Ok(v) => v,
            Err(e) => {
                return Err(e);
            },
        };
        let to_user_id: u64 = match read_u64_field(fields, "TO_USER_ID") {
            Ok(v) => v,
            Err(e) => {
                return Err(e);
            },
        };
        let amount: u64 = match read_u64_field(fields, "AMOUNT") {
            Ok(v) => v,
            Err(e) => {
                return Err(e);
            },
        };
        let timestamp: u64 = match read_u64_field(fields, "TIMESTAMP") {
            Ok(v) => v,
            Err(e) => {
                return Err(e);
            },
        };
        let status = match read_status_field(fields) {
            Ok(v) => v,
            Err(e) => {
                return Err(e);
            },
        };
        let description: String = match fields.get("DESCRIPTION") {
            Some(text) => text.clone(),
            None => {
                return Err(incorrect_field("DESCRIPTION"));
            },
        };
        Ok(
            YPBankCsvFormat {
                tx_id,
                tx_type,
                from_user_id,
                to_user_id,
                amount,
                timestamp,
                status,
                description,
            },
        )
    }
}

impl YPBankTextFormat {
    /// Builds a record from field texts by field name. Fails with
    /// `IncorrectField` naming the first field, in the record's field order,
    /// that is absent or does not parse.
    pub fn new_from_map(fields_map: FieldMap) -> (r: Result<Self, ParseError>)
        ensures
            built_from_fields(r, fields_map@),
    {
        match YPBankCsvFormat::new_from_map(&fields_map) {
            Ok(rec) => Ok(
                YPBankTextFormat {
                    tx_id: rec.tx_id,
                    tx_type: rec.tx_type,
                    from_user_id: rec.from_user_id,
                    to_user_id: rec.to_user_id,
                    amount: rec.amount,
                    timestamp: rec.timestamp,
                    status: rec.status,
                    description: rec.description,
                },
            ),
            Err(e) => Err(e),
        }
    }
}

/// Sign normalization: a magnitude within the signed range becomes a
/// canonical amount of the same magnitude, not negative for a deposit and
/// not positive for a transfer or a withdrawal, and converting back yields
/// the record that was converted.
pub proof fn lemma_sign_normalization(r: RecordView)
    requires
        r.amount <= i64::MAX,
    ensures
        r.to_transaction() is Some,
        r.tx_type == TxType::Deposit ==> r.to_transaction()->0.amount == r.amount,
        r.tx_type.is_debit() ==> r.to_transaction()->0.amount == -r.amount,
        r.to_transaction()->0.sign_normal(),
        r.to_transaction()->0.to_record() == r,
{
}

/// A canonical transaction that has a description, an amount of the sign
/// its kind calls for, and a magnitude within the signed range is what its
/// CSV or text record converts back to.
pub proof fn lemma_record_conversion_roundtrip(t: TransactionView)
    requires
        t.sign_normal(),
        t.amount != i64::MIN,
        t.description is Some,
    ensures
        t.to_record().to_transaction() == Some(t),
{
}

/// A canonical transaction whose transfer or withdrawal amount is not
/// positive is what its binary record converts back to.
pub proof fn lemma_bin_conversion_roundtrip(t: TransactionView)
    requires
        t.tx_type.is_debit() ==> t.amount <= 0,
        t.to_bin() is Some,
    ensures
        t.to_bin()->0.to_transaction() == t,
{
}

/// A code names the kind it was made from.
pub proof fn lemma_tx_type_code_roundtrip(t: TxType)
    ensures
        TxType::from_code(t.code()) == Some(t),
{
}

/// A code names the status it was made from.
pub proof fn lemma_tx_status_code_roundtrip(s: TxStatus)
    ensures
        TxStatus::from_code(s.code()) == Some(s),
{
}

/// A label is upper-case ASCII text, and names the kind it was made from.
pub proof fn lemma_tx_type_label_roundtrip(t: TxType)
    ensures
        is_upper_ascii(t.label()),
        is_upper_word(t.label()),
        TxType::parse(t.label()) == Some(t),
{
    reveal_strlit("DEPOSIT");
    reveal_strlit("TRANSFER");
    reveal_strlit("WITHDRAWAL");
    lemma_uppercase_fixed(t.label());
}

/// A label is upper-case ASCII text, and names the status it was made from.
pub proof fn lemma_tx_status_label_roundtrip(s: TxStatus)
    ensures
        is_upper_ascii(s.label()),
        is_upper_word(s.label()),
        TxStatus::parse(s.label()) == Some(s),
{
    reveal_strlit("SUCCESS");
    reveal_strlit("FAILURE");
    reveal_strlit("PENDING");
    lemma_uppercase_fixed(s.label());
    assert("SUCCESS"@[0] == 'S');
    assert("FAILURE"@[0] == 'F');
    assert("PENDING"@[0] == 'P');
}

} // verus!
