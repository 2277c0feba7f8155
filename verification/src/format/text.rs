//! The text-block codec: blocks of `KEY: value` lines under a title line.
//! A blank line or the next title line ends a block.

use crate::decimal::{decimal, decimal_chars, is_digit, push_decimal};
use crate::errors::{ParseError, ParseErrorView};
use crate::fields::FieldMap;
use crate::format::csv::field_names;
use crate::format::tools::{
    escape_quotes, escaped, is_empty_line, is_hash_line, is_hash_marker, split_into_key_value,
    split_key_value,
};
use crate::models::{
    built_from_fields, option_text, record_from_fields, record_views, RecordView, YPBankCsvFormat,
    YPBankTextFormat,
};
use crate::strings::{
    chars_eq_str, chars_to_string, each_then, is_blank, is_upper_word, lemma_each_then_push, lines,
    push_chars, push_str, split_lines, str_to_chars, texts, to_upper, uppercase, views,
};
use crate::traits::YPBankIO;
use regex::Regex;
use vstd::prelude::*;

verus! {

/// The regular expression of a title line: `#`, the word `Record`, a number,
/// and a type token in parentheses, which the group `tx_type` captures.
pub const TITLE_PATTERN: &'static str = "^#\\s*Record\\s+\\d+\\s*\\((?P<tx_type>[^)]+)\\)$";

/// The name of the group of [`TITLE_PATTERN`] that captures the type token.
pub const TITLE_GROUP: &'static str = "tx_type";

/// Title numbers are the transaction id modulo this number.
pub const TITLE_MODULUS: u64 = 1000000000000000;

/// What the group `tx_type` of the title pattern captures in `line`, if the
/// pattern matches it.
pub uninterp spec fn title_capture(line: Seq<char>) -> Option<Seq<char>>;

/// Number of ASCII digits at the head of `s`.
pub open spec fn digit_prefix(s: Seq<char>) -> nat
    decreases s.len(),
{
    if s.len() > 0 && is_digit(s[0]) {
        1 + digit_prefix(s.drop_first())
    } else {
        0
    }
}

/// The type token of a title line in its plain form, `# Record `, ASCII
/// digits, a space, and a word of upper-case letters in parentheses.
pub open spec fn plain_title_token(line: Seq<char>) -> Option<Seq<char>> {
    let head = "# Record "@;
    if line.len() >= head.len() && line.take(head.len() as int) == head {
        let rest = line.skip(head.len() as int);
        let d = digit_prefix(rest) as int;
        let after = rest.skip(d);
        if d > 0 && after.len() >= 4 && after[0] == ' ' && after[1] == '(' && after.last() == ')'
            && is_upper_word(after.subrange(2, after.len() - 1)) {
            Some(after.subrange(2, after.len() - 1))
        } else {
            None
        }
    } else {
        None
    }
}

/// The type token of a title line: that of the plain form where the line has
/// it, and otherwise what the title pattern captures.
pub open spec fn title_token(line: Seq<char>) -> Option<Seq<char>> {
    match plain_title_token(line) {
        Some(token) => Some(token),
        None => title_capture(line),
    }
}

/// Calls `regex::Regex::new` on the title pattern and `Regex::captures` on
/// `line`, and takes the text of the named group with `Captures::name`.
///
/// The contract names the result, and claims of it what the syntax of the
/// pattern shows: on a line of the plain form, `# Record `, ASCII digits, a
/// space, and a word of upper-case letters in parentheses, the pattern
/// matches and the group holds that word. The title pattern is valid, so
/// compiling it does not fail.
#[verifier::external_body]
fn capture_title(pattern: &str, group: &str, line: &str) -> (token: Option<String>)
    requires
        pattern@ == TITLE_PATTERN@,
        group@ == TITLE_GROUP@,
    ensures
        option_text(token) == title_capture(line@),
        plain_title_token(line@) is Some ==> option_text(token) == plain_title_token(line@),
{
    let re = Regex::new(pattern).ok()?;
    let caps = re.captures(line)?;
    caps.name(group).map(|m| m.as_str().to_string())
}

/// A structural error at a line of the text.
pub open spec fn text_error(message: Seq<char>, line: int) -> ParseErrorView {
    ParseErrorView::ParseError { message, line: line as usize, column: 0 }
}

/// Whether `key`, in upper case, is the name of a field.
pub open spec fn is_field_name(key: Seq<char>) -> bool {
    let u = uppercase(key);
    exists|i: int| 0 <= i < field_names().len() && field_names()[i] == u
}

/// The fields of the lines of `block` from the `j`-th on, added to the
/// fields `m` of the lines before, or the first error. Every line must be a
/// `key: value` line whose key names a field that no earlier line gave.
/// `first_line` is the number of the block's title line.
pub open spec fn collect_fields(
    block: Seq<Seq<char>>,
    j: int,
    first_line: int,
    m: Map<Seq<char>, Seq<char>>,
) -> Result<Map<Seq<char>, Seq<char>>, ParseErrorView>
    decreases block.len() - j,
{
    if j < 1 || j >= block.len() {
        Ok(m)
    } else {
        match split_key_value(block[j]) {
            None => Err(text_error("invalid line format: "@ + block[j], first_line + j)),
            Some((key, value)) => if !is_field_name(key) {
                Err(
                    text_error(
                        "unknown key "@ + key + " in line: "@ + block[j],
                        first_line + j,
                    ),
                )
            } else if m.contains_key(key) {
                Err(
                    text_error(
                        "duplicate key "@ + key + " in line: "@ + block[j],
                        first_line + j,
                    ),
                )
            } else {
                collect_fields(block, j + 1, first_line, m.insert(key, value))
            },
        }
    }
}

/// The record of a block, or its error. `block[0]` stands for the title
/// line; `end_line` is the number of the line after the block's last.
pub open spec fn parse_block_spec(block: Seq<Seq<char>>, end_line: int) -> Result<
    RecordView,
    ParseErrorView,
> {
    match collect_fields(block, 1, end_line - block.len(), Map::empty()) {
        Err(e) => Err(e),
        Ok(m) => match record_from_fields(m) {
            Ok(r) => Ok(r),
            Err(key) => Err(ParseErrorView::IncorrectField { key }),
        },
    }
}

/// The error of a title line that the title pattern does not match.
pub open spec fn title_error(line: Seq<char>, number: int) -> ParseErrorView {
    text_error("invalid title line: "@ + line, number)
}

/// The records of the lines `all` from the `i`-th on, after the records
/// `done` and with the lines `block` of the block that is being read, or the
/// first error.
///
/// A line that starts with `#` must be a title line and opens a block. A
/// blank line, the next title line and the end of the text close the open
/// block, which must then parse. Any other line belongs to the open block,
/// and is an error where no block is open.
pub open spec fn scan_blocks(
    all: Seq<Seq<char>>,
    i: int,
    block: Seq<Seq<char>>,
    done: Seq<RecordView>,
) -> Result<Seq<RecordView>, ParseErrorView>
    decreases all.len() - i,
{
    if i < 0 || i >= all.len() {
        if block.len() == 0 {
            Ok(done)
        } else {
            match parse_block_spec(block, all.len() as int) {
                Ok(r) => Ok(done.push(r)),
                Err(e) => Err(e),
            }
        }
    } else if is_blank(all[i]) {
        if block.len() == 0 {
            scan_blocks(all, i + 1, block, done)
        } else {
            match parse_block_spec(block, i) {
                Ok(r) => scan_blocks(all, i + 1, Seq::empty(), done.push(r)),
                Err(e) => Err(e),
            }
        }
    } else if is_hash_line(all[i]) {
        if block.len() == 0 {
            match title_token(all[i]) {
                Some(token) => scan_blocks(all, i + 1, seq![token], done),
                None => Err(title_error(all[i], i)),
            }
        } else {
            match parse_block_spec(block, i) {
                Err(e) => Err(e),
                Ok(r) => match title_token(all[i]) {
                    Some(token) => scan_blocks(all, i + 1, seq![token], done.push(r)),
                    None => Err(title_error(all[i], i)),
                },
            }
        }
    } else if block.len() == 0 {
        Err(text_error("invalid line: "@ + all[i], i + 1))
    } else {
        scan_blocks(all, i + 1, block.push(all[i]), done)
    }
}

/// The records of a text in the block format, or the first error.
pub open spec fn parse_blocks(text: Seq<char>) -> Result<Seq<RecordView>, ParseErrorView> {
    scan_blocks(lines(text), 0, Seq::empty(), Seq::empty())
}

/// The title line of a record: its id modulo 10^15, and its kind.
pub open spec fn block_title(r: RecordView) -> Seq<char> {
    "# Record "@ + decimal((r.tx_id % 1000000000000000) as nat) + " ("@ + r.tx_type.label() + ")"@
}

/// A `KEY: value` line.
pub open spec fn field_line(key: Seq<char>, value: Seq<char>) -> Seq<char> {
    key + ": "@ + value
}

/// The `KEY: value` lines of a record, in the order of the fields, with
/// `description` between the quotes of the last.
pub open spec fn field_lines(r: RecordView, description: Seq<char>) -> Seq<Seq<char>> {
    seq![
        field_line("TX_ID"@, decimal(r.tx_id as nat)),
        field_line("TX_TYPE"@, r.tx_type.label()),
        field_line("FROM_USER_ID"@, decimal(r.from_user_id as nat)),
        field_line("TO_USER_ID"@, decimal(r.to_user_id as nat)),
        field_line("AMOUNT"@, decimal(r.amount as nat)),
        field_line("TIMESTAMP"@, decimal(r.timestamp as nat)),
        field_line("STATUS"@, r.status.label()),
        field_line("DESCRIPTION"@, "\""@ + description + "\""@),
    ]
}

/// The `KEY: value` lines of a record, each ended by a line feed.
pub open spec fn block_fields(r: RecordView, description: Seq<char>) -> Seq<char> {
    each_then(field_lines(r, description), "\n"@)
}

/// The block of a record: its title line and its field lines, with the
/// quotes of the description doubled.
pub open spec fn block_text(r: RecordView) -> Seq<char> {
    block_title(r) + "\n"@ + block_fields(r, escape_quotes(r.description))
}

/// The blocks of the records `rs`, each followed by a blank line.
pub open spec fn blocks_text(rs: Seq<RecordView>) -> Seq<char>
    decreases rs.len(),
{
    if rs.len() == 0 {
        Seq::empty()
    } else {
        blocks_text(rs.drop_last()) + block_text(rs.last()) + "\n"@
    }
}

/// Whether `r` is the outcome `expected`: the same record, or the same error.
pub open spec fn parsed_block_as(
    r: Result<YPBankTextFormat, ParseError>,
    expected: Result<RecordView, ParseErrorView>,
) -> bool {
    match r {
        Ok(rec) => expected == Ok::<RecordView, ParseErrorView>(rec@),
        Err(e) => expected == Err::<RecordView, ParseErrorView>(e@),
    }
}

/// A structural error at a line of the text.
fn text_parse_error(message: Vec<char>, line: usize) -> (e: ParseError)
    ensures
        e@ == text_error(message@, line as int),
{
    let text = chars_to_string(message.as_slice());
    ParseError::parse_error(text.as_str(), line, 0)
}

/// Whether `key`, in upper case, is the name of a field.
fn has_field(key: &[char]) -> (r: bool)
    ensures
        r == is_field_name(key@),
{
    let u = to_upper(key);
    let names = YPBankCsvFormat::fields();
    let mut i: usize = 0;
    while i < names.len()
        invariant
            i <= names.len(),
            names.len() == 8,
            u@ == uppercase(key@),
            forall|j: int| 0 <= j < 8 ==> (#[trigger] names@[j])@ == field_names()[j],
            forall|j: int| 0 <= j < i ==> field_names()[j] != u@,
        decreases names.len() - i,
    {
        if chars_eq_str(u.as_slice(), names[i]) {
            proof {
                assert(field_names()[i as int] == u@);
            }
            return true;
        }
        i += 1;
    }
    false
}

impl YPBankTextFormat {
    /// Whether `field`, in any letter case, is the name of a field.
    pub fn has_field_from_str(field: &str) -> (r: bool)
        ensures
            r == is_field_name(field@),
    {
        let chars = str_to_chars(field);
        has_field(chars.as_slice())
    }

    /// Parses a title line and returns its type token; `count_line` is the
    /// number of the line, which the error carries.
    pub fn parse_title(line: &str, count_line: usize) -> (r: Result<String, ParseError>)
        ensures
            match r {
                Ok(token) => title_token(line@) == Some(token@),
                Err(e) => title_token(line@) is None && e@ == title_error(
                    line@,
                    count_line as int,
                ),
            },
    {
        match capture_title(TITLE_PATTERN, TITLE_GROUP, line) {
            Some(token) => Ok(token),
            None => {
                let mut message: Vec<char> = Vec::new();
                push_str(&mut message, "invalid title line: ");
                push_str(&mut message, line);
                Err(text_parse_error(message, count_line))
            },
        }
    }

    /// Parses the lines of one block. `block[0]` stands for the title line;
    /// `end_line` is the number of the line after the block's last.
    pub fn parse_block(block: &[String], end_line: usize) -> (r: Result<
        YPBankTextFormat,
        ParseError,
    >)
        requires
            block.len() <= end_line,
        ensures
            parsed_block_as(r, parse_block_spec(texts(block@), end_line as int)),
    {
        let ghost rows = texts(block@);
        let first_line: usize = end_line - block.len();
        let mut fields = FieldMap::new();
        let mut j: usize = 1;
        while j < block.len()
            invariant
                1 <= j,
                rows == texts(block@),
                first_line == end_line - block.len(),
                collect_fields(rows, 1, first_line as int, Map::empty()) == collect_fields(
                    rows,
                    j as int,
                    first_line as int,
                    fields@,
                ),
            decreases block.len() - j,
        {
            let line = str_to_chars(block[j].as_str());
            proof {
                assert(rows[j as int] == line@);
            }
            match split_into_key_value(line.as_slice()) {
                None => {
                    let mut message: Vec<char> = Vec::new();
                    push_str(&mut message, "invalid line format: ");
                    push_chars(&mut message, line.as_slice());
                    return Err(text_parse_error(message, first_line + j));
                },
                Some((key, value)) => {
                    if !has_field(key.as_slice()) {
                        let mut message: Vec<char> = Vec::new();
                        push_str(&mut message, "unknown key ");
                        push_chars(&mut message, key.as_slice());
                        push_str(&mut message, " in line: ");
                        push_chars(&mut message, line.as_slice());
                        return Err(text_parse_error(message, first_line + j));
                    }
                    let name = chars_to_string(key.as_slice());
                    if fields.contains_key(name.as_str()) {
                        let mut message: Vec<char> = Vec::new();
                        push_str(&mut message, "duplicate key ");
                        push_chars(&mut message, key.as_slice());
                        push_str(&mut message, " in line: ");
                        push_chars(&mut message, line.as_slice());
                        return Err(text_parse_error(message, first_line + j));
                    }
                    fields.insert(name, chars_to_string(value.as_slice()));
                },
            }
            j += 1;
        }
        let ghost m = fields@;
        let r = YPBankTextFormat::new_from_map(fields);
        proof {
            assert(built_from_fields(r, m));
        }
        r
    }

    /// Appends the title line of the record to `out`.
    fn push_title(&self, out: &mut Vec<char>)
        ensures
            final(out)@ == old(out)@ + block_title(self@),
    {
        let mut title: Vec<char> = Vec::new();
        push_str(&mut title, "# Record ");
        push_decimal(&mut title, self.tx_id % TITLE_MODULUS);
        push_str(&mut title, " (");
        push_str(&mut title, self.tx_type.as_str());
        push_str(&mut title, ")");
        proof {
            assert(title@ =~= block_title(self@));
        }
        push_chars(out, title.as_slice());
    }

    /// The title line of a record.
    pub fn make_title(records: &YPBankTextFormat) -> (title: String)
        ensures
            title@ == block_title(records@),
    {
        let mut out: Vec<char> = Vec::new();
        records.push_title(&mut out);
        chars_to_string(out.as_slice())
    }

    /// Appends a `KEY: value` line and its line feed to `out`, which holds
    /// the lines `done` so far.
    fn push_field_line(
        out: &mut Vec<char>,
        key: &str,
        value: &[char],
        Ghost(done): Ghost<Seq<Seq<char>>>,
    )
        requires
            old(out)@ == each_then(done, "\n"@),
        ensures
            final(out)@ == each_then(done.push(field_line(key@, value@)), "\n"@),
    {
        let mut line: Vec<char> = Vec::new();
        push_str(&mut line, key);
        proof {
            assert(line@ =~= key@);
        }
        push_str(&mut line, ": ");
        push_chars(&mut line, value);
        push_chars(out, line.as_slice());
        push_str(out, "\n");
        proof {
            lemma_each_then_push(done, field_line(key@, value@), "\n"@);
        }
    }

    /// The field lines of the record, each ended by a line feed, with
    /// `description` between the quotes of the last line.
    fn fields_text(&self, description: &[char]) -> (text: Vec<char>)
        ensures
            text@ == block_fields(self@, description@),
    {
        let ghost all = field_lines(self@, description@);
        let mut text: Vec<char> = Vec::new();
        proof {
            assert(text@ =~= each_then(all.take(0), "\n"@));
        }
        let tx_id = decimal_chars(self.tx_id);
        Self::push_field_line(&mut text, "TX_ID", tx_id.as_slice(), Ghost(all.take(0)));
        proof {
            assert(all.take(0).push(all[0]) =~= all.take(1));
        }
        let tx_type = str_to_chars(self.tx_type.as_str());
        Self::push_field_line(&mut text, "TX_TYPE", tx_type.as_slice(), Ghost(all.take(1)));
        proof {
            assert(all.take(1).push(all[1]) =~= all.take(2));
        }
        let from_user = decimal_chars(self.from_user_id);
        Self::push_field_line(
            &mut text,
            "FROM_USER_ID",
            from_user.as_slice(),
            Ghost(all.take(2)),
        );
        proof {
            assert(all.take(2).push(all[2]) =~= all.take(3));
        }
        let to_user = decimal_chars(self.to_user_id);
        Self::push_field_line(&mut text, "TO_USER_ID", to_user.as_slice(), Ghost(all.take(3)));
        proof {
            assert(all.take(3).push(all[3]) =~= all.take(4));
        }
        let amount = decimal_chars(self.amount);
        Self::push_field_line(&mut text, "AMOUNT", amount.as_slice(), Ghost(all.take(4)));
        proof {
            assert(all.take(4).push(all[4]) =~= all.take(5));
        }
        let timestamp = decimal_chars(self.timestamp);
        Self::push_field_line(&mut text, "TIMESTAMP", timestamp.as_slice(), Ghost(all.take(5)));
        proof {
            assert(all.take(5).push(all[5]) =~= all.take(6));
        }
        let status = str_to_chars(self.status.as_str());
        Self::push_field_line(&mut text, "STATUS", status.as_slice(), Ghost(all.take(6)));
        proof {
            assert(all.take(6).push(all[6]) =~= all.take(7));
        }
        let mut quoted: Vec<char> = Vec::new();
        push_str(&mut quoted, "\"");
        push_chars(&mut quoted, description);
        push_str(&mut quoted, "\"");
        proof {
            assert(quoted@ =~= "\""@ + description@ + "\""@);
        }
        Self::push_field_line(&mut text, "DESCRIPTION", quoted.as_slice(), Ghost(all.take(7)));
        proof {
            assert(all.take(7).push(all[7]) =~= all);
        }
        text
    }

    /// Appends the field lines of the record to `out`, with `description`
    /// between the quotes of the last line.
    fn push_fields(&self, out: &mut Vec<char>, description: &[char])
        ensures
            final(out)@ == old(out)@ + block_fields(self@, description@),
    {
        let text = self.fields_text(description);
        push_chars(out, text.as_slice());
    }

    /// The field lines of the record, with the description as it is.
    pub fn to_string(&self) -> (s: String)
        ensures
            s@ == block_fields(self@, self.description@),
    {
        let mut out: Vec<char> = Vec::new();
        let description = str_to_chars(self.description.as_str());
        self.push_fields(&mut out, description.as_slice());
        proof {
            assert(out@ =~= block_fields(self@, self.description@));
        }
        chars_to_string(out.as_slice())
    }

    /// Appends the block of the record to `out`.
    fn push_block(&self, out: &mut Vec<char>)
        ensures
            final(out)@ == old(out)@ + block_text(self@),
    {
        let mut block: Vec<char> = Vec::new();
        self.push_title(&mut block);
        proof {
            assert(block@ =~= block_title(self@));
        }
        push_str(&mut block, "\n");
        let description = str_to_chars(self.description.as_str());
        let doubled = escaped(description.as_slice());
        self.push_fields(&mut block, doubled.as_slice());
        push_chars(out, block.as_slice());
    }

    /// The block of a record: its title line and its field lines.
    pub fn makeup_records(records: &YPBankTextFormat) -> (block: String)
        ensures
            block@ == block_text(records@),
    {
        let mut out: Vec<char> = Vec::new();
        records.push_block(&mut out);
        proof {
            assert(out@ =~= block_text(records@));
        }
        chars_to_string(out.as_slice())
    }
}

impl YPBankIO for YPBankTextFormat {
    type DataFormat = YPBankTextFormat;

    open spec fn parse_text(text: Seq<char>) -> Result<Seq<RecordView>, ParseErrorView> {
        parse_blocks(text)
    }

    open spec fn format_text(records: Seq<RecordView>) -> Seq<char> {
        blocks_text(records)
    }

    fn read_executor(buffer: String) -> (r: Result<Vec<YPBankTextFormat>, ParseError>) {
        let chars = str_to_chars(buffer.as_str());
        let all = split_lines(chars.as_slice());
        let mut records: Vec<YPBankTextFormat> = Vec::new();
        let mut block: Vec<String> = Vec::new();
        let mut i: usize = 0;
        proof {
            assert(record_views(records@) =~= Seq::<RecordView>::empty());
            assert(texts(block@) =~= Seq::<Seq<char>>::empty());
        }
        while i < all.len()
            invariant
                i <= all.len(),
                block.len() <= i,
                views(all@) == lines(buffer@),
                parse_blocks(buffer@) == scan_blocks(
                    lines(buffer@),
                    i as int,
                    texts(block@),
                    record_views(records@),
                ),
            decreases all.len() - i,
        {
            let line: &[char] = all[i].as_slice();
            let ghost done = record_views(records@);
            let ghost rows = texts(block@);
            proof {
                assert(views(all@)[i as int] == all@[i as int]@);
            }
            if is_empty_line(line) {
                if block.len() > 0 {
                    let record = match Self::parse_block(block.as_slice(), i) {
                        Ok(record) => record,
                        Err(e) => {
                            return Err(e);
                        },
                    };
                    records.push(record);
                    block = Vec::new();
                    proof {
                        assert(record_views(records@) =~= done.push(record@));
                        assert(texts(block@) =~= Seq::<Seq<char>>::empty());
                    }
                }
                i += 1;
                continue;
            }
            if is_hash_marker(line) {
                if block.len() > 0 {
                    let record = match Self::parse_block(block.as_slice(), i) {
                        Ok(record) => record,
                        Err(e) => {
                            return Err(e);
                        },
                    };
                    records.push(record);
                    proof {
                        assert(record_views(records@) =~= done.push(record@));
                    }
                    block = Vec::new();
                }
                let text = chars_to_string(line);
                let token = match Self::parse_title(text.as_str(), i) {
                    Ok(token) => token,
                    Err(e) => {
                        return Err(e);
                    },
                };
                block.push(token);
                proof {
                    assert(texts(block@) =~= seq![token@]);
                }
            } else {
                if block.len() == 0 {
                    let mut message: Vec<char> = Vec::new();
                    push_str(&mut message, "invalid line: ");
                    push_chars(&mut message, line);
                    return Err(text_parse_error(message, i + 1));
                }
                let text = chars_to_string(line);
                block.push(text);
                proof {
                    assert(texts(block@) =~= rows.push(line@));
                }
            }
            i += 1;
        }
        if block.len() > 0 {
            let ghost done = record_views(records@);
            let record = match Self::parse_block(block.as_slice(), all.len()) {
                Ok(record) => record,
                Err(e) => {
                    return Err(e);
                },
            };
            records.push(record);
            proof {
                assert(record_views(records@) =~= done.push(record@));
            }
        }
        Ok(records)
    }

    fn write_to(writer: &mut Vec<u8>, records: &[YPBankTextFormat]) -> (r: Result<
        (),
        ParseError,
    >) {
        let ghost rs = record_views(records@);
        let mut out: Vec<char> = Vec::new();
        let mut i: usize = 0;
        proof {
            assert(blocks_text(rs.take(0)) =~= Seq::<char>::empty());
        }
        while i < records.len()
            invariant
                i <= records.len(),
                rs == record_views(records@),
                out@ == blocks_text(rs.take(i as int)),
            decreases records.len() - i,
        {
            records[i].push_block(&mut out);
            push_str(&mut out, "\n");
            proof {
                let now = rs.take(i + 1);
                assert(now.drop_last() =~= rs.take(i as int));
                assert(now.last() == records@[i as int]@);
            }
            i += 1;
        }
        proof {
            assert(rs.take(i as int) =~= rs);
        }
        let text = chars_to_string(out.as_slice());
        writer.extend_from_slice(text.as_str().as_bytes());
        Ok(())
    }
}

} // verus!
