//! The CSV codec: a fixed header line, then one line per record, with the
//! description as the last field, always quoted.

use crate::decimal::{decimal, push_decimal};
use crate::errors::{ParseError, ParseErrorView};
use crate::fields::FieldMap;
use crate::format::tools::{escape_quotes, escaped, split_csv, split_csv_line};
use crate::models::{
    built_from_fields, record_from_fields, record_views, RecordView, YPBankCsvFormat,
};
use crate::strings::{
    chars_eq, chars_to_string, join, lines, push_chars, push_str, split_lines, str_to_chars, texts,
    views,
};
use crate::traits::YPBankIO;
use vstd::prelude::*;

verus! {

/// The names of the fields, in the order of the columns.
pub open spec fn field_names() -> Seq<Seq<char>> {
    seq![
        "TX_ID"@,
        "TX_TYPE"@,
        "FROM_USER_ID"@,
        "TO_USER_ID"@,
        "AMOUNT"@,
        "TIMESTAMP"@,
        "STATUS"@,
        "DESCRIPTION"@,
    ]
}

/// The header line: the field names joined by commas.
pub open spec fn header() -> Seq<char> {
    join(field_names(), ","@)
}

/// The texts of the columns of a record: numbers in decimal, kind and status
/// by their labels, and the description in quotes with its quotes doubled.
pub open spec fn columns(r: RecordView) -> Seq<Seq<char>> {
    seq![
        decimal(r.tx_id as nat),
        r.tx_type.label(),
        decimal(r.from_user_id as nat),
        decimal(r.to_user_id as nat),
        decimal(r.amount as nat),
        decimal(r.timestamp as nat),
        r.status.label(),
        "\""@ + escape_quotes(r.description) + "\""@,
    ]
}

/// The line of a record: its columns joined by commas.
pub open spec fn csv_line(r: RecordView) -> Seq<char> {
    join(columns(r), ","@)
}

/// The lines of the records `rs`, each ended by a line feed.
pub open spec fn csv_lines(rs: Seq<RecordView>) -> Seq<char>
    decreases rs.len(),
{
    if rs.len() == 0 {
        Seq::empty()
    } else {
        csv_lines(rs.drop_last()) + csv_line(rs.last()) + "\n"@
    }
}

/// The CSV text of the records `rs`: the header line, then their lines.
pub open spec fn csv_text(rs: Seq<RecordView>) -> Seq<char> {
    header() + "\n"@ + csv_lines(rs)
}

/// The map that pairs each key with the value at its place; of two equal
/// keys the later counts.
pub open spec fn zip_map(keys: Seq<Seq<char>>, values: Seq<Seq<char>>) -> Map<
    Seq<char>,
    Seq<char>,
>
    decreases keys.len(),
{
    if keys.len() == 0 || values.len() == 0 {
        Map::empty()
    } else {
        zip_map(keys.drop_last(), values.drop_last()).insert(keys.last(), values.last())
    }
}

/// A structural error at a line of the CSV text.
pub open spec fn csv_error(message: Seq<char>, line: usize) -> ParseErrorView {
    ParseErrorView::ParseError { message, line, column: 0 }
}

/// The record of one data line, or its error: the line must split into as
/// many fields as there are titles, and the fields must make a record.
pub open spec fn parse_line(titles: Seq<Seq<char>>, line: Seq<char>, number: usize) -> Result<
    RecordView,
    ParseErrorView,
> {
    match split_csv(line) {
        None => Err(csv_error("cannot read the csv line"@, number)),
        Some(data) => if data.len() != titles.len() {
            Err(csv_error("the line does not match the header: "@ + line, number))
        } else {
            match record_from_fields(zip_map(titles, data)) {
                Ok(r) => Ok(r),
                Err(key) => Err(ParseErrorView::IncorrectField { key }),
            }
        },
    }
}

/// The records of the data lines `rows` from the `i`-th on, after the
/// records `done`, or the first error. Data lines are numbered from 1.
pub open spec fn parse_rows(
    titles: Seq<Seq<char>>,
    rows: Seq<Seq<char>>,
    i: int,
    done: Seq<RecordView>,
) -> Result<Seq<RecordView>, ParseErrorView>
    decreases rows.len() - i,
{
    if i < 0 || i >= rows.len() {
        Ok(done)
    } else {
        match parse_line(titles, rows[i], (i + 1) as usize) {
            Ok(r) => parse_rows(titles, rows, i + 1, done.push(r)),
            Err(e) => Err(e),
        }
    }
}

/// The records of a CSV text, or the first error. The first line must be
/// the header, character for character; every further line is a data line.
pub open spec fn parse_csv(text: Seq<char>) -> Result<Seq<RecordView>, ParseErrorView> {
    let all = lines(text);
    if all.len() == 0 {
        Err(csv_error("cannot read the csv header"@, 0))
    } else if all[0] != header() {
        Err(csv_error("invalid csv header: "@ + all[0], 0))
    } else {
        parse_rows(field_names(), all.skip(1), 0, Seq::empty())
    }
}

/// Whether `r` is the outcome `expected`: the same record, or the same error.
pub open spec fn parsed_line_as(
    r: Result<YPBankCsvFormat, ParseError>,
    expected: Result<RecordView, ParseErrorView>,
) -> bool {
    match r {
        Ok(rec) => expected == Ok::<RecordView, ParseErrorView>(rec@),
        Err(e) => expected == Err::<RecordView, ParseErrorView>(e@),
    }
}

/// A structural error at a line of the CSV text.
fn csv_parse_error(message: Vec<char>, line: usize) -> (e: ParseError)
    ensures
        e@ == csv_error(message@, line),
{
    let text = chars_to_string(message.as_slice());
    ParseError::parse_error(text.as_str(), line, 0)
}

/// Builds the field map that pairs each title with the field at its place.
fn zip_fields(titles: &Vec<Vec<char>>, data: &Vec<Vec<char>>) -> (m: FieldMap)
    requires
        titles.len() == data.len(),
    ensures
        m@ == zip_map(views(titles@), views(data@)),
{
    let mut m = FieldMap::new();
    let mut i: usize = 0;
    let ghost keys = views(titles@);
    let ghost values = views(data@);
    proof {
        assert(zip_map(keys.take(0), values.take(0)) =~= Map::<Seq<char>, Seq<char>>::empty());
    }
    while i < titles.len()
        invariant
            i <= titles.len(),
            titles.len() == data.len(),
            keys == views(titles@),
            values == views(data@),
            m@ == zip_map(keys.take(i as int), values.take(i as int)),
        decreases titles.len() - i,
    {
        let key = chars_to_string(titles[i].as_slice());
        let value = chars_to_string(data[i].as_slice());
        m.insert(key, value);
        proof {
            assert(keys.take(i + 1).drop_last() =~= keys.take(i as int));
            assert(values.take(i + 1).drop_last() =~= values.take(i as int));
            assert(keys.take(i + 1).last() == titles@[i as int]@);
            assert(values.take(i + 1).last() == data@[i as int]@);
        }
        i += 1;
    }
    proof {
        assert(keys.take(i as int) =~= keys);
        assert(values.take(i as int) =~= values);
    }
    m
}

/// Parses one data line against the titles of the header.
fn parse_row(titles: &Vec<Vec<char>>, line: &[char], number: usize) -> (r: Result<
    YPBankCsvFormat,
    ParseError,
>)
    ensures
        parsed_line_as(r, parse_line(views(titles@), line@, number)),
{
    let data = match split_csv_line(line) {
        Some(data) => data,
        None => {
            let mut message: Vec<char> = Vec::new();
            push_str(&mut message, "cannot read the csv line");
            return Err(csv_parse_error(message, number));
        },
    };
    if data.len() != titles.len() {
        let mut message: Vec<char> = Vec::new();
        push_str(&mut message, "the line does not match the header: ");
        push_chars(&mut message, line);
        return Err(csv_parse_error(message, number));
    }
    let fields = zip_fields(titles, &data);
    let r = YPBankCsvFormat::new_from_map(&fields);
    proof {
        assert(built_from_fields(r, fields@));
    }
    r
}

impl YPBankCsvFormat {
    /// The names of the fields, in the order of the columns.
    pub fn fields() -> (names: Vec<&'static str>)
        ensures
            names.len() == 8,
            forall|i: int| 0 <= i < 8 ==> (#[trigger] names@[i])@ == field_names()[i],
    {
        vec![
            "TX_ID",
            "TX_TYPE",
            "FROM_USER_ID",
            "TO_USER_ID",
            "AMOUNT",
            "TIMESTAMP",
            "STATUS",
            "DESCRIPTION",
        ]
    }

    /// The names of the fields as character vectors.
    fn title_fields() -> (titles: Vec<Vec<char>>)
        ensures
            views(titles@) == field_names(),
    {
        let names = Self::fields();
        let mut titles: Vec<Vec<char>> = Vec::new();
        let mut i: usize = 0;
        while i < names.len()
            invariant
                i <= names.len(),
                names.len() == 8,
                forall|j: int| 0 <= j < 8 ==> (#[trigger] names@[j])@ == field_names()[j],
                views(titles@) == field_names().take(i as int),
            decreases names.len() - i,
        {
            let ghost before = views(titles@);
            titles.push(str_to_chars(names[i]));
            proof {
                assert(views(titles@) =~= before.push(field_names()[i as int]));
                assert(views(titles@) =~= field_names().take(i + 1));
            }
            i += 1;
        }
        proof {
            assert(field_names().take(8) =~= field_names());
        }
        titles
    }

    /// Appends the header line to `out`.
    fn push_title(out: &mut Vec<char>)
        ensures
            final(out)@ == old(out)@ + header(),
    {
        let names = Self::fields();
        let ghost parts = field_names();
        let mut i: usize = 0;
        proof {
            assert(join(parts.take(0), ","@) =~= Seq::<char>::empty());
            assert(old(out)@ + Seq::<char>::empty() =~= old(out)@);
        }
        while i < names.len()
            invariant
                i <= names.len(),
                names.len() == 8,
                parts == field_names(),
                forall|j: int| 0 <= j < 8 ==> (#[trigger] names@[j])@ == parts[j],
                out@ == old(out)@ + join(parts.take(i as int), ","@),
            decreases names.len() - i,
        {
            if i > 0 {
                push_str(out, ",");
            }
            push_str(out, names[i]);
            proof {
                let now = parts.take(i + 1);
                assert(now.drop_last() =~= parts.take(i as int));
                assert(now.last() == parts[i as int]);
                if i == 0 {
                    assert(out@ =~= old(out)@ + join(now, ","@));
                } else {
                    assert(out@ =~= old(out)@ + join(now, ","@));
                }
            }
            i += 1;
        }
        proof {
            assert(parts.take(i as int) =~= parts);
        }
    }

    /// The header line.
    pub fn make_title() -> (title: String)
        ensures
            title@ == header(),
    {
        let mut out: Vec<char> = Vec::new();
        Self::push_title(&mut out);
        chars_to_string(out.as_slice())
    }

    /// The description in quotes, with its quotes doubled.
    fn quoted_description(&self) -> (quoted: Vec<char>)
        ensures
            quoted@ == "\""@ + escape_quotes(self.description@) + "\""@,
    {
        let mut quoted: Vec<char> = Vec::new();
        push_str(&mut quoted, "\"");
        let description = str_to_chars(self.description.as_str());
        let doubled = escaped(description.as_slice());
        push_chars(&mut quoted, doubled.as_slice());
        push_str(&mut quoted, "\"");
        proof {
            assert(quoted@ =~= "\""@ + escape_quotes(self.description@) + "\""@);
        }
        quoted
    }

    /// Appends the line of the record to `out`.
    fn push_line(&self, out: &mut Vec<char>)
        ensures
            final(out)@ == old(out)@ + csv_line(self@),
    {
        let ghost c = columns(self@);
        let ghost sep = ","@;
        let mut line: Vec<char> = Vec::new();
        push_decimal(&mut line, self.tx_id);
        proof {
            assert(line@ =~= c[0]);
        }
        push_str(&mut line, ",");
        push_str(&mut line, self.tx_type.as_str());
        assert(line@ == c[0] + sep + c[1]);
        push_str(&mut line, ",");
        push_decimal(&mut line, self.from_user_id);
        assert(line@ == c[0] + sep + c[1] + sep + c[2]);
        push_str(&mut line, ",");
        push_decimal(&mut line, self.to_user_id);
        assert(line@ == c[0] + sep + c[1] + sep + c[2] + sep + c[3]);
        push_str(&mut line, ",");
        push_decimal(&mut line, self.amount);
        assert(line@ == c[0] + sep + c[1] + sep + c[2] + sep + c[3] + sep + c[4]);
        push_str(&mut line, ",");
        push_decimal(&mut line, self.timestamp);
        assert(line@ == c[0] + sep + c[1] + sep + c[2] + sep + c[3] + sep + c[4] + sep + c[5]);
        push_str(&mut line, ",");
        push_str(&mut line, self.status.as_str());
        assert(line@ == c[0] + sep + c[1] + sep + c[2] + sep + c[3] + sep + c[4] + sep + c[5] + sep
            + c[6]);
        push_str(&mut line, ",");
        let quoted = self.quoted_description();
        push_chars(&mut line, quoted.as_slice());
        assert(line@ == c[0] + sep + c[1] + sep + c[2] + sep + c[3] + sep + c[4] + sep + c[5] + sep
            + c[6] + sep + c[7]);
        proof {
            lemma_join_8(c, sep);
        }
        push_chars(out, line.as_slice());
    }

    /// The line of a record.
    pub fn makeup_records(records: &YPBankCsvFormat) -> (line: String)
        ensures
            line@ == csv_line(records@),
    {
        let mut out: Vec<char> = Vec::new();
        records.push_line(&mut out);
        chars_to_string(out.as_slice())
    }

    /// Parses one data line against the titles of the header; `count_line`
    /// is the number of the line among the data lines, from 1.
    pub fn parse_data_line(title_data: &[String], line: &str, count_line: usize) -> (r: Result<
        YPBankCsvFormat,
        ParseError,
    >)
        ensures
            parsed_line_as(r, parse_line(texts(title_data@), line@, count_line)),
    {
        let mut titles: Vec<Vec<char>> = Vec::new();
        let mut i: usize = 0;
        while i < title_data.len()
            invariant
                i <= title_data.len(),
                views(titles@) == texts(title_data@).take(i as int),
            decreases title_data.len() - i,
        {
            let ghost before = views(titles@);
            titles.push(str_to_chars(title_data[i].as_str()));
            proof {
                assert(views(titles@) =~= before.push(title_data@[i as int]@));
                assert(views(titles@) =~= texts(title_data@).take(i + 1));
            }
            i += 1;
        }
        proof {
            assert(texts(title_data@).take(i as int) =~= texts(title_data@));
        }
        let chars = str_to_chars(line);
        parse_row(&titles, chars.as_slice(), count_line)
    }
}

/// The join of eight parts, written out.
pub proof fn lemma_join_8(p: Seq<Seq<char>>, sep: Seq<char>)
    requires
        p.len() == 8,
    ensures
        join(p, sep) == p[0] + sep + p[1] + sep + p[2] + sep + p[3] + sep + p[4] + sep + p[5] + sep
            + p[6] + sep + p[7],
{
    reveal_with_fuel(join, 9);
    let head7 = p.drop_last();
    let head6 = head7.drop_last();
    let head5 = head6.drop_last();
    let head4 = head5.drop_last();
    let head3 = head4.drop_last();
    let head2 = head3.drop_last();
    let head1 = head2.drop_last();
    assert(join(head1, sep) == p[0]);
    assert(join(head2, sep) == p[0] + sep + p[1]);
    assert(join(head3, sep) == join(head2, sep) + sep + p[2]);
    assert(join(head4, sep) == join(head3, sep) + sep + p[3]);
    assert(join(head5, sep) == join(head4, sep) + sep + p[4]);
    assert(join(head6, sep) == join(head5, sep) + sep + p[5]);
    assert(join(head7, sep) == join(head6, sep) + sep + p[6]);
    assert(join(p, sep) == join(head7, sep) + sep + p[7]);
}

impl YPBankIO for YPBankCsvFormat {
    type DataFormat = YPBankCsvFormat;

    open spec fn parse_text(text: Seq<char>) -> Result<Seq<RecordView>, ParseErrorView> {
        parse_csv(text)
    }

    open spec fn format_text(records: Seq<RecordView>) -> Seq<char> {
        csv_text(records)
    }

    fn read_executor(buffer: String) -> (r: Result<Vec<YPBankCsvFormat>, ParseError>) {
        let chars = str_to_chars(buffer.as_str());
        let all = split_lines(chars.as_slice());
        if all.len() == 0 {
            let mut message: Vec<char> = Vec::new();
            push_str(&mut message, "cannot read the csv header");
            return Err(csv_parse_error(message, 0));
        }
        let title = Self::make_title();
        let wanted = str_to_chars(title.as_str());
        proof {
            assert(views(all@)[0] == all@[0]@);
        }
        if !chars_eq(all[0].as_slice(), wanted.as_slice()) {
            let mut message: Vec<char> = Vec::new();
            push_str(&mut message, "invalid csv header: ");
            push_chars(&mut message, all[0].as_slice());
            return Err(csv_parse_error(message, 0));
        }
        let titles = Self::title_fields();
        let ghost rows = lines(buffer@).skip(1);
        let mut records: Vec<YPBankCsvFormat> = Vec::new();
        let mut i: usize = 1;
        proof {
            assert(record_views(records@) =~= Seq::<RecordView>::empty());
        }
        while i < all.len()
            invariant
                1 <= i <= all.len(),
                views(all@) == lines(buffer@),
                rows == lines(buffer@).skip(1),
                parse_csv(buffer@) == parse_rows(
                    views(titles@),
                    rows,
                    i - 1,
                    record_views(records@),
                ),
            decreases all.len() - i,
        {
            let ghost done = record_views(records@);
            proof {
                assert(rows[i - 1] == views(all@)[i as int]);
                assert(views(all@)[i as int] == all@[i as int]@);
            }
            let record = match parse_row(&titles, all[i].as_slice(), i) {
                Ok(record) => record,
                Err(e) => {
                    return Err(e);
                },
            };
            records.push(record);
            proof {
                assert(record_views(records@) =~= done.push(record@));
            }
            i += 1;
        }
        Ok(records)
    }

    fn write_to(writer: &mut Vec<u8>, records: &[YPBankCsvFormat]) -> (r: Result<
        (),
        ParseError,
    >) {
        let ghost rs = record_views(records@);
        let mut out: Vec<char> = Vec::new();
        Self::push_title(&mut out);
        push_str(&mut out, "\n");
        let ghost head = out@;
        let mut i: usize = 0;
        proof {
            assert(csv_lines(rs.take(0)) =~= Seq::<char>::empty());
            assert(head + Seq::<char>::empty() =~= head);
        }
        while i < records.len()
            invariant
                i <= records.len(),
                rs == record_views(records@),
                head == header() + "\n"@,
                out@ == head + csv_lines(rs.take(i as int)),
            decreases records.len() - i,
        {
            records[i].push_line(&mut out);
            push_str(&mut out, "\n");
            proof {
                let now = rs.take(i + 1);
                assert(now.drop_last() =~= rs.take(i as int));
                assert(now.last() == records@[i as int]@);
                assert(out@ =~= head + csv_lines(now));
            }
            i += 1;
        }
        proof {
            assert(rs.take(i as int) =~= rs);
        }
        let text = chars_to_string(out.as_slice());
        writer.extend_from_slice(text.as_str().as_bytes());
        Ok(())
    }
}

} // verus!
