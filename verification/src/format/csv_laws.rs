//! What holds of the CSV codec: reading undoes writing for descriptions that
//! a line can carry, and a text with another header is refused.

use crate::decimal::{all_digits, decimal, is_digit, lemma_decimal, lemma_parse_decimal};
use crate::errors::ParseErrorView;
use crate::format::csv::{
    columns, csv_error, csv_line, csv_lines, csv_text, field_names, header, parse_csv, parse_line,
    parse_rows, zip_map,
};
use crate::format::tools::{csv_scan, escape_quotes, quoted_text, split_csv};
use crate::models::{
    lemma_tx_status_label_roundtrip, lemma_tx_type_label_roundtrip, no_line_feeds,
    record_from_fields, RecordView,
};
use crate::strings::{
    each_then, has_no_line_feed, is_one_line, is_space, is_tidy, is_upper_word,
    lemma_empty_is_blank, lemma_join_as_each_then, lemma_lines_concat, lemma_lines_first,
    lemma_trim_tidy, lines, trim,
};
use vstd::prelude::*;

verus! {

/// Whether `s` can stand as an ordinary CSV field: it holds no comma and no
/// quote.
pub open spec fn is_plain_field(s: Seq<char>) -> bool {
    forall|i: int| 0 <= i < s.len() ==> #[trigger] s[i] != ',' && s[i] != '"'
}

/// Whether `s` is a word that the splitter hands back as it is: not empty,
/// without comma, quote, white space or line feed.
pub open spec fn is_word(s: Seq<char>) -> bool {
    &&& s.len() > 0
    &&& is_plain_field(s)
    &&& is_tidy(s)
    &&& is_one_line(s)
}

/// The fields that the line of a record splits into: the columns, with the
/// description as it is in the record.
pub open spec fn values(r: RecordView) -> Seq<Seq<char>> {
    columns(r).update(7, r.description)
}

/// The splitter reads the characters of an ordinary field into its buffer.
pub proof fn lemma_scan_plain(
    seg: Seq<char>,
    rest: Seq<char>,
    fields: Seq<Seq<char>>,
    buffer: Seq<char>,
)
    requires
        is_plain_field(seg),
    ensures
        csv_scan(seg + rest, fields, buffer) == csv_scan(rest, fields, buffer + seg),
    decreases seg.len(),
{
    if seg.len() == 0 {
        assert(seg + rest =~= rest);
        assert(buffer + seg =~= buffer);
    } else {
        let s = seg + rest;
        assert(s[0] == seg[0]);
        assert(s.skip(1) =~= seg.skip(1) + rest);
        assert forall|i: int| 0 <= i < seg.skip(1).len() implies #[trigger] seg.skip(1)[i] != ','
            && seg.skip(1)[i] != '"' by {
            assert(seg.skip(1)[i] == seg[i + 1]);
        }
        lemma_scan_plain(seg.skip(1), rest, fields, buffer.push(seg[0]));
        assert(buffer.push(seg[0]) + seg.skip(1) =~= buffer + seg);
    }
}

/// An ordinary field that a comma follows becomes the next field, trimmed.
pub proof fn lemma_scan_field(seg: Seq<char>, rest: Seq<char>, fields: Seq<Seq<char>>)
    requires
        is_plain_field(seg),
    ensures
        csv_scan(seg + ","@ + rest, fields, Seq::empty()) == csv_scan(
            rest,
            fields.push(trim(seg)),
            Seq::empty(),
        ),
{
    reveal_strlit(",");
    let tail = ","@ + rest;
    assert(seg + ","@ + rest =~= seg + tail);
    lemma_scan_plain(seg, tail, fields, Seq::empty());
    assert(Seq::<char>::empty() + seg =~= seg);
    assert(tail[0] == ',');
    assert(tail.skip(1) =~= rest);
}

/// The text of a quoted field whose quotes were doubled, read up to its
/// closing quote, is the text that was quoted.
pub proof fn lemma_quoted_text_of_escaped(d: Seq<char>)
    ensures
        quoted_text(escape_quotes(d) + "\""@) == d,
    decreases d.len(),
{
    reveal_strlit("\"");
    let s = escape_quotes(d) + "\""@;
    if d.len() == 0 {
        assert(s =~= "\""@);
        assert(quoted_text(s) =~= d);
    } else {
        let rest = d.skip(1);
        lemma_quoted_text_of_escaped(rest);
        let tail = escape_quotes(rest) + "\""@;
        if d[0] == '"' {
            assert(s[0] == '"' && s[1] == '"');
            assert(s.skip(2) =~= tail);
            assert(quoted_text(s) =~= seq!['"'] + rest);
        } else {
            assert(s[0] == d[0]);
            assert(s.skip(1) =~= tail);
            assert(quoted_text(s) =~= seq![d[0]] + rest);
        }
        assert(seq![d[0]] + rest =~= d);
    }
}

/// A quoted field at the end of a line becomes the last field: its text as
/// it was before its quotes were doubled, whatever it holds.
pub proof fn lemma_scan_quoted(d: Seq<char>, fields: Seq<Seq<char>>)
    ensures
        csv_scan("\""@ + escape_quotes(d) + "\""@, fields, Seq::empty()) == Some(fields.push(d)),
{
    reveal_strlit("\"");
    let s = "\""@ + escape_quotes(d) + "\""@;
    let q = escape_quotes(d) + "\""@;
    assert(s[0] == '"');
    assert(s.skip(1) =~= q);
    lemma_empty_is_blank();
    lemma_quoted_text_of_escaped(d);
}

/// A digit string is a word.
pub proof fn lemma_digits_are_word(s: Seq<char>)
    requires
        s.len() > 0,
        all_digits(s),
    ensures
        is_word(s),
{
    assert forall|i: int| 0 <= i < s.len() implies #[trigger] s[i] != ',' && s[i] != '"' && s[i]
        != '\n' && !is_space(s[i]) by {
        assert(is_digit(s[i]));
    }
    assert(!is_space(s[0]));
    assert(!is_space(s[s.len() - 1]));
}

/// A word of upper-case letters is a word.
pub proof fn lemma_upper_word_is_word(s: Seq<char>)
    requires
        is_upper_word(s),
    ensures
        is_word(s),
{
    assert forall|i: int| 0 <= i < s.len() implies #[trigger] s[i] != ',' && s[i] != '"' && s[i]
        != '\n' && !is_space(s[i]) by {
        assert('A' <= s[i] <= 'Z');
    }
    assert(!is_space(s[0]));
    assert(!is_space(s[s.len() - 1]));
}

/// The first seven columns of a record are words.
pub proof fn lemma_columns_are_words(r: RecordView)
    ensures
        columns(r).len() == 8,
        forall|i: int| 0 <= i < 7 ==> is_word(#[trigger] columns(r)[i]),
{
    lemma_decimal(r.tx_id as nat);
    lemma_decimal(r.from_user_id as nat);
    lemma_decimal(r.to_user_id as nat);
    lemma_decimal(r.amount as nat);
    lemma_decimal(r.timestamp as nat);
    lemma_tx_type_label_roundtrip(r.tx_type);
    lemma_tx_status_label_roundtrip(r.status);
    let c = columns(r);
    lemma_digits_are_word(c[0]);
    lemma_upper_word_is_word(c[1]);
    lemma_digits_are_word(c[2]);
    lemma_digits_are_word(c[3]);
    lemma_digits_are_word(c[4]);
    lemma_digits_are_word(c[5]);
    lemma_upper_word_is_word(c[6]);
}

/// Words, each followed by a comma, become fields.
pub proof fn lemma_scan_words(words: Seq<Seq<char>>, last: Seq<char>, fields: Seq<Seq<char>>)
    requires
        forall|i: int| 0 <= i < words.len() ==> is_word(#[trigger] words[i]),
    ensures
        csv_scan(each_then(words, ","@) + last, fields, Seq::empty()) == csv_scan(
            last,
            fields + words,
            Seq::empty(),
        ),
    decreases words.len(),
{
    if words.len() == 0 {
        assert(each_then(words, ","@) + last =~= last);
        assert(fields + words =~= fields);
    } else {
        let rest = words.skip(1);
        let tail = each_then(rest, ","@) + last;
        assert(is_word(words[0]));
        assert(each_then(words, ","@) + last =~= words[0] + ","@ + tail);
        lemma_trim_tidy(words[0]);
        lemma_scan_field(words[0], tail, fields);
        assert forall|i: int| 0 <= i < rest.len() implies is_word(#[trigger] rest[i]) by {
            assert(rest[i] == words[i + 1]);
        }
        lemma_scan_words(rest, last, fields.push(words[0]));
        assert(fields.push(words[0]) + rest =~= fields + words);
    }
}

/// The line of a record splits into its values, whatever its description
/// holds.
pub proof fn lemma_split_line(r: RecordView)
    ensures
        split_csv(csv_line(r)) == Some(values(r)),
{
    let c = columns(r);
    let words = c.drop_last();
    lemma_columns_are_words(r);
    lemma_join_as_each_then(c, ","@);
    assert forall|i: int| 0 <= i < words.len() implies is_word(#[trigger] words[i]) by {
        assert(words[i] == c[i]);
    }
    lemma_scan_words(words, c[7], Seq::empty());
    assert(Seq::<Seq<char>>::empty() + words =~= words);
    lemma_scan_quoted(r.description, words);
    assert(words.push(r.description) =~= values(r));
}

/// A key that no later key equals is mapped to the value at its place.
pub proof fn lemma_zip_map_lookup(keys: Seq<Seq<char>>, vals: Seq<Seq<char>>, i: int)
    requires
        keys.len() == vals.len(),
        0 <= i < keys.len(),
        forall|j: int| i < j < keys.len() ==> #[trigger] keys[j] != keys[i],
    ensures
        zip_map(keys, vals).contains_key(keys[i]),
        zip_map(keys, vals)[keys[i]] == vals[i],
    decreases keys.len(),
{
    if i < keys.len() - 1 {
        let k = keys.drop_last();
        let v = vals.drop_last();
        assert(keys[keys.len() - 1] != keys[i]);
        assert(k[i] == keys[i]);
        assert forall|j: int| i < j < k.len() implies #[trigger] k[j] != k[i] by {
            assert(k[j] == keys[j]);
        }
        lemma_zip_map_lookup(k, v, i);
    }
}

/// The names of the fields are words, and no two are the same.
pub proof fn lemma_field_names()
    ensures
        field_names().len() == 8,
        forall|i: int| 0 <= i < 8 ==> is_word(#[trigger] field_names()[i]),
        forall|i: int, j: int| 0 <= i < j < 8 ==> field_names()[i] != field_names()[j],
{
    reveal_strlit("TX_ID");
    reveal_strlit("TX_TYPE");
    reveal_strlit("FROM_USER_ID");
    reveal_strlit("TO_USER_ID");
    reveal_strlit("AMOUNT");
    reveal_strlit("TIMESTAMP");
    reveal_strlit("STATUS");
    reveal_strlit("DESCRIPTION");
    let n = field_names();
    assert(n[4][0] != n[6][0]);
    assert(is_word(n[0]));
    assert(is_word(n[1]));
    assert(is_word(n[2]));
    assert(is_word(n[3]));
    assert(is_word(n[4]));
    assert(is_word(n[5]));
    assert(is_word(n[6]));
    assert(is_word(n[7]));
}

/// The values of a record, under the names of the fields, make the record.
pub proof fn lemma_record_from_values(r: RecordView)
    ensures
        record_from_fields(zip_map(field_names(), values(r))) == Ok::<RecordView, Seq<char>>(r),
{
    let n = field_names();
    let v = values(r);
    let m = zip_map(n, v);
    lemma_field_names();
    lemma_zip_map_lookup(n, v, 0);
    lemma_zip_map_lookup(n, v, 1);
    lemma_zip_map_lookup(n, v, 2);
    lemma_zip_map_lookup(n, v, 3);
    lemma_zip_map_lookup(n, v, 4);
    lemma_zip_map_lookup(n, v, 5);
    lemma_zip_map_lookup(n, v, 6);
    lemma_zip_map_lookup(n, v, 7);
    lemma_parse_decimal(r.tx_id);
    lemma_parse_decimal(r.from_user_id);
    lemma_parse_decimal(r.to_user_id);
    lemma_parse_decimal(r.amount);
    lemma_parse_decimal(r.timestamp);
    lemma_tx_type_label_roundtrip(r.tx_type);
    lemma_tx_status_label_roundtrip(r.status);
    assert(m["TX_ID"@] == decimal(r.tx_id as nat));
    assert(m["TX_TYPE"@] == r.tx_type.label());
    assert(m["FROM_USER_ID"@] == decimal(r.from_user_id as nat));
    assert(m["TO_USER_ID"@] == decimal(r.to_user_id as nat));
    assert(m["AMOUNT"@] == decimal(r.amount as nat));
    assert(m["TIMESTAMP"@] == decimal(r.timestamp as nat));
    assert(m["STATUS"@] == r.status.label());
    assert(m["DESCRIPTION"@] == r.description);
}

/// The line of a record parses to the record, whatever its description
/// holds: quotes, commas and white space in it come back as they were.
pub proof fn lemma_parse_line(r: RecordView, number: usize)
    ensures
        parse_line(field_names(), csv_line(r), number) == Ok::<RecordView, ParseErrorView>(r),
{
    lemma_split_line(r);
    lemma_record_from_values(r);
}

/// Words, each followed by a comma, hold no line feed.
pub proof fn lemma_words_hold_no_line_feed(words: Seq<Seq<char>>)
    requires
        forall|i: int| 0 <= i < words.len() ==> is_word(#[trigger] words[i]),
    ensures
        has_no_line_feed(each_then(words, ","@)),
    decreases words.len(),
{
    reveal_strlit(",");
    if words.len() > 0 {
        let rest = words.skip(1);
        assert forall|i: int| 0 <= i < rest.len() implies is_word(#[trigger] rest[i]) by {
            assert(rest[i] == words[i + 1]);
        }
        lemma_words_hold_no_line_feed(rest);
        assert(is_word(words[0]));
        let s = each_then(words, ","@);
        let a = words[0];
        let t = each_then(rest, ","@);
        assert(s =~= a + ","@ + t);
        assert forall|i: int| 0 <= i < s.len() implies #[trigger] s[i] != '\n' by {
            if i < a.len() {
                assert(s[i] == a[i]);
            } else if i == a.len() {
                assert(s[i] == ',');
            } else {
                assert(s[i] == t[i - a.len() - 1]);
            }
        }
    }
}

/// Doubling the quotes of a text adds no line feed to it.
pub proof fn lemma_escape_holds_no_line_feed(d: Seq<char>)
    requires
        has_no_line_feed(d),
    ensures
        has_no_line_feed(escape_quotes(d)),
    decreases d.len(),
{
    if d.len() > 0 {
        let rest = d.skip(1);
        assert forall|i: int| 0 <= i < rest.len() implies #[trigger] rest[i] != '\n' by {
            assert(rest[i] == d[i + 1]);
        }
        lemma_escape_holds_no_line_feed(rest);
        let e = escape_quotes(d);
        let t = escape_quotes(rest);
        assert(d[0] != '\n');
        assert forall|i: int| 0 <= i < e.len() implies #[trigger] e[i] != '\n' by {
            if d[0] == '"' {
                if i >= 2 {
                    assert(e[i] == t[i - 2]);
                }
            } else {
                if i >= 1 {
                    assert(e[i] == t[i - 1]);
                }
            }
        }
    }
}

/// The line of a record whose description holds no line feed is one line.
pub proof fn lemma_line_is_one_line(r: RecordView)
    requires
        has_no_line_feed(r.description),
    ensures
        is_one_line(csv_line(r)),
{
    reveal_strlit("\"");
    let c = columns(r);
    let words = c.drop_last();
    lemma_columns_are_words(r);
    lemma_join_as_each_then(c, ","@);
    assert forall|i: int| 0 <= i < words.len() implies is_word(#[trigger] words[i]) by {
        assert(words[i] == c[i]);
    }
    lemma_words_hold_no_line_feed(words);
    lemma_escape_holds_no_line_feed(r.description);
    let head = each_then(words, ","@);
    let e = escape_quotes(r.description);
    let s = csv_line(r);
    assert(s =~= head + "\""@ + e + "\""@);
    assert forall|i: int| 0 <= i < s.len() implies #[trigger] s[i] != '\n' by {
        if i < head.len() {
            assert(s[i] == head[i]);
        } else if i == head.len() {
            assert(s[i] == '"');
        } else if i < head.len() + 1 + e.len() {
            assert(s[i] == e[i - head.len() - 1]);
        } else {
            assert(s[i] == '"');
        }
    }
    assert(s.last() == '"');
}

/// The header line is one line.
pub proof fn lemma_header_is_one_line()
    ensures
        is_one_line(header()),
{
    let n = field_names();
    let words = n.drop_last();
    lemma_field_names();
    lemma_join_as_each_then(n, ","@);
    assert forall|i: int| 0 <= i < words.len() implies is_word(#[trigger] words[i]) by {
        assert(words[i] == n[i]);
    }
    lemma_words_hold_no_line_feed(words);
    let head = each_then(words, ","@);
    let s = header();
    assert(is_word(n[7]));
    assert(s =~= head + n[7]);
    assert forall|i: int| 0 <= i < s.len() implies #[trigger] s[i] != '\n' by {
        if i < head.len() {
            assert(s[i] == head[i]);
        } else {
            assert(s[i] == n[7][i - head.len()]);
        }
    }
    assert(s.last() == n[7].last());
}

/// The lines of the records `rs`.
pub open spec fn line_seq(rs: Seq<RecordView>) -> Seq<Seq<char>> {
    Seq::new(rs.len(), |i: int| csv_line(rs[i]))
}

/// The text of the lines of records splits into those lines.
pub proof fn lemma_lines_of_csv_lines(rs: Seq<RecordView>)
    requires
        no_line_feeds(rs),
    ensures
        lines(csv_lines(rs)) == line_seq(rs),
        csv_lines(rs).len() == 0 || csv_lines(rs).last() == '\n',
    decreases rs.len(),
{
    reveal_strlit("\n");
    if rs.len() == 0 {
        assert(lines(csv_lines(rs)) =~= line_seq(rs));
    } else {
        let init = rs.drop_last();
        let last = rs.last();
        assert forall|i: int| 0 <= i < init.len() implies has_no_line_feed(
            #[trigger] init[i].description,
        ) by {
            assert(init[i] == rs[i]);
        }
        lemma_lines_of_csv_lines(init);
        assert(has_no_line_feed(rs[rs.len() - 1].description));
        lemma_line_is_one_line(last);
        let a = csv_lines(init);
        let l = csv_line(last);
        let tail = l + "\n"@ + Seq::<char>::empty();
        assert(csv_lines(rs) =~= a + tail);
        lemma_lines_concat(a, tail);
        lemma_lines_first(l, Seq::empty());
        assert(lines(tail) =~= seq![l]);
        assert(line_seq(init) + seq![l] =~= line_seq(rs));
        assert(csv_lines(rs).last() == '\n');
    }
}

/// The lines of records parse to the records, from any place on.
pub proof fn lemma_parse_rows(rs: Seq<RecordView>, i: int, done: Seq<RecordView>)
    requires
        no_line_feeds(rs),
        0 <= i <= rs.len(),
    ensures
        parse_rows(field_names(), line_seq(rs), i, done) == Ok::<
            Seq<RecordView>,
            ParseErrorView,
        >(done + rs.skip(i)),
    decreases rs.len() - i,
{
    if i >= rs.len() {
        assert(done + rs.skip(i) =~= done);
    } else {
        assert(has_no_line_feed(rs[i].description));
        lemma_parse_line(rs[i], (i + 1) as usize);
        lemma_parse_rows(rs, i + 1, done.push(rs[i]));
        assert(done.push(rs[i]) + rs.skip(i + 1) =~= done + rs.skip(i));
    }
}

/// Reading undoes writing: the CSV text of records parses to the records,
/// where no description holds a line feed.
pub proof fn lemma_csv_roundtrip(rs: Seq<RecordView>)
    requires
        no_line_feeds(rs),
    ensures
        parse_csv(csv_text(rs)) == Ok::<Seq<RecordView>, ParseErrorView>(rs),
{
    lemma_header_is_one_line();
    lemma_lines_first(header(), csv_lines(rs));
    lemma_lines_of_csv_lines(rs);
    let all = lines(csv_text(rs));
    assert(all =~= seq![header()] + line_seq(rs));
    assert(all[0] == header());
    assert(all.skip(1) =~= line_seq(rs));
    lemma_parse_rows(rs, 0, Seq::empty());
    assert(Seq::<RecordView>::empty() + rs.skip(0) =~= rs);
}

/// A text whose first line is not the header, character for character, is
/// refused with a parse error that cites that line.
pub proof fn lemma_header_mismatch(text: Seq<char>)
    requires
        lines(text).len() > 0,
        lines(text)[0] != header(),
    ensures
        parse_csv(text) == Err::<Seq<RecordView>, ParseErrorView>(
            csv_error("invalid csv header: "@ + lines(text)[0], 0),
        ),
{
}

} // verus!
