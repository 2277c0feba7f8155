//! What holds of the text-block codec: reading undoes writing for
//! descriptions without a line feed, and blocks with a key that is unknown
//! or given twice are refused.

use crate::decimal::{all_digits, decimal, is_digit, lemma_decimal};
use crate::errors::ParseErrorView;
use crate::format::csv::{columns, field_names, zip_map};
use crate::format::csv_laws::{
    is_word, lemma_columns_are_words, lemma_escape_holds_no_line_feed, lemma_field_names,
    lemma_record_from_values, values,
};
use crate::format::text::{
    block_text, block_title, blocks_text, collect_fields, digit_prefix, field_line, field_lines,
    is_field_name, parse_block_spec, parse_blocks, plain_title_token, scan_blocks, title_token,
};
use crate::format::tools::{
    clean_quote, escape_quotes, is_hash_line, is_quoted, lemma_colon_index_is,
    lemma_unescape_escape, split_key_value,
};
use crate::models::{lemma_tx_type_label_roundtrip, no_line_feeds, RecordView};
use crate::strings::{
    each_then, has_no_line_feed, is_blank, is_one_line, is_space, is_tidy, is_upper_ascii,
    lemma_each_then_push, lemma_empty_is_blank, lemma_lines_concat, lemma_lines_of_each_then,
    lemma_trim_after_space, lemma_trim_tidy, lemma_uppercase_fixed, lines, uppercase,
};
use vstd::prelude::*;

verus! {

/// Whether `s` is made like the name of a field: one or more of the
/// letters `A` to `Z` and the underscore.
pub open spec fn is_key(s: Seq<char>) -> bool {
    s.len() > 0 && forall|i: int|
        0 <= i < s.len() ==> ('A' <= #[trigger] s[i] <= 'Z' || s[i] == '_')
}

/// A line made of a key, a colon, a space and a value splits into the key
/// and the value cleaned of quotes.
pub proof fn lemma_split_key_value(key: Seq<char>, value: Seq<char>)
    requires
        is_key(key),
        value.len() > 0,
        is_tidy(value),
    ensures
        split_key_value(field_line(key, value)) == Some((key, clean_quote(value))),
        is_tidy(field_line(key, value)),
        field_line(key, value).len() > 0,
        field_line(key, value)[0] == key[0],
        field_line(key, value).last() == value.last(),
{
    reveal_strlit(": ");
    reveal_strlit(" ");
    let s = field_line(key, value);
    let k = key.len() as int;
    assert forall|i: int| 0 <= i < k implies #[trigger] s[i] != ':' by {
        assert(s[i] == key[i]);
    }
    assert(s[k] == ':');
    lemma_colon_index_is(s, k);
    assert(s.take(k) =~= key);
    assert(s.skip(k + 1) =~= " "@ + value);
    assert(!is_space(key[0]));
    assert(!is_space(key[k - 1]));
    lemma_trim_tidy(key);
    assert(is_upper_ascii(key)) by {
        assert forall|i: int| 0 <= i < key.len() implies (#[trigger] key[i] as u32) < 128 && !('a'
            <= key[i] <= 'z') by {
            assert('A' <= key[i] <= 'Z' || key[i] == '_');
        }
    }
    lemma_uppercase_fixed(key);
    lemma_trim_after_space(value);
    assert(s[0] == key[0]);
    assert(s.last() == value.last());
}

/// A line that neither starts nor ends with white space and starts with
/// another character than `#` is neither blank nor a title line.
pub proof fn lemma_ordinary_line(s: Seq<char>)
    requires
        s.len() > 0,
        is_tidy(s),
        s[0] != '#',
    ensures
        !is_blank(s),
        !is_hash_line(s),
{
    lemma_trim_tidy(s);
}

/// A text made like a key is its own upper-case form.
pub proof fn lemma_key_uppercase(key: Seq<char>)
    requires
        is_key(key),
    ensures
        uppercase(key) == key,
        is_tidy(key),
{
    assert forall|j: int| 0 <= j < key.len() implies (#[trigger] key[j] as u32) < 128 && !('a'
        <= key[j] <= 'z') by {
        assert('A' <= key[j] <= 'Z' || key[j] == '_');
    }
    lemma_uppercase_fixed(key);
    assert(!is_space(key[0]));
    assert(!is_space(key[key.len() - 1]));
}

/// The names of the fields are made like keys.
pub proof fn lemma_names_are_keys()
    ensures
        is_key("TX_ID"@),
        is_key("TX_TYPE"@),
        is_key("FROM_USER_ID"@),
        is_key("TO_USER_ID"@),
        is_key("AMOUNT"@),
        is_key("TIMESTAMP"@),
        is_key("STATUS"@),
        is_key("DESCRIPTION"@),
{
    assert(is_key("TX_ID"@)) by {
        reveal_strlit("TX_ID");
    }
    assert(is_key("TX_TYPE"@)) by {
        reveal_strlit("TX_TYPE");
    }
    assert(is_key("FROM_USER_ID"@)) by {
        reveal_strlit("FROM_USER_ID");
    }
    assert(is_key("TO_USER_ID"@)) by {
        reveal_strlit("TO_USER_ID");
    }
    assert(is_key("AMOUNT"@)) by {
        reveal_strlit("AMOUNT");
    }
    assert(is_key("TIMESTAMP"@)) by {
        reveal_strlit("TIMESTAMP");
    }
    assert(is_key("STATUS"@)) by {
        reveal_strlit("STATUS");
    }
    assert(is_key("DESCRIPTION"@)) by {
        reveal_strlit("DESCRIPTION");
    }
}

/// The names of the fields are made like keys, and each names a field.
pub proof fn lemma_field_names_are_keys()
    ensures
        forall|i: int| 0 <= i < 8 ==> is_key(#[trigger] field_names()[i]),
        forall|i: int| 0 <= i < 8 ==> is_field_name(#[trigger] field_names()[i]),
{
    lemma_names_are_keys();
    let n = field_names();
    assert forall|i: int| 0 <= i < 8 implies is_key(#[trigger] n[i]) && is_field_name(n[i]) by {
        assert(is_key(n[i]));
        lemma_key_uppercase(n[i]);
        assert(field_names()[i] == uppercase(n[i]));
    }
}

/// The quoted and escaped description is cleaned back to the description.
pub proof fn lemma_clean_quoted(d: Seq<char>)
    ensures
        clean_quote("\""@ + escape_quotes(d) + "\""@) == d,
        is_tidy("\""@ + escape_quotes(d) + "\""@),
        ("\""@ + escape_quotes(d) + "\""@).len() >= 2,
        ("\""@ + escape_quotes(d) + "\""@).last() == '"',
{
    reveal_strlit("\"");
    let q = "\""@ + escape_quotes(d) + "\""@;
    assert(q[0] == '"');
    assert(q.last() == '"');
    assert(is_quoted(q));
    assert(q.subrange(1, q.len() - 1) =~= escape_quotes(d));
    lemma_unescape_escape(d);
}

/// A word is left as it is when it is cleaned of quotes.
pub proof fn lemma_clean_word(w: Seq<char>)
    requires
        is_word(w),
    ensures
        clean_quote(w) == w,
{
    assert(w[0] != '"');
    assert(!is_quoted(w));
}

/// What holds of a field line with a word as its value: it splits into its
/// key and the word, and it is one line that is neither blank nor a title.
pub proof fn lemma_word_line(key: Seq<char>, w: Seq<char>)
    requires
        is_key(key),
        is_word(w),
    ensures
        split_key_value(field_line(key, w)) == Some((key, w)),
        !is_blank(field_line(key, w)),
        !is_hash_line(field_line(key, w)),
{
    lemma_split_key_value(key, w);
    lemma_clean_word(w);
    lemma_ordinary_line(field_line(key, w));
}

/// What holds of the field line of a description: it splits into its key
/// and the description, and it is neither blank nor a title.
pub proof fn lemma_description_line(key: Seq<char>, d: Seq<char>)
    requires
        is_key(key),
    ensures
        split_key_value(field_line(key, "\""@ + escape_quotes(d) + "\""@)) == Some((key, d)),
        !is_blank(field_line(key, "\""@ + escape_quotes(d) + "\""@)),
        !is_hash_line(field_line(key, "\""@ + escape_quotes(d) + "\""@)),
{
    let q = "\""@ + escape_quotes(d) + "\""@;
    lemma_clean_quoted(d);
    lemma_split_key_value(key, q);
    lemma_ordinary_line(field_line(key, q));
}

/// The values of a record before its description are words.
pub proof fn lemma_values_are_words(r: RecordView)
    ensures
        values(r).len() == 8,
        forall|j: int| 0 <= j < 7 ==> is_word(#[trigger] values(r)[j]),
        values(r)[7] == r.description,
{
    lemma_columns_are_words(r);
    let c = columns(r);
    assert forall|j: int| 0 <= j < 7 implies is_word(#[trigger] values(r)[j]) by {
        assert(values(r)[j] == c[j]);
    }
}

/// Whether the line `l` is the `j`-th field line of a record in good
/// standing: it splits into the `j`-th field name and the value `v`, and is
/// neither blank nor a title line.
pub open spec fn is_field_line_of(l: Seq<char>, j: int, v: Seq<char>) -> bool {
    &&& split_key_value(l) == Some((field_names()[j], v))
    &&& !is_blank(l)
    &&& !is_hash_line(l)
}

/// The field lines of a record split into the names of the fields and the
/// values of the record; none of them is blank or a title line.
pub proof fn lemma_field_lines(r: RecordView)
    ensures
        field_lines(r, escape_quotes(r.description)).len() == 8,
        forall|j: int|
            0 <= j < 8 ==> is_field_line_of(
                #[trigger] field_lines(r, escape_quotes(r.description))[j],
                j,
                values(r)[j],
            ),
{
    let fl = field_lines(r, escape_quotes(r.description));
    let n = field_names();
    let v = values(r);
    lemma_names_are_keys();
    lemma_values_are_words(r);
    assert(is_field_line_of(fl[0], 0, v[0])) by {
        assert(is_word(v[0]));
        lemma_word_line(n[0], v[0]);
    }
    assert(is_field_line_of(fl[1], 1, v[1])) by {
        assert(is_word(v[1]));
        lemma_word_line(n[1], v[1]);
    }
    assert(is_field_line_of(fl[2], 2, v[2])) by {
        assert(is_word(v[2]));
        lemma_word_line(n[2], v[2]);
    }
    assert(is_field_line_of(fl[3], 3, v[3])) by {
        assert(is_word(v[3]));
        lemma_word_line(n[3], v[3]);
    }
    assert(is_field_line_of(fl[4], 4, v[4])) by {
        assert(is_word(v[4]));
        lemma_word_line(n[4], v[4]);
    }
    assert(is_field_line_of(fl[5], 5, v[5])) by {
        assert(is_word(v[5]));
        lemma_word_line(n[5], v[5]);
    }
    assert(is_field_line_of(fl[6], 6, v[6])) by {
        assert(is_word(v[6]));
        lemma_word_line(n[6], v[6]);
    }
    assert(is_field_line_of(fl[7], 7, v[7])) by {
        lemma_description_line(n[7], r.description);
    }
}

/// A key of a zipped map is one of the keys that were zipped.
pub proof fn lemma_zip_map_domain(keys: Seq<Seq<char>>, vals: Seq<Seq<char>>, k: Seq<char>)
    requires
        keys.len() == vals.len(),
        zip_map(keys, vals).contains_key(k),
    ensures
        exists|i: int| 0 <= i < keys.len() && #[trigger] keys[i] == k,
    decreases keys.len(),
{
    if keys.len() > 0 {
        if keys.last() == k {
            assert(keys[keys.len() - 1] == k);
        } else {
            lemma_zip_map_domain(keys.drop_last(), vals.drop_last(), k);
            let i = choose|i: int| 0 <= i < keys.drop_last().len() && #[trigger] keys.drop_last()[i] == k;
            assert(keys[i] == k);
        }
    }
}

/// The lines of a block as the reader holds them: the type token of the
/// title, then the field lines.
pub open spec fn pending(r: RecordView) -> Seq<Seq<char>> {
    seq![r.tx_type.label()] + field_lines(r, escape_quotes(r.description))
}

/// Whether `block` holds, after its first entry, eight field lines in good
/// standing with the values `v`.
pub open spec fn is_block_of(block: Seq<Seq<char>>, v: Seq<Seq<char>>) -> bool {
    &&& block.len() == 9
    &&& v.len() == 8
    &&& forall|i: int| 1 <= i < 9 ==> is_field_line_of(#[trigger] block[i], i - 1, v[i - 1])
}

/// Collecting the fields of a block of eight field lines in good standing
/// yields the map of the field names to the values, from any line on.
pub proof fn lemma_collect_fields(
    block: Seq<Seq<char>>,
    j: int,
    first_line: int,
    v: Seq<Seq<char>>,
)
    requires
        is_block_of(block, v),
        1 <= j <= 9,
    ensures
        collect_fields(
            block,
            j,
            first_line,
            zip_map(field_names().take(j - 1), v.take(j - 1)),
        ) == Ok::<Map<Seq<char>, Seq<char>>, ParseErrorView>(zip_map(field_names(), v)),
    decreases 9 - j,
{
    let n = field_names();
    lemma_field_names();
    let m = zip_map(n.take(j - 1), v.take(j - 1));
    if j >= 9 {
        assert(n.take(8) =~= n);
        assert(v.take(8) =~= v);
    } else {
        assert(is_field_line_of(block[j], j - 1, v[j - 1]));
        let key = n[j - 1];
        let value = v[j - 1];
        lemma_field_names_are_keys();
        assert(is_field_name(n[j - 1]));
        if m.contains_key(key) {
            lemma_zip_map_domain(n.take(j - 1), v.take(j - 1), key);
            let i = choose|i: int| 0 <= i < n.take(j - 1).len() && #[trigger] n.take(j - 1)[i] == key;
            assert(n[i] == n[j - 1]);
            assert(false);
        }
        assert(n.take(j).drop_last() =~= n.take(j - 1));
        assert(v.take(j).drop_last() =~= v.take(j - 1));
        assert(n.take(j).last() == key);
        assert(v.take(j).last() == value);
        assert(m.insert(key, value) == zip_map(n.take(j), v.take(j)));
        lemma_collect_fields(block, j + 1, first_line, v);
    }
}

/// The lines of the block of a record are a block in good standing.
pub proof fn lemma_pending_is_block(r: RecordView)
    ensures
        is_block_of(pending(r), values(r)),
{
    let fl = field_lines(r, escape_quotes(r.description));
    let block = pending(r);
    lemma_field_lines(r);
    lemma_values_are_words(r);
    assert forall|i: int| 1 <= i < 9 implies is_field_line_of(
        #[trigger] block[i],
        i - 1,
        values(r)[i - 1],
    ) by {
        assert(block[i] == fl[i - 1]);
    }
}

/// The lines of the block of a record parse to the record.
pub proof fn lemma_parse_pending(r: RecordView, end_line: int)
    ensures
        parse_block_spec(pending(r), end_line) == Ok::<RecordView, ParseErrorView>(r),
{
    let block = pending(r);
    lemma_pending_is_block(r);
    lemma_collect_fields(block, 1, end_line - block.len(), values(r));
    assert(field_names().take(0) =~= Seq::<Seq<char>>::empty());
    assert(zip_map(field_names().take(0), values(r).take(0)) =~= Map::<
        Seq<char>,
        Seq<char>,
    >::empty());
    lemma_record_from_values(r);
}

/// Digits that no digit follows are the digits at the head of a text.
pub proof fn lemma_digit_prefix(digits: Seq<char>, tail: Seq<char>)
    requires
        all_digits(digits),
        tail.len() == 0 || !is_digit(tail[0]),
    ensures
        digit_prefix(digits + tail) == digits.len(),
    decreases digits.len(),
{
    let s = digits + tail;
    if digits.len() == 0 {
        assert(s =~= tail);
    } else {
        assert(s[0] == digits[0]);
        assert(is_digit(digits[0]));
        let rest = digits.skip(1);
        assert forall|i: int| 0 <= i < rest.len() implies is_digit(#[trigger] rest[i]) by {
            assert(rest[i] == digits[i + 1]);
        }
        assert(s.drop_first() =~= rest + tail);
        lemma_digit_prefix(rest, tail);
    }
}

/// The title line of a record carries the label of its kind as its type
/// token; it is one line, and a title line to the reader.
pub proof fn lemma_title(r: RecordView)
    ensures
        title_token(block_title(r)) == Some(r.tx_type.label()),
        is_hash_line(block_title(r)),
        !is_blank(block_title(r)),
        is_one_line(block_title(r)),
{
    reveal_strlit("# Record ");
    reveal_strlit(" (");
    reveal_strlit(")");
    let head = "# Record "@;
    let digits = decimal((r.tx_id % 1000000000000000) as nat);
    let label = r.tx_type.label();
    let line = block_title(r);
    lemma_decimal((r.tx_id % 1000000000000000) as nat);
    lemma_tx_type_label_roundtrip(r.tx_type);
    let tail = " ("@ + label + ")"@;
    assert(line =~= head + (digits + tail));
    assert(line.take(9) =~= head);
    let rest = line.skip(9);
    assert(rest =~= digits + tail);
    assert(tail[0] == ' ');
    lemma_digit_prefix(digits, tail);
    let after = rest.skip(digits.len() as int);
    assert(after =~= tail);
    assert(after[1] == '(');
    assert(after.last() == ')');
    assert(after.subrange(2, after.len() - 1) =~= label);
    assert(plain_title_token(line) == Some(label));
    assert(line[0] == '#');
    assert(line.last() == ')');
    lemma_trim_tidy(line);
    assert forall|i: int| 0 <= i < line.len() implies #[trigger] line[i] != '\n' by {
        if i < 9 {
            assert(line[i] == head[i]);
        } else if i < 9 + digits.len() {
            assert(line[i] == digits[i - 9]);
            assert(is_digit(digits[i - 9]));
        } else if i < 9 + digits.len() + 2 {
            assert(line[i] == " ("@[i - 9 - digits.len()]);
        } else if i < 9 + digits.len() + 2 + label.len() {
            assert(line[i] == label[i - 9 - digits.len() - 2]);
            assert('A' <= label[i - 9 - digits.len() - 2] <= 'Z');
        } else {
            assert(line[i] == ')');
        }
    }
}

/// A field line whose value holds no line feed is one line.
pub proof fn lemma_field_line_is_one_line(key: Seq<char>, value: Seq<char>)
    requires
        is_key(key),
        value.len() > 0,
        is_tidy(value),
        has_no_line_feed(value),
    ensures
        is_one_line(field_line(key, value)),
{
    reveal_strlit(": ");
    let s = field_line(key, value);
    let k = key.len() as int;
    assert forall|i: int| 0 <= i < s.len() implies #[trigger] s[i] != '\n' by {
        if i < k {
            assert(s[i] == key[i]);
            assert('A' <= key[i] <= 'Z' || key[i] == '_');
        } else if i < k + 2 {
            assert(s[i] == ": "@[i - k]);
        } else {
            assert(s[i] == value[i - k - 2]);
        }
    }
    assert(s.last() == value.last());
    assert(!is_space(value.last()));
}

/// The lines that the block of a record takes in a text: the title line,
/// the field lines, and the blank line that ends the block.
pub open spec fn record_lines(r: RecordView) -> Seq<Seq<char>> {
    seq![block_title(r)] + field_lines(r, escape_quotes(r.description)) + seq![Seq::<char>::empty()]
}

/// The lines of the block of a record are one line each.
pub proof fn lemma_record_lines_are_lines(r: RecordView)
    requires
        has_no_line_feed(r.description),
    ensures
        record_lines(r).len() == 10,
        forall|i: int| 0 <= i < 10 ==> is_one_line(#[trigger] record_lines(r)[i]),
{
    reveal_strlit("\"");
    let ls = record_lines(r);
    let fl = field_lines(r, escape_quotes(r.description));
    let v = values(r);
    lemma_title(r);
    lemma_names_are_keys();
    lemma_values_are_words(r);
    assert(is_one_line(fl[0])) by {
        assert(is_word(v[0]));
        lemma_field_line_is_one_line("TX_ID"@, v[0]);
    }
    assert(is_one_line(fl[1])) by {
        assert(is_word(v[1]));
        lemma_field_line_is_one_line("TX_TYPE"@, v[1]);
    }
    assert(is_one_line(fl[2])) by {
        assert(is_word(v[2]));
        lemma_field_line_is_one_line("FROM_USER_ID"@, v[2]);
    }
    assert(is_one_line(fl[3])) by {
        assert(is_word(v[3]));
        lemma_field_line_is_one_line("TO_USER_ID"@, v[3]);
    }
    assert(is_one_line(fl[4])) by {
        assert(is_word(v[4]));
        lemma_field_line_is_one_line("AMOUNT"@, v[4]);
    }
    assert(is_one_line(fl[5])) by {
        assert(is_word(v[5]));
        lemma_field_line_is_one_line("TIMESTAMP"@, v[5]);
    }
    assert(is_one_line(fl[6])) by {
        assert(is_word(v[6]));
        lemma_field_line_is_one_line("STATUS"@, v[6]);
    }
    assert(is_one_line(fl[7])) by {
        let e = escape_quotes(r.description);
        let q = "\""@ + e + "\""@;
        lemma_escape_holds_no_line_feed(r.description);
        lemma_clean_quoted(r.description);
        assert forall|i: int| 0 <= i < q.len() implies #[trigger] q[i] != '\n' by {
            if 1 <= i && i < 1 + e.len() {
                assert(q[i] == e[i - 1]);
            }
        }
        lemma_field_line_is_one_line("DESCRIPTION"@, q);
    }
    assert forall|i: int| 0 <= i < 10 implies is_one_line(#[trigger] ls[i]) by {
        if i == 0 {
            assert(ls[0] == block_title(r));
        } else if i < 9 {
            assert(ls[i] == fl[i - 1]);
        } else {
            assert(ls[9] =~= Seq::<char>::empty());
        }
    }
}

/// The block of a record and the blank line after it are the record's
/// lines, each followed by a line feed.
pub proof fn lemma_block_as_lines(r: RecordView)
    ensures
        block_text(r) + "\n"@ == each_then(record_lines(r), "\n"@),
{
    let fl = field_lines(r, escape_quotes(r.description));
    let head = seq![block_title(r)] + fl;
    assert(head[0] == block_title(r));
    assert(head.skip(1) =~= fl);
    assert(each_then(head, "\n"@) == block_text(r));
    lemma_each_then_push(head, Seq::empty(), "\n"@);
    assert(head.push(Seq::<char>::empty()) =~= record_lines(r));
    assert(each_then(head, "\n"@) + Seq::<char>::empty() + "\n"@ =~= block_text(r) + "\n"@);
}

/// The lines of the blocks of `rs`, block after block.
pub open spec fn all_lines(rs: Seq<RecordView>) -> Seq<Seq<char>>
    decreases rs.len(),
{
    if rs.len() == 0 {
        Seq::empty()
    } else {
        all_lines(rs.drop_last()) + record_lines(rs.last())
    }
}

/// The text of the blocks of records splits into the lines of the blocks.
pub proof fn lemma_lines_of_blocks(rs: Seq<RecordView>)
    requires
        no_line_feeds(rs),
    ensures
        lines(blocks_text(rs)) == all_lines(rs),
        blocks_text(rs).len() == 0 || blocks_text(rs).last() == '\n',
    decreases rs.len(),
{
    reveal_strlit("\n");
    if rs.len() == 0 {
        assert(lines(blocks_text(rs)) =~= all_lines(rs));
    } else {
        let init = rs.drop_last();
        let last = rs.last();
        assert forall|i: int| 0 <= i < init.len() implies has_no_line_feed(
            #[trigger] init[i].description,
        ) by {
            assert(init[i] == rs[i]);
        }
        lemma_lines_of_blocks(init);
        assert(has_no_line_feed(rs[rs.len() - 1].description));
        lemma_record_lines_are_lines(last);
        lemma_block_as_lines(last);
        let a = blocks_text(init);
        let b = each_then(record_lines(last), "\n"@);
        assert(blocks_text(rs) =~= a + b);
        lemma_lines_concat(a, b);
        lemma_lines_of_each_then(record_lines(last), Seq::empty());
        assert(b + Seq::<char>::empty() =~= b);
        assert(record_lines(last) + lines(Seq::<char>::empty()) =~= record_lines(last));
        assert(blocks_text(rs).last() == '\n');
    }
}

/// Where in the lines of the blocks each line of each record stands.
pub proof fn lemma_all_lines_index(rs: Seq<RecordView>, k: int, j: int)
    requires
        0 <= k < rs.len(),
        0 <= j < 10,
    ensures
        all_lines(rs).len() == 10 * rs.len(),
        all_lines(rs)[10 * k + j] == record_lines(rs[k])[j],
    decreases rs.len(),
{
    let init = rs.drop_last();
    lemma_all_lines_len(init);
    lemma_all_lines_len(rs);
    if k < rs.len() - 1 {
        lemma_all_lines_index(init, k, j);
        assert(init[k] == rs[k]);
    }
}

/// The blocks of records take ten lines each.
pub proof fn lemma_all_lines_len(rs: Seq<RecordView>)
    ensures
        all_lines(rs).len() == 10 * rs.len(),
    decreases rs.len(),
{
    if rs.len() > 0 {
        lemma_all_lines_len(rs.drop_last());
    }
}

/// The reader takes the field lines of a record into the open block, one
/// by one, and closes the block at the blank line after them.
pub proof fn lemma_scan_field_lines(
    all: Seq<Seq<char>>,
    base: int,
    r: RecordView,
    j: int,
    done: Seq<RecordView>,
)
    requires
        0 <= base,
        base + 10 <= all.len(),
        forall|i: int| 0 <= i < 10 ==> all[base + i] == #[trigger] record_lines(r)[i],
        0 <= j <= 8,
    ensures
        scan_blocks(all, base + 1 + j, pending(r).take(1 + j), done) == scan_blocks(
            all,
            base + 10,
            Seq::empty(),
            done.push(r),
        ),
    decreases 8 - j,
{
    let fl = field_lines(r, escape_quotes(r.description));
    let block = pending(r).take(1 + j);
    assert(all[base + (1 + j)] == record_lines(r)[1 + j]);
    if j == 8 {
        assert(record_lines(r)[9] =~= Seq::<char>::empty());
        lemma_empty_is_blank();
        assert(block =~= pending(r));
        lemma_parse_pending(r, base + 9);
    } else {
        lemma_field_lines(r);
        assert(record_lines(r)[1 + j] == fl[j]);
        assert(is_field_line_of(fl[j], j, values(r)[j]));
        assert(block.len() == 1 + j);
        assert(block.push(fl[j]) =~= pending(r).take(2 + j));
        lemma_scan_field_lines(all, base, r, j + 1, done);
    }
}

/// From the beginning of any record on, with no block open, the reader
/// yields all the records.
pub proof fn lemma_scan_records(rs: Seq<RecordView>, k: int)
    requires
        no_line_feeds(rs),
        0 <= k <= rs.len(),
    ensures
        scan_blocks(all_lines(rs), 10 * k, Seq::empty(), rs.take(k)) == Ok::<
            Seq<RecordView>,
            ParseErrorView,
        >(rs),
    decreases rs.len() - k,
{
    let all = all_lines(rs);
    let n = rs.len() as int;
    lemma_all_lines_len(rs);
    if k == n {
        assert(rs.take(n) =~= rs);
    } else {
        let r = rs[k];
        assert forall|i: int| 0 <= i < 10 implies all[10 * k + i] == #[trigger] record_lines(
            r,
        )[i] by {
            lemma_all_lines_index(rs, k, i);
        }
        lemma_title(r);
        assert(all[10 * k + 0] == record_lines(r)[0]);
        assert(record_lines(r)[0] == block_title(r));
        let token = r.tx_type.label();
        assert(seq![token] =~= pending(r).take(1));
        lemma_scan_field_lines(all, 10 * k, r, 0, rs.take(k));
        assert(rs.take(k).push(r) =~= rs.take(k + 1));
        lemma_scan_records(rs, k + 1);
    }
}

/// Reading undoes writing: the text of the blocks of records parses to the
/// records, where no description holds a line feed.
pub proof fn lemma_text_roundtrip(rs: Seq<RecordView>)
    requires
        no_line_feeds(rs),
    ensures
        parse_blocks(blocks_text(rs)) == Ok::<Seq<RecordView>, ParseErrorView>(rs),
{
    lemma_lines_of_blocks(rs);
    lemma_scan_records(rs, 0);
    assert(rs.take(0) =~= Seq::<RecordView>::empty());
}

/// The key of a `key: value` line, if the line is one.
pub open spec fn key_of(line: Seq<char>) -> Option<Seq<char>> {
    match split_key_value(line) {
        Some((key, _)) => Some(key),
        None => None,
    }
}

/// Whatever else a block holds, a line with a key that names no field makes
/// the block fail.
pub proof fn lemma_unknown_key_rejected(
    block: Seq<Seq<char>>,
    k: int,
    j: int,
    first_line: int,
    m: Map<Seq<char>, Seq<char>>,
)
    requires
        1 <= j <= k < block.len(),
        key_of(block[k]) is Some,
        !is_field_name(key_of(block[k])->0),
    ensures
        collect_fields(block, j, first_line, m) is Err,
    decreases k - j,
{
    if j < k {
        match split_key_value(block[j]) {
            Some((key, value)) => {
                if is_field_name(key) && !m.contains_key(key) {
                    lemma_unknown_key_rejected(block, k, j + 1, first_line, m.insert(key, value));
                }
            },
            None => {},
        }
    }
}

/// Whatever else a block holds, a line with a key that the fields read so
/// far hold already makes the block fail.
pub proof fn lemma_known_key_rejected(
    block: Seq<Seq<char>>,
    k: int,
    j: int,
    first_line: int,
    m: Map<Seq<char>, Seq<char>>,
)
    requires
        1 <= j <= k < block.len(),
        key_of(block[k]) is Some,
        m.contains_key(key_of(block[k])->0),
    ensures
        collect_fields(block, j, first_line, m) is Err,
    decreases k - j,
{
    if j < k {
        match split_key_value(block[j]) {
            Some((key, value)) => {
                if is_field_name(key) && !m.contains_key(key) {
                    lemma_known_key_rejected(block, k, j + 1, first_line, m.insert(key, value));
                }
            },
            None => {},
        }
    }
}

/// Whatever else a block holds, two lines with the same key make the block
/// fail.
pub proof fn lemma_duplicate_key_rejected(
    block: Seq<Seq<char>>,
    a: int,
    b: int,
    j: int,
    first_line: int,
    m: Map<Seq<char>, Seq<char>>,
)
    requires
        1 <= j <= a < b < block.len(),
        key_of(block[a]) is Some,
        key_of(block[a]) == key_of(block[b]),
    ensures
        collect_fields(block, j, first_line, m) is Err,
    decreases a - j,
{
    match split_key_value(block[j]) {
        Some((key, value)) => {
            if is_field_name(key) && !m.contains_key(key) {
                if j < a {
                    lemma_duplicate_key_rejected(
                        block,
                        a,
                        b,
                        j + 1,
                        first_line,
                        m.insert(key, value),
                    );
                } else {
                    lemma_known_key_rejected(block, b, j + 1, first_line, m.insert(key, value));
                }
            }
        },
        None => {},
    }
}

/// A block with a line whose key names no field, or with two lines of the
/// same key, does not parse.
pub proof fn lemma_block_keys(block: Seq<Seq<char>>, end_line: int, a: int, b: int)
    requires
        1 <= a < block.len(),
        key_of(block[a]) is Some,
        !is_field_name(key_of(block[a])->0) || (a < b < block.len() && key_of(block[a]) == key_of(
            block[b],
        )),
    ensures
        parse_block_spec(block, end_line) is Err,
{
    let first_line = end_line - block.len();
    if !is_field_name(key_of(block[a])->0) {
        lemma_unknown_key_rejected(block, a, 1, first_line, Map::empty());
    } else {
        lemma_duplicate_key_rejected(block, a, b, 1, first_line, Map::empty());
    }
}

} // verus!
