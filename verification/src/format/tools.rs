//! Line utilities of the text-based codecs: blank and marker lines,
//! `key: value` lines, quote escaping, and the CSV field splitter.

use crate::strings::{
    chars_eq, chars_to_string, copy_range, is_blank, str_to_chars, texts, to_upper, trim,
    trim_bounds, trimmed, uppercase, views,
};
use vstd::prelude::*;

verus! {

/// Whether the first character of `s` that is not white space is `#`.
pub open spec fn is_hash_line(s: Seq<char>) -> bool {
    trim(s).len() > 0 && trim(s)[0] == '#'
}

/// `s` with every doubled quote `""` replaced by one quote, from left to
/// right.
pub open spec fn unescape_quotes(s: Seq<char>) -> Seq<char>
    decreases s.len(),
{
    if s.len() == 0 {
        Seq::empty()
    } else if s.len() >= 2 && s[0] == '"' && s[1] == '"' {
        seq!['"'] + unescape_quotes(s.skip(2))
    } else {
        seq![s[0]] + unescape_quotes(s.skip(1))
    }
}

/// `s` with every quote doubled.
pub open spec fn escape_quotes(s: Seq<char>) -> Seq<char>
    decreases s.len(),
{
    if s.len() == 0 {
        Seq::empty()
    } else if s[0] == '"' {
        seq!['"', '"'] + escape_quotes(s.skip(1))
    } else {
        seq![s[0]] + escape_quotes(s.skip(1))
    }
}

/// Whether `s` is wrapped in a pair of quotes.
pub open spec fn is_quoted(s: Seq<char>) -> bool {
    s.len() >= 2 && s[0] == '"' && s.last() == '"'
}

/// `s` without the pair of quotes that wraps it and with the doubled quotes
/// between them unescaped; a text that no pair of quotes wraps is left as it
/// is.
pub open spec fn clean_quote(s: Seq<char>) -> Seq<char> {
    if is_quoted(s) {
        unescape_quotes(s.subrange(1, s.len() - 1))
    } else {
        s
    }
}

/// Index of the first colon of `s`, or `s.len()` where there is none.
pub open spec fn colon_index(s: Seq<char>) -> int
    decreases s.len(),
{
    if s.len() == 0 || s[0] == ':' {
        0
    } else {
        1 + colon_index(s.drop_first())
    }
}

/// The key and the value of a `key: value` line: the text before the first
/// colon, trimmed and in upper case, and the text after it, trimmed and
/// cleaned of quotes. A line without a colon, or with an empty key or value,
/// has neither.
pub open spec fn split_key_value(s: Seq<char>) -> Option<(Seq<char>, Seq<char>)> {
    let k = colon_index(s);
    if k < 0 || k >= s.len() {
        None
    } else {
        let key = uppercase(trim(s.take(k)));
        let value = trim(s.skip(k + 1));
        if key.len() == 0 || value.len() == 0 {
            None
        } else {
            Some((key, clean_quote(value)))
        }
    }
}

/// Unescaping undoes escaping.
pub proof fn lemma_unescape_escape(s: Seq<char>)
    ensures
        unescape_quotes(escape_quotes(s)) == s,
    decreases s.len(),
{
    if s.len() > 0 {
        let rest = s.skip(1);
        lemma_unescape_escape(rest);
        let e = escape_quotes(s);
        if s[0] == '"' {
            assert(e.skip(2) =~= escape_quotes(rest));
            assert(unescape_quotes(e) =~= seq!['"'] + rest);
        } else {
            assert(e[0] == s[0]);
            assert(e.skip(1) =~= escape_quotes(rest));
            assert(unescape_quotes(e) =~= seq![s[0]] + rest);
        }
        assert(seq![s[0]] + rest =~= s);
    } else {
        assert(unescape_quotes(escape_quotes(s)) =~= s);
    }
}

/// Whether `v` holds nothing but white space.
pub fn is_empty_line(v: &[char]) -> (r: bool)
    ensures
        r == is_blank(v@),
{
    let (start, end) = trim_bounds(v);
    start == end
}

/// Whether the first character of `v` that is not white space is `#`.
pub fn is_hash_marker(v: &[char]) -> (r: bool)
    ensures
        r == is_hash_line(v@),
{
    let (start, end) = trim_bounds(v);
    start < end && v[start] == '#'
}

/// `v` with every doubled quote replaced by one quote.
pub fn unescaped(v: &[char]) -> (out: Vec<char>)
    ensures
        out@ == unescape_quotes(v@),
{
    let mut out: Vec<char> = Vec::new();
    let mut i: usize = 0;
    proof {
        assert(v@.skip(0) =~= v@);
    }
    while i < v.len()
        invariant
            i <= v.len(),
            unescape_quotes(v@) == out@ + unescape_quotes(v@.skip(i as int)),
        decreases v.len() - i,
    {
        let ghost rest = v@.skip(i as int);
        if v[i] == '"' && i + 1 < v.len() && v[i + 1] == '"' {
            out.push('"');
            proof {
                assert(rest.skip(2) =~= v@.skip(i + 2));
                assert(unescape_quotes(v@) =~= out@ + unescape_quotes(v@.skip(i + 2)));
            }
            i += 2;
        } else {
            out.push(v[i]);
            proof {
                assert(rest.skip(1) =~= v@.skip(i + 1));
                assert(unescape_quotes(v@) =~= out@ + unescape_quotes(v@.skip(i + 1)));
            }
            i += 1;
        }
    }
    proof {
        assert(unescape_quotes(v@) =~= out@);
    }
    out
}

/// `v` with every quote doubled.
pub fn escaped(v: &[char]) -> (out: Vec<char>)
    ensures
        out@ == escape_quotes(v@),
{
    let mut out: Vec<char> = Vec::new();
    let mut i: usize = 0;
    proof {
        assert(v@.skip(0) =~= v@);
    }
    while i < v.len()
        invariant
            i <= v.len(),
            escape_quotes(v@) == out@ + escape_quotes(v@.skip(i as int)),
        decreases v.len() - i,
    {
        let ghost rest = v@.skip(i as int);
        let ghost before = out@;
        if v[i] == '"' {
            out.push('"');
            out.push('"');
            proof {
                assert(out@ =~= before + seq!['"', '"']);
            }
        } else {
            out.push(v[i]);
        }
        proof {
            assert(rest.skip(1) =~= v@.skip(i + 1));
            assert(escape_quotes(v@) =~= out@ + escape_quotes(v@.skip(i + 1)));
        }
        i += 1;
    }
    proof {
        assert(escape_quotes(v@) =~= out@);
    }
    out
}

/// `v` without the quotes that wrap it and with the doubled quotes between
/// them unescaped, or `v` as it is where no quotes wrap it.
pub fn cleaned_quote(v: &[char]) -> (out: Vec<char>)
    ensures
        out@ == clean_quote(v@),
{
    if v.len() >= 2 && v[0] == '"' && v[v.len() - 1] == '"' {
        let inner = copy_range(v, 1, v.len() - 1);
        unescaped(inner.as_slice())
    } else {
        let out = copy_range(v, 0, v.len());
        proof {
            assert(v@.subrange(0, v.len() as int) =~= v@);
        }
        out
    }
}

/// Splits a `key: value` line into its key, in upper case, and its value.
pub fn split_into_key_value(v: &[char]) -> (r: Option<(Vec<char>, Vec<char>)>)
    ensures
        match r {
            Some((key, value)) => split_key_value(v@) == Some((key@, value@)),
            None => split_key_value(v@) is None,
        },
{
    let mut k: usize = 0;
    while k < v.len() && v[k] != ':'
        invariant
            k <= v.len(),
            forall|i: int| 0 <= i < k ==> #[trigger] v@[i] != ':',
        decreases v.len() - k,
    {
        k += 1;
    }
    proof {
        lemma_colon_index_is(v@, k as int);
    }
    if k == v.len() {
        return None;
    }
    let before = copy_range(v, 0, k);
    let after = copy_range(v, k + 1, v.len());
    proof {
        assert(before@ =~= v@.take(k as int));
        assert(after@ =~= v@.skip(k + 1));
    }
    let key = to_upper(trimmed(before.as_slice()).as_slice());
    let value = trimmed(after.as_slice());
    if key.len() == 0 || value.len() == 0 {
        return None;
    }
    Some((key, cleaned_quote(value.as_slice())))
}

/// The first colon is where no earlier character is one.
pub proof fn lemma_colon_index_is(s: Seq<char>, k: int)
    requires
        0 <= k <= s.len(),
        forall|i: int| 0 <= i < k ==> #[trigger] s[i] != ':',
        k < s.len() ==> s[k] == ':',
    ensures
        colon_index(s) == k,
    decreases s.len(),
{
    if k > 0 {
        let t = s.drop_first();
        assert(s[0] != ':');
        assert forall|i: int| 0 <= i < k - 1 implies #[trigger] t[i] != ':' by {
            assert(t[i] == s[i + 1]);
        }
        lemma_colon_index_is(t, k - 1);
    }
}

/// The text of a quoted field, given what follows its opening quote: the
/// characters up to the first quote that is not doubled, as they are, with
/// each doubled quote as one quote. A field that is never closed runs to the
/// end.
pub open spec fn quoted_text(s: Seq<char>) -> Seq<char>
    decreases s.len(),
{
    if s.len() == 0 {
        Seq::empty()
    } else if s[0] == '"' {
        if s.len() >= 2 && s[1] == '"' {
            seq!['"'] + quoted_text(s.skip(2))
        } else {
            Seq::empty()
        }
    } else {
        seq![s[0]] + quoted_text(s.skip(1))
    }
}

/// The fields of the rest `s` of a CSV line, after the fields `fields` and
/// with `buffer` read of the current field.
///
/// A comma ends an ordinary field, which is trimmed. A quote opens the last
/// field, which may follow white space only; its text is taken as it is, and
/// whatever stands after its closing quote is dropped. At the end of a line
/// without a quoted field, a last field that is blank is left out, and fewer
/// than two fields are no fields at all.
pub open spec fn csv_scan(s: Seq<char>, fields: Seq<Seq<char>>, buffer: Seq<char>) -> Option<
    Seq<Seq<char>>,
>
    decreases s.len(),
{
    if s.len() == 0 {
        let all = if is_blank(buffer) {
            fields
        } else {
            fields.push(trim(buffer))
        };
        if all.len() < 2 {
            None
        } else {
            Some(all)
        }
    } else if s[0] == '"' {
        if is_blank(buffer) {
            Some(fields.push(quoted_text(s.skip(1))))
        } else {
            None
        }
    } else if s[0] == ',' {
        csv_scan(s.skip(1), fields.push(trim(buffer)), Seq::empty())
    } else {
        csv_scan(s.skip(1), fields, buffer.push(s[0]))
    }
}

/// The fields of a CSV line, or nothing where the line is malformed.
pub open spec fn split_csv(s: Seq<char>) -> Option<Seq<Seq<char>>> {
    csv_scan(s, Seq::empty(), Seq::empty())
}

/// Reads a quoted field from `v[from..]`, the text after its opening quote.
fn read_quoted(v: &[char], from: usize) -> (field: Vec<char>)
    requires
        from <= v.len(),
    ensures
        field@ == quoted_text(v@.skip(from as int)),
{
    let mut field: Vec<char> = Vec::new();
    let mut i: usize = from;
    let ghost whole = quoted_text(v@.skip(from as int));
    let mut open: bool = true;
    while open && i < v.len()
        invariant
            from <= i <= v.len(),
            whole == quoted_text(v@.skip(from as int)),
            open ==> whole == field@ + quoted_text(v@.skip(i as int)),
            !open ==> whole == field@,
        decreases (if open { 1int } else { 0int }), v.len() - i,
    {
        let ghost rest = v@.skip(i as int);
        let ghost before = field@;
        let c: char = v[i];
        if c == '"' {
            if i + 1 < v.len() && v[i + 1] == '"' {
                field.push('"');
                proof {
                    assert(rest.skip(2) =~= v@.skip(i + 2));
                    assert(before + (seq!['"'] + quoted_text(v@.skip(i + 2))) =~= field@
                        + quoted_text(v@.skip(i + 2)));
                }
                i += 2;
            } else {
                proof {
                    assert(quoted_text(rest) =~= Seq::<char>::empty());
                    assert(before + quoted_text(rest) =~= before);
                }
                open = false;
            }
        } else {
            field.push(c);
            proof {
                assert(rest.skip(1) =~= v@.skip(i + 1));
                assert(before + (seq![c] + quoted_text(v@.skip(i + 1))) =~= field@ + quoted_text(
                    v@.skip(i + 1),
                ));
            }
            i += 1;
        }
    }
    proof {
        if open {
            assert(v@.skip(i as int).len() == 0);
            assert(field@ + quoted_text(v@.skip(i as int)) =~= field@);
        }
    }
    field
}

/// Splits a CSV line into its fields. Only the last field may be quoted.
pub fn split_csv_line(v: &[char]) -> (r: Option<Vec<Vec<char>>>)
    ensures
        match r {
            Some(fields) => split_csv(v@) == Some(views(fields@)),
            None => split_csv(v@) is None,
        },
{
    let mut fields: Vec<Vec<char>> = Vec::new();
    let mut buffer: Vec<char> = Vec::new();
    let mut i: usize = 0;
    proof {
        assert(v@.skip(0) =~= v@);
        assert(views(fields@) =~= Seq::<Seq<char>>::empty());
    }
    while i < v.len()
        invariant
            i <= v.len(),
            split_csv(v@) == csv_scan(
                v@.skip(i as int),
                views(fields@),
                buffer@,
            ),
        decreases v.len() - i,
    {
        let ghost rest = v@.skip(i as int);
        let ghost done = views(fields@);
        let c: char = v[i];
        proof {
            assert(rest.skip(1) =~= v@.skip(i + 1));
        }
        if c == '"' {
            if !is_empty_line(buffer.as_slice()) {
                return None;
            }
            let field = read_quoted(v, i + 1);
            fields.push(field);
            proof {
                assert(views(fields@) =~= done.push(field@));
            }
            return Some(fields);
        } else if c == ',' {
            let field = trimmed(buffer.as_slice());
            fields.push(field);
            buffer = Vec::new();
            proof {
                assert(views(fields@) =~= done.push(field@));
                assert(buffer@ =~= Seq::<char>::empty());
            }
        } else {
            buffer.push(c);
        }
        i += 1;
    }
    let ghost done = views(fields@);
    if !is_empty_line(buffer.as_slice()) {
        let field = trimmed(buffer.as_slice());
        fields.push(field);
        proof {
            assert(views(fields@) =~= done.push(field@));
        }
    }
    if fields.len() < 2 {
        None
    } else {
        Some(fields)
    }
}

/// Line utilities on text: what a codec asks of a line before it reads it.
pub trait LineUtils {
    /// The characters of the line.
    spec fn line(&self) -> Seq<char>;

    /// Whether the line holds nothing but white space.
    fn is_empty_line(&self) -> (r: bool)
        ensures
            r == is_blank(self.line()),
    ;

    /// Whether the first character of the line that is not white space is
    /// `#`.
    fn is_hash_marker(&self) -> (r: bool)
        ensures
            r == is_hash_line(self.line()),
    ;

    /// Splits a `key: value` line into its key, in upper case, and its
    /// value, trimmed and cleaned of quotes.
    fn split_into_key_value(&self) -> (r: Option<(String, String)>)
        ensures
            match r {
                Some((key, value)) => split_key_value(self.line()) == Some((key@, value@)),
                None => split_key_value(self.line()) is None,
            },
    ;

    /// Whether the line and `other` hold the same text, white space around
    /// them aside.
    fn is_eq(&self, other: &str) -> (r: bool)
        ensures
            r == (trim(self.line()) == trim(other@)),
    ;

    /// Splits a CSV line into its fields. Only the last field may be quoted.
    fn split_csv_line(&self) -> (r: Option<Vec<String>>)
        ensures
            match r {
                Some(fields) => split_csv(self.line()) == Some(texts(fields@)),
                None => split_csv(self.line()) is None,
            },
    ;

    /// The line without the quotes that wrap it and with the doubled quotes
    /// between them unescaped, or the line as it is where no quotes wrap it.
    fn clean_quote(&self) -> (r: String)
        ensures
            r@ == clean_quote(self.line()),
    ;
}

impl LineUtils for str {
    open spec fn line(&self) -> Seq<char> {
        self@
    }

    fn is_empty_line(&self) -> (r: bool) {
        let chars = str_to_chars(self);
        is_empty_line(chars.as_slice())
    }

    fn is_hash_marker(&self) -> (r: bool) {
        let chars = str_to_chars(self);
        is_hash_marker(chars.as_slice())
    }

    fn split_into_key_value(&self) -> (r: Option<(String, String)>) {
        let chars = str_to_chars(self);
        match split_into_key_value(chars.as_slice()) {
            Some((key, value)) => Some(
                (chars_to_string(key.as_slice()), chars_to_string(value.as_slice())),
            ),
            None => None,
        }
    }

    fn is_eq(&self, other: &str) -> (r: bool) {
        let mine = trimmed(str_to_chars(self).as_slice());
        let theirs = trimmed(str_to_chars(other).as_slice());
        chars_eq(mine.as_slice(), theirs.as_slice())
    }

    fn split_csv_line(&self) -> (r: Option<Vec<String>>) {
        let chars = str_to_chars(self);
        match split_csv_line(chars.as_slice()) {
            Some(fields) => {
                let mut out: Vec<String> = Vec::new();
                let mut i: usize = 0;
                while i < fields.len()
                    invariant
                        i <= fields.len(),
                        texts(out@) == views(fields@).take(i as int),
                    decreases fields.len() - i,
                {
                    let ghost before = texts(out@);
                    out.push(chars_to_string(fields[i].as_slice()));
                    proof {
                        assert(texts(out@) =~= before.push(fields@[i as int]@));
                        assert(texts(out@) =~= views(fields@).take(i + 1));
                    }
                    i += 1;
                }
                proof {
                    assert(views(fields@).take(i as int) =~= views(fields@));
                }
                Some(out)
            },
            None => None,
        }
    }

    fn clean_quote(&self) -> (r: String) {
        let chars = str_to_chars(self);
        chars_to_string(cleaned_quote(chars.as_slice()).as_slice())
    }
}

} // verus!
