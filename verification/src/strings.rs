//! Character-sequence utilities shared by the text-based codecs.

use vstd::prelude::*;
use vstd::utf8::{decode_utf8, valid_utf8};

verus! {

/// Specification of `String::push`: the character is appended to the
/// string's character sequence.
pub assume_specification[ String::push ](s: &mut String, c: char)
    ensures
        final(s)@ == old(s)@.push(c),
;

/// Copies the characters of `s` into a vector.
pub fn str_to_chars(s: &str) -> (out: Vec<char>)
    ensures
        out@ == s@,
{
    let mut out: Vec<char> = Vec::new();
    for c in it: s.chars()
        invariant
            out@ == it.seq().take(it.index@),
    {
        out.push(c);
    }
    out
}

/// Builds a string from a slice of characters.
pub fn chars_to_string(v: &[char]) -> (out: String)
    ensures
        out@ == v@,
{
    let mut out: String = String::new();
    let mut i: usize = 0;
    while i < v.len()
        invariant
            i <= v.len(),
            out@ == v@.take(i as int),
        decreases v.len() - i,
    {
        out.push(v[i]);
        i += 1;
        proof {
            assert(v@.take(i as int) == v@.take(i as int - 1).push(v@[i as int - 1]));
        }
    }
    proof {
        assert(v@.take(v.len() as int) == v@);
    }
    out
}

/// Calls `String::from_utf8`. The bytes become a string exactly where they
/// are well-formed UTF-8, and the string then holds the characters that the
/// bytes encode.
#[verifier::external_body]
pub(crate) fn string_from_utf8(bytes: Vec<u8>) -> (r: Option<String>)
    ensures
        r is Some <==> valid_utf8(bytes@),
        r matches Some(s) ==> s@ == decode_utf8(bytes@),
{
    String::from_utf8(bytes).ok()
}

/// Whether `c` has the Unicode `White_Space` property.
pub open spec fn is_space(c: char) -> bool {
    let n = c as u32;
    ||| 0x09 <= n <= 0x0D
    ||| n == 0x20
    ||| n == 0x85
    ||| n == 0xA0
    ||| n == 0x1680
    ||| 0x2000 <= n <= 0x200A
    ||| n == 0x2028
    ||| n == 0x2029
    ||| n == 0x202F
    ||| n == 0x205F
    ||| n == 0x3000
}

/// Number of leading white-space characters of `s`.
pub open spec fn leading_spaces(s: Seq<char>) -> nat
    decreases s.len(),
{
    if s.len() > 0 && is_space(s[0]) {
        1 + leading_spaces(s.drop_first())
    } else {
        0
    }
}

/// Number of trailing white-space characters of `s`.
pub open spec fn trailing_spaces(s: Seq<char>) -> nat
    decreases s.len(),
{
    if s.len() > 0 && is_space(s.last()) {
        1 + trailing_spaces(s.drop_last())
    } else {
        0
    }
}

/// `s` without its leading and trailing white space.
pub open spec fn trim(s: Seq<char>) -> Seq<char> {
    let a = leading_spaces(s) as int;
    let rest = s.skip(a);
    rest.take(rest.len() - trailing_spaces(rest))
}

/// Whether every character of `s` is white space.
pub open spec fn is_blank(s: Seq<char>) -> bool {
    trim(s).len() == 0
}

/// The count of leading white space is fixed by the first character that is
/// not white space.
pub proof fn lemma_leading_spaces_is(s: Seq<char>, k: int)
    requires
        0 <= k <= s.len(),
        forall|i: int| 0 <= i < k ==> is_space(#[trigger] s[i]),
        k < s.len() ==> !is_space(s[k]),
    ensures
        leading_spaces(s) == k,
    decreases s.len(),
{
    if k > 0 {
        let t = s.drop_first();
        assert(is_space(s[0]));
        assert forall|i: int| 0 <= i < k - 1 implies is_space(#[trigger] t[i]) by {
            assert(t[i] == s[i + 1]);
        }
        lemma_leading_spaces_is(t, k - 1);
    }
}

/// The count of trailing white space is fixed by the last character that is
/// not white space.
pub proof fn lemma_trailing_spaces_is(s: Seq<char>, k: int)
    requires
        0 <= k <= s.len(),
        forall|i: int| s.len() - k <= i < s.len() ==> is_space(#[trigger] s[i]),
        k < s.len() ==> !is_space(s[s.len() - k - 1]),
    ensures
        trailing_spaces(s) == k,
    decreases s.len(),
{
    if k > 0 {
        let t = s.drop_last();
        assert(is_space(s[s.len() - 1]));
        assert forall|i: int| t.len() - (k - 1) <= i < t.len() implies is_space(#[trigger] t[i]) by {
            assert(t[i] == s[i]);
        }
        lemma_trailing_spaces_is(t, k - 1);
    }
}

/// Whether `c` is a white-space character.
pub fn char_is_space(c: char) -> (r: bool)
    ensures
        r == is_space(c),
{
    let n: u32 = c as u32;
    (0x09 <= n && n <= 0x0D) || n == 0x20 || n == 0x85 || n == 0xA0 || n == 0x1680 || (0x2000 <= n
        && n <= 0x200A) || n == 0x2028 || n == 0x2029 || n == 0x202F || n == 0x205F || n == 0x3000
}

/// The bounds of `trim(v@)` inside `v`: the trimmed text is `v[start..end]`.
pub fn trim_bounds(v: &[char]) -> (r: (usize, usize))
    ensures
        r.0 <= r.1 <= v.len(),
        v@.subrange(r.0 as int, r.1 as int) == trim(v@),
{
    let mut start: usize = 0;
    while start < v.len() && char_is_space(v[start])
        invariant
            start <= v.len(),
            forall|i: int| 0 <= i < start ==> is_space(#[trigger] v@[i]),
        decreases v.len() - start,
    {
        start += 1;
    }
    let mut end: usize = v.len();
    while end > start && char_is_space(v[end - 1])
        invariant
            start <= end <= v.len(),
            forall|i: int| end <= i < v.len() ==> is_space(#[trigger] v@[i]),
        decreases end,
    {
        end -= 1;
    }
    proof {
        lemma_leading_spaces_is(v@, start as int);
        let rest = v@.skip(start as int);
        assert forall|i: int| rest.len() - (v.len() - end) <= i < rest.len() implies is_space(
            #[trigger] rest[i],
        ) by {
            assert(rest[i] == v@[i + start]);
        }
        if v.len() - end < rest.len() {
            assert(rest[rest.len() - (v.len() - end) - 1] == v@[end - 1]);
        }
        lemma_trailing_spaces_is(rest, (v.len() - end) as int);
        assert(rest.take(rest.len() - (v.len() - end)) =~= v@.subrange(start as int, end as int));
    }
    (start, end)
}

/// Copies `v[start..end]` into a new vector.
pub fn copy_range(v: &[char], start: usize, end: usize) -> (out: Vec<char>)
    requires
        start <= end <= v.len(),
    ensures
        out@ == v@.subrange(start as int, end as int),
{
    let mut out: Vec<char> = Vec::new();
    let mut i: usize = start;
    while i < end
        invariant
            start <= i <= end <= v.len(),
            out@ == v@.subrange(start as int, i as int),
        decreases end - i,
    {
        out.push(v[i]);
        i += 1;
        proof {
            assert(v@.subrange(start as int, i as int) == v@.subrange(start as int, i as int - 1).push(
                v@[i as int - 1],
            ));
        }
    }
    out
}

/// `v` without its leading and trailing white space.
pub fn trimmed(v: &[char]) -> (out: Vec<char>)
    ensures
        out@ == trim(v@),
{
    let (start, end) = trim_bounds(v);
    copy_range(v, start, end)
}

/// Index of the first line feed of `s`, or `s.len()` where there is none.
pub open spec fn line_end(s: Seq<char>) -> int
    decreases s.len(),
{
    if s.len() == 0 || s[0] == '\n' {
        0
    } else {
        1 + line_end(s.drop_first())
    }
}

/// `s` without one trailing carriage return.
pub open spec fn strip_cr(s: Seq<char>) -> Seq<char> {
    if s.len() > 0 && s.last() == '\r' {
        s.drop_last()
    } else {
        s
    }
}

/// The lines of `s`. A line ends at a line feed, or at a carriage return
/// directly followed by one; the terminator is not part of the line. Text
/// after the last line feed is a line of its own unless it is empty.
pub open spec fn lines(s: Seq<char>) -> Seq<Seq<char>>
    decreases s.len(),
{
    if s.len() == 0 {
        Seq::empty()
    } else {
        let k = line_end(s);
        if k < 0 || k >= s.len() {
            seq![s]
        } else {
            seq![strip_cr(s.take(k))] + lines(s.skip(k + 1))
        }
    }
}

/// The character sequences held by a sequence of vectors.
pub open spec fn views(rows: Seq<Vec<char>>) -> Seq<Seq<char>> {
    Seq::new(rows.len(), |i: int| rows[i]@)
}

/// The character sequences held by a sequence of strings.
pub open spec fn texts(rows: Seq<String>) -> Seq<Seq<char>> {
    Seq::new(rows.len(), |i: int| rows[i]@)
}

/// The parts of `parts`, with `sep` between each two.
pub open spec fn join(parts: Seq<Seq<char>>, sep: Seq<char>) -> Seq<char>
    decreases parts.len(),
{
    if parts.len() == 0 {
        Seq::empty()
    } else if parts.len() == 1 {
        parts[0]
    } else {
        join(parts.drop_last(), sep) + sep + parts.last()
    }
}

/// The parts of `parts`, each followed by `sep`.
pub open spec fn each_then(parts: Seq<Seq<char>>, sep: Seq<char>) -> Seq<char>
    decreases parts.len(),
{
    if parts.len() == 0 {
        Seq::empty()
    } else {
        parts[0] + sep + each_then(parts.skip(1), sep)
    }
}

/// One more part, followed by `sep`, at the end.
pub proof fn lemma_each_then_push(parts: Seq<Seq<char>>, last: Seq<char>, sep: Seq<char>)
    ensures
        each_then(parts.push(last), sep) == each_then(parts, sep) + last + sep,
    decreases parts.len(),
{
    let all = parts.push(last);
    if parts.len() == 0 {
        assert(all.skip(1) =~= Seq::<Seq<char>>::empty());
        assert(each_then(all.skip(1), sep) =~= Seq::<char>::empty());
        assert(all[0] == last);
        assert(each_then(all, sep) =~= last + sep);
        assert(each_then(parts, sep) + last + sep =~= last + sep);
    } else {
        assert(all[0] == parts[0]);
        assert(all.skip(1) =~= parts.skip(1).push(last));
        lemma_each_then_push(parts.skip(1), last, sep);
        assert(each_then(all, sep) =~= each_then(parts, sep) + last + sep);
    }
}

/// Joined parts are all but the last, each followed by `sep`, and the last.
pub proof fn lemma_join_as_each_then(parts: Seq<Seq<char>>, sep: Seq<char>)
    requires
        parts.len() >= 1,
    ensures
        join(parts, sep) == each_then(parts.drop_last(), sep) + parts.last(),
    decreases parts.len(),
{
    if parts.len() == 1 {
        assert(each_then(parts.drop_last(), sep) + parts.last() =~= parts[0]);
    } else {
        let init = parts.drop_last();
        lemma_join_as_each_then(init, sep);
        lemma_each_then_push(init.drop_last(), init.last(), sep);
        assert(init.drop_last().push(init.last()) =~= init);
        assert(join(parts, sep) =~= each_then(init, sep) + parts.last());
    }
}

/// The first line feed is where no earlier character is one.
pub proof fn lemma_line_end_is(s: Seq<char>, k: int)
    requires
        0 <= k <= s.len(),
        forall|i: int| 0 <= i < k ==> #[trigger] s[i] != '\n',
        k < s.len() ==> s[k] == '\n',
    ensures
        line_end(s) == k,
    decreases s.len(),
{
    if k > 0 {
        let t = s.drop_first();
        assert(s[0] != '\n');
        assert forall|i: int| 0 <= i < k - 1 implies #[trigger] t[i] != '\n' by {
            assert(t[i] == s[i + 1]);
        }
        lemma_line_end_is(t, k - 1);
    }
}

/// The line feed that ends the first line, and the absence of one before it.
pub proof fn lemma_line_end(s: Seq<char>)
    ensures
        0 <= line_end(s) <= s.len(),
        forall|i: int| 0 <= i < line_end(s) ==> #[trigger] s[i] != '\n',
        line_end(s) < s.len() ==> s[line_end(s)] == '\n',
    decreases s.len(),
{
    if !(s.len() == 0 || s[0] == '\n') {
        let t = s.drop_first();
        lemma_line_end(t);
        assert forall|i: int| 0 <= i < line_end(s) implies #[trigger] s[i] != '\n' by {
            if i > 0 {
                assert(s[i] == t[i - 1]);
            }
        }
        if line_end(s) < s.len() {
            assert(s[line_end(s)] == t[line_end(t)]);
        }
    }
}

/// Splits `v` into its lines.
pub fn split_lines(v: &[char]) -> (out: Vec<Vec<char>>)
    ensures
        views(out@) == lines(v@),
{
    let mut out: Vec<Vec<char>> = Vec::new();
    let mut pos: usize = 0;
    proof {
        assert(views(out@) =~= Seq::<Seq<char>>::empty());
        assert(v@.skip(0) =~= v@);
    }
    while pos < v.len()
        invariant
            pos <= v.len(),
            lines(v@) == views(out@) + lines(v@.skip(pos as int)),
        decreases v.len() - pos,
    {
        let mut k: usize = pos;
        while k < v.len() && v[k] != '\n'
            invariant
                pos <= k <= v.len(),
                forall|i: int| pos <= i < k ==> #[trigger] v@[i] != '\n',
            decreases v.len() - k,
        {
            k += 1;
        }
        let ghost rest = v@.skip(pos as int);
        let ghost before = views(out@);
        proof {
            assert forall|i: int| 0 <= i < k - pos implies #[trigger] rest[i] != '\n' by {
                assert(rest[i] == v@[i + pos]);
            }
            lemma_line_end_is(rest, k - pos);
        }
        if k == v.len() {
            let line = copy_range(v, pos, k);
            out.push(line);
            proof {
                assert(line@ =~= rest);
                assert(lines(rest) =~= seq![rest]);
                assert(v@.skip(k as int).len() == 0);
                assert(lines(v@.skip(k as int)) =~= Seq::<Seq<char>>::empty());
                assert(views(out@) =~= before + seq![rest]);
            }
            pos = k;
        } else {
            let end: usize = if k > pos && v[k - 1] == '\r' { (k - 1) as usize } else { k };
            let line = copy_range(v, pos, end);
            out.push(line);
            proof {
                let first = rest.take(k - pos);
                assert(first =~= v@.subrange(pos as int, k as int));
                assert(line@ =~= strip_cr(first));
                assert(rest.skip(k - pos + 1) =~= v@.skip(k + 1));
                assert(lines(rest) == seq![strip_cr(first)] + lines(v@.skip(k + 1)));
                assert(views(out@) =~= before + seq![strip_cr(first)]);
                assert(lines(v@) =~= views(out@) + lines(v@.skip(k + 1)));
            }
            pos = k + 1;
        }
    }
    proof {
        assert(v@.skip(pos as int).len() == 0);
        assert(lines(v@) =~= views(out@));
    }
    out
}

/// Whether every character of `s` is an ASCII character.
pub open spec fn is_ascii_text(s: Seq<char>) -> bool {
    forall|i: int| 0 <= i < s.len() ==> (#[trigger] s[i] as u32) < 128
}

/// The upper-case form of an ASCII character; other characters map to
/// themselves.
pub open spec fn ascii_upper(c: char) -> char {
    if 'a' <= c <= 'z' {
        ((c as u8) - 32) as u8 as char
    } else {
        c
    }
}

/// The upper-case form that the standard library's Unicode case mapping gives
/// a text.
pub uninterp spec fn unicode_uppercase(s: Seq<char>) -> Seq<char>;

/// The upper-case form of `s`: letter by letter for ASCII text, and by the
/// Unicode case mapping for any other text.
pub open spec fn uppercase(s: Seq<char>) -> Seq<char> {
    if is_ascii_text(s) {
        Seq::new(s.len(), |i: int| ascii_upper(s[i]))
    } else {
        unicode_uppercase(s)
    }
}

/// Whether `s` is one or more of the letters `A` to `Z`.
pub open spec fn is_upper_word(s: Seq<char>) -> bool {
    s.len() > 0 && forall|i: int| 0 <= i < s.len() ==> 'A' <= #[trigger] s[i] <= 'Z'
}

/// Whether `s` neither starts nor ends with white space.
pub open spec fn is_tidy(s: Seq<char>) -> bool {
    s.len() == 0 || (!is_space(s[0]) && !is_space(s.last()))
}

/// Whether `s` holds no line feed.
pub open spec fn has_no_line_feed(s: Seq<char>) -> bool {
    forall|i: int| 0 <= i < s.len() ==> #[trigger] s[i] != '\n'
}

/// Whether `s` holds no line feed and does not end with a carriage return.
pub open spec fn is_one_line(s: Seq<char>) -> bool {
    &&& forall|i: int| 0 <= i < s.len() ==> #[trigger] s[i] != '\n'
    &&& s.len() > 0 ==> s.last() != '\r'
}

/// Text that neither starts nor ends with white space is its own trimmed
/// form.
pub proof fn lemma_trim_tidy(s: Seq<char>)
    requires
        is_tidy(s),
    ensures
        trim(s) == s,
{
    lemma_leading_spaces_is(s, 0);
    assert(s.skip(0) =~= s);
    lemma_trailing_spaces_is(s, 0);
    assert(s.take(s.len() as int) =~= s);
}

/// The empty text is blank.
pub proof fn lemma_empty_is_blank()
    ensures
        is_blank(Seq::<char>::empty()),
        trim(Seq::<char>::empty()) == Seq::<char>::empty(),
{
    lemma_trim_tidy(Seq::<char>::empty());
}

/// The first line of a text that starts with the line `a` and a line feed
/// is `a`, and its other lines are those of the rest.
pub proof fn lemma_lines_first(a: Seq<char>, rest: Seq<char>)
    requires
        is_one_line(a),
    ensures
        lines(a + "\n"@ + rest) == seq![a] + lines(rest),
{
    reveal_strlit("\n");
    let s = a + "\n"@ + rest;
    assert(s.len() > 0);
    assert forall|i: int| 0 <= i < a.len() implies #[trigger] s[i] != '\n' by {
        assert(s[i] == a[i]);
    }
    assert(s[a.len() as int] == '\n');
    lemma_line_end_is(s, a.len() as int);
    assert(s.take(a.len() as int) =~= a);
    assert(s.skip(a.len() as int + 1) =~= rest);
}

/// The lines of two texts joined, where the first is empty or ends with a
/// line feed, are the lines of the first and then those of the second.
pub proof fn lemma_lines_concat(x: Seq<char>, y: Seq<char>)
    requires
        x.len() == 0 || x.last() == '\n',
    ensures
        lines(x + y) == lines(x) + lines(y),
    decreases x.len(),
{
    if x.len() == 0 {
        assert(x + y =~= y);
        assert(lines(x) + lines(y) =~= lines(y));
    } else {
        let s = x + y;
        lemma_line_end(x);
        let k = line_end(x);
        assert(k < x.len()) by {
            if k >= x.len() {
                assert(x[x.len() - 1] != '\n');
            }
        }
        assert forall|i: int| 0 <= i < k implies #[trigger] s[i] != '\n' by {
            assert(s[i] == x[i]);
        }
        assert(s[k] == x[k]);
        lemma_line_end_is(s, k);
        let x2 = x.skip(k + 1);
        assert(s.take(k) =~= x.take(k));
        assert(s.skip(k + 1) =~= x2 + y);
        if x2.len() > 0 {
            assert(x2.last() == x.last());
        }
        lemma_lines_concat(x2, y);
        assert(lines(s) =~= lines(x) + lines(y));
    }
}

/// One-line texts, each followed by a line feed, split into those texts,
/// and the lines of what follows them.
pub proof fn lemma_lines_of_each_then(ls: Seq<Seq<char>>, rest: Seq<char>)
    requires
        forall|i: int| 0 <= i < ls.len() ==> is_one_line(#[trigger] ls[i]),
    ensures
        lines(each_then(ls, "\n"@) + rest) == ls + lines(rest),
    decreases ls.len(),
{
    if ls.len() == 0 {
        assert(each_then(ls, "\n"@) + rest =~= rest);
        assert(ls + lines(rest) =~= lines(rest));
    } else {
        let tail = ls.skip(1);
        let after = each_then(tail, "\n"@) + rest;
        assert(is_one_line(ls[0]));
        assert(each_then(ls, "\n"@) + rest =~= ls[0] + "\n"@ + after);
        lemma_lines_first(ls[0], after);
        assert forall|i: int| 0 <= i < tail.len() implies is_one_line(#[trigger] tail[i]) by {
            assert(tail[i] == ls[i + 1]);
        }
        lemma_lines_of_each_then(tail, rest);
        assert(seq![ls[0]] + (tail + lines(rest)) =~= ls + lines(rest));
    }
}

/// A text that neither starts nor ends with white space is what trimming
/// leaves of it after one space.
pub proof fn lemma_trim_after_space(w: Seq<char>)
    requires
        w.len() > 0,
        is_tidy(w),
    ensures
        trim(" "@ + w) == w,
{
    reveal_strlit(" ");
    let s = " "@ + w;
    assert(s[0] == ' ');
    assert(is_space(s[0]));
    assert(s[1] == w[0]);
    lemma_leading_spaces_is(s, 1);
    assert(s.skip(1) =~= w);
    lemma_trailing_spaces_is(w, 0);
    assert(w.take(w.len() as int) =~= w);
}

/// Whether `s` is ASCII text without lower-case letters.
pub open spec fn is_upper_ascii(s: Seq<char>) -> bool {
    forall|i: int|
        0 <= i < s.len() ==> (#[trigger] s[i] as u32) < 128 && !('a' <= s[i] <= 'z')
}

/// ASCII text without lower-case letters is its own upper-case form.
pub proof fn lemma_uppercase_fixed(s: Seq<char>)
    requires
        is_upper_ascii(s),
    ensures
        uppercase(s) == s,
{
    assert(is_ascii_text(s));
    assert(uppercase(s) =~= s);
}

/// Calls `str::to_uppercase`. The contract only names the result: it is the
/// Unicode upper-case mapping of the argument, a function of the text alone.
#[verifier::external_body]
fn unicode_upper(s: &str) -> (r: String)
    ensures
        r@ == unicode_uppercase(s@),
{
    s.to_uppercase()
}

/// The upper-case form of `v`.
pub fn to_upper(v: &[char]) -> (out: Vec<char>)
    ensures
        out@ == uppercase(v@),
{
    let mut out: Vec<char> = Vec::new();
    let mut i: usize = 0;
    while i < v.len()
        invariant
            i <= v.len(),
            is_ascii_text(v@.take(i as int)),
            out@ == Seq::new(i as nat, |j: int| ascii_upper(v@[j])),
        decreases v.len() - i,
    {
        let c: char = v[i];
        if c as u32 >= 128 {
            proof {
                assert(!((v@[i as int] as u32) < 128));
            }
            let text = chars_to_string(v);
            let upper = unicode_upper(text.as_str());
            return str_to_chars(upper.as_str());
        }
        let u: char = if 'a' <= c && c <= 'z' { ((c as u8) - 32) as char } else { c };
        out.push(u);
        proof {
            assert(out@ =~= Seq::new((i + 1) as nat, |j: int| ascii_upper(v@[j])));
            assert forall|j: int| 0 <= j < i + 1 implies (#[trigger] v@.take(i + 1)[j] as u32)
                < 128 by {
                if j < i {
                    assert(v@.take(i as int)[j] == v@[j]);
                }
            }
        }
        i += 1;
    }
    proof {
        assert(v@.take(v.len() as int) =~= v@);
    }
    out
}

/// The lower-case form of an ASCII character; other characters map to
/// themselves.
pub open spec fn ascii_lower(c: char) -> char {
    if 'A' <= c <= 'Z' {
        ((c as u8) + 32) as u8 as char
    } else {
        c
    }
}

/// The lower-case form that the standard library's Unicode case mapping gives
/// a text.
pub uninterp spec fn unicode_lowercase(s: Seq<char>) -> Seq<char>;

/// The lower-case form of `s`: letter by letter for ASCII text, and by the
/// Unicode case mapping for any other text.
pub open spec fn lowercase(s: Seq<char>) -> Seq<char> {
    if is_ascii_text(s) {
        Seq::new(s.len(), |i: int| ascii_lower(s[i]))
    } else {
        unicode_lowercase(s)
    }
}

/// Calls `str::to_lowercase`. The contract only names the result: it is the
/// Unicode lower-case mapping of the argument, a function of the text alone.
#[verifier::external_body]
fn unicode_lower(s: &str) -> (r: String)
    ensures
        r@ == unicode_lowercase(s@),
{
    s.to_lowercase()
}

/// The lower-case form of `v`.
pub fn to_lower(v: &[char]) -> (out: Vec<char>)
    ensures
        out@ == lowercase(v@),
{
    let mut out: Vec<char> = Vec::new();
    let mut i: usize = 0;
    while i < v.len()
        invariant
            i <= v.len(),
            is_ascii_text(v@.take(i as int)),
            out@ == Seq::new(i as nat, |j: int| ascii_lower(v@[j])),
        decreases v.len() - i,
    {
        let c: char = v[i];
        if c as u32 >= 128 {
            proof {
                assert(!((v@[i as int] as u32) < 128));
            }
            let text = chars_to_string(v);
            let lower = unicode_lower(text.as_str());
            return str_to_chars(lower.as_str());
        }
        let l: char = if 'A' <= c && c <= 'Z' { ((c as u8) + 32) as char } else { c };
        out.push(l);
        proof {
            assert(out@ =~= Seq::new((i + 1) as nat, |j: int| ascii_lower(v@[j])));
            assert forall|j: int| 0 <= j < i + 1 implies (#[trigger] v@.take(i + 1)[j] as u32)
                < 128 by {
                if j < i {
                    assert(v@.take(i as int)[j] == v@[j]);
                }
            }
        }
        i += 1;
    }
    proof {
        assert(v@.take(v.len() as int) =~= v@);
    }
    out
}

/// Whether the characters of `v` are those of `s`.
pub fn chars_eq_str(v: &[char], s: &str) -> (r: bool)
    ensures
        r == (v@ == s@),
{
    let other = str_to_chars(s);
    chars_eq(v, other.as_slice())
}

/// Whether two character slices hold the same text.
pub fn chars_eq(a: &[char], b: &[char]) -> (r: bool)
    ensures
        r == (a@ == b@),
{
    if a.len() != b.len() {
        return false;
    }
    let mut i: usize = 0;
    while i < a.len()
        invariant
            i <= a.len(),
            a.len() == b.len(),
            a@.take(i as int) == b@.take(i as int),
        decreases a.len() - i,
    {
        if a[i] != b[i] {
            return false;
        }
        proof {
            assert(a@.take(i + 1) =~= a@.take(i as int).push(a@[i as int]));
            assert(b@.take(i + 1) =~= b@.take(i as int).push(b@[i as int]));
        }
        i += 1;
    }
    proof {
        assert(a@.take(a.len() as int) =~= a@);
        assert(b@.take(b.len() as int) =~= b@);
    }
    true
}

/// Appends the characters of `s` to `out`.
pub fn push_str(out: &mut Vec<char>, s: &str)
    ensures
        final(out)@ == old(out)@ + s@,
{
    let mut tail = str_to_chars(s);
    out.append(&mut tail);
}

/// Appends the characters of `v` to `out`.
pub fn push_chars(out: &mut Vec<char>, v: &[char])
    ensures
        final(out)@ == old(out)@ + v@,
{
    let mut i: usize = 0;
    while i < v.len()
        invariant
            i <= v.len(),
            out@ == old(out)@ + v@.take(i as int),
        decreases v.len() - i,
    {
        out.push(v[i]);
        proof {
            assert(v@.take(i + 1) =~= v@.take(i as int).push(v@[i as int]));
        }
        i += 1;
    }
    proof {
        assert(v@.take(v.len() as int) =~= v@);
    }
}

} // verus!
