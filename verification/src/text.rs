//! Text primitives shared by the renderer and the submission pipeline.
//!
//! Every function here is stated over the sequence of characters that a string
//! holds, so that the contracts of the callers can be read as plain equations
//! between sequences.

use vstd::prelude::*;
use vstd::string::StringExecFns;

verus! {

/// `String::push` of the standard library appends one character to the end of
/// the string and leaves the rest as it was.
pub assume_specification[ String::push ](s: &mut String, c: char)
    ensures
        final(s)@ == old(s)@.push(c),
;

/// Whether a character has the Unicode property `White_Space`, as
/// `char::is_whitespace` of the standard library decides it.
pub uninterp spec fn is_whitespace(c: char) -> bool;

/// Whether a character is one of the 128 of ASCII.
pub open spec fn ascii(c: char) -> bool {
    c < '\u{80}'
}

/// The whitespace of ASCII: the space, and the five characters from the
/// tabulator to the carriage return.
pub open spec fn ascii_space(c: char) -> bool {
    c == ' ' || ('\t' <= c && c <= '\r')
}

/// What is known of a character without looking into the Unicode tables: a
/// character of ASCII is whitespace exactly if it is [`ascii_space`].
pub open spec fn whitespace_settled(c: char) -> bool {
    ascii(c) ==> is_whitespace(c) == ascii_space(c)
}

/// `char::is_whitespace` of the standard library tells whether the character
/// has the Unicode property `White_Space`. The property is left
/// uninterpreted here but for the characters of ASCII, of which the space
/// and the characters from the tabulator to the carriage return have it and
/// no other.
pub assume_specification[ char::is_whitespace ](c: char) -> (b: bool)
    ensures
        b == is_whitespace(c),
        ascii(c) ==> b == ascii_space(c),
;

/// The lowercase form of a text, as `str::to_lowercase` of the standard library
/// computes it from the Unicode case tables.
pub uninterp spec fn lowercased(s: Seq<char>) -> Seq<char>;

/// Whether a text holds nothing but ASCII.
pub open spec fn ascii_text(s: Seq<char>) -> bool {
    forall|i: int| 0 <= i < s.len() ==> ascii(#[trigger] s[i])
}

/// The lowercase form of a character of ASCII: the small letter for a
/// capital letter, the character itself for any other.
pub open spec fn ascii_lower(c: char) -> char {
    if 'A' <= c && c <= 'Z' {
        ((c as u8) + 32) as char
    } else {
        c
    }
}

/// A text with each character replaced by its [`ascii_lower`].
pub open spec fn ascii_lowered(s: Seq<char>) -> Seq<char> {
    Seq::new(s.len(), |i: int| ascii_lower(s[i]))
}

/// What is known of the lowercase form of a text without looking into the
/// Unicode tables: of a text of ASCII it is the text with its capital
/// letters made small.
pub open spec fn lowercase_settled(s: Seq<char>) -> bool {
    ascii_text(s) ==> lowercased(s) == ascii_lowered(s)
}

/// `str::to_lowercase` of the standard library returns the lowercase
/// equivalent of the text as a new string. The mapping is left
/// uninterpreted here but for text of ASCII, where it makes the capital
/// letters small and changes nothing else.
pub assume_specification[ str::to_lowercase ](s: &str) -> (r: String)
    ensures
        r@ == lowercased(s@),
        ascii_text(s@) ==> r@ == ascii_lowered(s@),
;

/// The characters of `s`, in order.
pub fn chars_of(s: &str) -> (v: Vec<char>)
    ensures
        v@ == s@,
{
    let mut v: Vec<char> = Vec::new();
    let it = s.chars();
    for c in iter: it
        invariant
            v@ == iter.history(),
    {
        v.push(c);
    }
    v
}

/// The string that holds the characters `v[from..to]`.
pub fn string_of(v: &Vec<char>, from: usize, to: usize) -> (s: String)
    requires
        from <= to <= v.len(),
    ensures
        s@ == v@.subrange(from as int, to as int),
{
    let mut s = String::new();
    let mut i: usize = from;
    while i < to
        invariant
            from <= i <= to <= v.len(),
            s@ == v@.subrange(from as int, i as int),
        decreases to - i,
    {
        s.push(v[i]);
        i += 1;
        assert(v@.subrange(from as int, i as int) == v@.subrange(from as int, i - 1).push(
            v@[i - 1],
        ));
    }
    s
}

/// Whether two strings hold the same characters.
pub fn same_text(a: &str, b: &str) -> (same: bool)
    ensures
        same == (a@ == b@),
{
    let x = chars_of(a);
    let y = chars_of(b);
    if x.len() != y.len() {
        return false;
    }
    let mut i: usize = 0;
    while i < x.len()
        invariant
            i <= x.len(),
            x.len() == y.len(),
            x@ == a@,
            y@ == b@,
            x@.subrange(0, i as int) == y@.subrange(0, i as int),
        decreases x.len() - i,
    {
        if x[i] != y[i] {
            assert(a@[i as int] != b@[i as int]);
            return false;
        }
        i += 1;
        assert(x@.subrange(0, i as int) == x@.subrange(0, i - 1).push(x@[i - 1]));
        assert(y@.subrange(0, i as int) == y@.subrange(0, i - 1).push(y@[i - 1]));
    }
    assert(x@ == x@.subrange(0, x.len() as int));
    assert(y@ == y@.subrange(0, y.len() as int));
    true
}

/// The decimal digit for a value below ten.
pub open spec fn digit(d: int) -> char {
    if d == 0 {
        '0'
    } else if d == 1 {
        '1'
    } else if d == 2 {
        '2'
    } else if d == 3 {
        '3'
    } else if d == 4 {
        '4'
    } else if d == 5 {
        '5'
    } else if d == 6 {
        '6'
    } else if d == 7 {
        '7'
    } else if d == 8 {
        '8'
    } else {
        '9'
    }
}

/// The decimal numeral of a natural number, without leading zeros.
pub open spec fn decimal(n: nat) -> Seq<char>
    decreases n,
{
    if n < 10 {
        seq![digit(n as int)]
    } else {
        decimal(n / 10).push(digit((n % 10) as int))
    }
}

/// The decimal numeral of an integer: a minus sign before the numeral of a
/// negative number's magnitude.
pub open spec fn signed_decimal(n: int) -> Seq<char> {
    if n < 0 {
        seq!['-'] + decimal((-n) as nat)
    } else {
        decimal(n as nat)
    }
}

fn digit_of(d: u64) -> (c: char)
    requires
        d < 10,
    ensures
        c == digit(d as int),
{
    if d == 0 {
        '0'
    } else if d == 1 {
        '1'
    } else if d == 2 {
        '2'
    } else if d == 3 {
        '3'
    } else if d == 4 {
        '4'
    } else if d == 5 {
        '5'
    } else if d == 6 {
        '6'
    } else if d == 7 {
        '7'
    } else if d == 8 {
        '8'
    } else {
        '9'
    }
}

/// Appends the decimal numeral of `n` to `out`.
pub fn push_decimal(out: &mut String, n: u64)
    ensures
        final(out)@ == old(out)@ + decimal(n as nat),
    decreases n,
{
    if n >= 10 {
        push_decimal(out, n / 10);
    }
    out.push(digit_of(n % 10));
    assert(out@ == old(out)@ + decimal(n as nat)) by {
        if n >= 10 {
            assert(old(out)@ + decimal(n as nat) =~= (old(out)@ + decimal((n / 10) as nat)).push(
                digit((n % 10) as int),
            ));
        } else {
            assert(old(out)@ + decimal(n as nat) =~= old(out)@.push(digit(n as int)));
        }
    }
}

/// Appends the decimal numeral of a signed number to `out`.
pub fn push_signed_decimal(out: &mut String, n: i64)
    ensures
        final(out)@ == old(out)@ + signed_decimal(n as int),
{
    if n < 0 {
        out.push('-');
        let magnitude: u64 = ((-(n + 1)) as u64) + 1;
        push_decimal(out, magnitude);
        assert(out@ =~= old(out)@ + signed_decimal(n as int));
    } else {
        push_decimal(out, n as u64);
    }
}

/// The markup that stands for one character of user text: the five characters
/// that markup reserves become entities, every other character stands for
/// itself.
pub open spec fn escaped_char(c: char) -> Seq<char> {
    if c == '&' {
        "&amp;"@
    } else if c == '<' {
        "&lt;"@
    } else if c == '>' {
        "&gt;"@
    } else if c == '"' {
        "&quot;"@
    } else if c == '\'' {
        "&#39;"@
    } else {
        seq![c]
    }
}

/// User text made safe for markup: each character replaced by
/// [`escaped_char`], in order.
pub open spec fn escaped(s: Seq<char>) -> Seq<char>
    decreases s.len(),
{
    if s.len() == 0 {
        Seq::empty()
    } else {
        escaped(s.drop_last()) + escaped_char(s.last())
    }
}

/// Escaping distributes over concatenation.
pub proof fn lemma_escaped_concat(a: Seq<char>, b: Seq<char>)
    ensures
        escaped(a + b) == escaped(a) + escaped(b),
    decreases b.len(),
{
    if b.len() == 0 {
        assert(a + b =~= a);
        assert(escaped(a) + escaped(b) =~= escaped(a));
    } else {
        lemma_escaped_concat(a, b.drop_last());
        assert((a + b).drop_last() =~= a + b.drop_last());
        assert((a + b).last() == b.last());
        assert(escaped(a + b) =~= escaped(a) + escaped(b));
    }
}

/// Appends the escaped form of `s` to `out`.
pub fn push_escaped(out: &mut String, s: &str)
    ensures
        final(out)@ == old(out)@ + escaped(s@),
{
    let it = s.chars();
    for c in iter: it
        invariant
            iter.seq() == s@,
            out@ == old(out)@ + escaped(s@.take(iter.index())),
    {
        let ghost before = out@;
        let ghost k = iter.index();
        if c == '&' {
            out.append("&amp;");
        } else if c == '<' {
            out.append("&lt;");
        } else if c == '>' {
            out.append("&gt;");
        } else if c == '"' {
            out.append("&quot;");
        } else if c == '\'' {
            out.append("&#39;");
        } else {
            out.push(c);
        }
        proof {
            assert(s@.take(k + 1).drop_last() =~= s@.take(k));
            assert(s@.take(k + 1).last() == c);
            assert(out@ =~= before + escaped_char(c));
        }
    }
    assert(s@.take(s@.len() as int) =~= s@);
}

/// Replaces the five characters that markup reserves (`&`, `<`, `>`, `"`, `'`)
/// by their entities and keeps every other character.
pub fn escape(s: &str) -> (r: String)
    ensures
        r@ == escaped(s@),
{
    let mut r = String::new();
    push_escaped(&mut r, s);
    r
}

/// The text without the whitespace at its start.
pub open spec fn without_leading_space(s: Seq<char>) -> Seq<char>
    decreases s.len(),
{
    if s.len() > 0 && is_whitespace(s.first()) {
        without_leading_space(s.drop_first())
    } else {
        s
    }
}

/// The text without the whitespace at its end.
pub open spec fn without_trailing_space(s: Seq<char>) -> Seq<char>
    decreases s.len(),
{
    if s.len() > 0 && is_whitespace(s.last()) {
        without_trailing_space(s.drop_last())
    } else {
        s
    }
}

/// The text without the whitespace at either end.
pub open spec fn trimmed(s: Seq<char>) -> Seq<char> {
    without_trailing_space(without_leading_space(s))
}

/// A text is blank when it holds nothing but whitespace.
pub open spec fn blank(s: Seq<char>) -> bool {
    forall|i: int| 0 <= i < s.len() ==> is_whitespace(#[trigger] s[i])
}

/// What is known of whether a text is blank without looking into the
/// Unicode tables: every character of a blank text, and some character that
/// is no whitespace of a text that is not blank, is settled by
/// [`whitespace_settled`]. So a text of ASCII is blank exactly if it holds
/// nothing but [`ascii_space`].
pub open spec fn blank_settled(s: Seq<char>) -> bool {
    if blank(s) {
        forall|i: int| 0 <= i < s.len() ==> whitespace_settled(#[trigger] s[i])
    } else {
        exists|i: int| 0 <= i < s.len() && !is_whitespace(#[trigger] s[i]) && whitespace_settled(s[i])
    }
}

/// How many characters of whitespace stand at the start of a text.
pub open spec fn leading_space(s: Seq<char>) -> int {
    s.len() - without_leading_space(s).len()
}

/// What is known of trimming a text without looking into the Unicode
/// tables: the characters that are removed at either end, and the first and
/// the last that is kept, are settled by [`whitespace_settled`].
pub open spec fn trim_settled(s: Seq<char>) -> bool {
    forall|i: int|
        0 <= i < s.len() && (i <= leading_space(s) || i >= leading_space(s) + trimmed(s).len() - 1)
            ==> whitespace_settled(#[trigger] s[i])
}

/// What is known of a name as it was typed without looking into the
/// Unicode tables: whether it is blank is settled, and if it is not, so is
/// what trimming leaves of it.
pub open spec fn name_settled(s: Seq<char>) -> bool {
    blank_settled(s) && (!blank(s) ==> trim_settled(s))
}

/// Trimming leaves nothing exactly of a blank text.
pub proof fn lemma_trimmed_empty_iff_blank(s: Seq<char>)
    ensures
        trimmed(s).len() == 0 <==> blank(s),
{
    lemma_leading_space(s);
    lemma_trailing_space(without_leading_space(s));
    let t = without_leading_space(s);
    let k = s.len() - t.len();
    if blank(s) {
        if t.len() > 0 {
            assert(t.first() == s[k]);
        }
    } else {
        let i = choose|i: int| 0 <= i < s.len() && !is_whitespace(#[trigger] s[i]);
        if i < k {
            assert(s.take(k)[i] == s[i]);
        }
        assert(t[i - k] == s[i]);
        let u = without_trailing_space(t);
        if u.len() == 0 {
            assert(t.skip(0)[i - k] == t[i - k]);
        }
    }
}

/// What [`without_leading_space`] removes is a blank prefix, and what it keeps
/// is empty or starts with a character that is no whitespace.
pub proof fn lemma_leading_space(s: Seq<char>)
    ensures
        without_leading_space(s).len() <= s.len(),
        without_leading_space(s) == s.skip(s.len() - without_leading_space(s).len()),
        blank(s.take(s.len() - without_leading_space(s).len())),
        without_leading_space(s).len() > 0 ==> !is_whitespace(without_leading_space(s).first()),
    decreases s.len(),
{
    if s.len() > 0 && is_whitespace(s.first()) {
        let r = s.drop_first();
        lemma_leading_space(r);
        let t = without_leading_space(r);
        let k = r.len() - t.len();
        assert(r.skip(k) =~= s.skip(k + 1));
        assert forall|i: int| 0 <= i < k + 1 implies is_whitespace(#[trigger] s.take(k + 1)[i]) by {
            if i > 0 {
                assert(s.take(k + 1)[i] == r.take(k)[i - 1]);
            }
        }
    } else {
        assert(s.skip(0) =~= s);
    }
}

/// What [`without_trailing_space`] removes is a blank suffix, and what it keeps
/// is empty or ends with a character that is no whitespace.
pub proof fn lemma_trailing_space(s: Seq<char>)
    ensures
        without_trailing_space(s).len() <= s.len(),
        without_trailing_space(s) == s.take(without_trailing_space(s).len() as int),
        blank(s.skip(without_trailing_space(s).len() as int)),
        without_trailing_space(s).len() > 0 ==> !is_whitespace(without_trailing_space(s).last()),
    decreases s.len(),
{
    if s.len() > 0 && is_whitespace(s.last()) {
        let r = s.drop_last();
        lemma_trailing_space(r);
        let t = without_trailing_space(r);
        let k = t.len() as int;
        assert(r.take(k) =~= s.take(k));
        assert forall|i: int| 0 <= i < s.len() - k implies is_whitespace(#[trigger] s.skip(k)[i]) by {
            if i < r.len() - k {
                assert(s.skip(k)[i] == r.skip(k)[i]);
            }
        }
    } else {
        assert(s.take(s.len() as int) =~= s);
    }
}

/// The text without the whitespace at either end, as a new string.
pub fn trim(s: &str) -> (r: String)
    ensures
        r@ == trimmed(s@),
        trim_settled(s@),
{
    let v = chars_of(s);
    let mut a: usize = 0;
    assert(v@.skip(0) =~= v@);
    while a < v.len() && v[a].is_whitespace()
        invariant
            a <= v.len(),
            without_leading_space(v@) == without_leading_space(v@.skip(a as int)),
            forall|i: int| 0 <= i < a ==> whitespace_settled(#[trigger] v@[i]),
        ensures
            a <= v.len(),
            without_leading_space(v@) == v@.skip(a as int),
            forall|i: int| 0 <= i < v.len() && i <= a ==> whitespace_settled(#[trigger] v@[i]),
        decreases v.len() - a,
    {
        assert(v@.skip(a as int).drop_first() =~= v@.skip(a + 1));
        a += 1;
    }
    let mut b: usize = v.len();
    assert(v@.subrange(a as int, b as int) =~= v@.skip(a as int));
    while b > a && v[b - 1].is_whitespace()
        invariant
            a <= b <= v.len(),
            without_leading_space(v@) == v@.skip(a as int),
            without_trailing_space(v@.skip(a as int)) == without_trailing_space(
                v@.subrange(a as int, b as int),
            ),
            forall|i: int| b <= i < v.len() ==> whitespace_settled(#[trigger] v@[i]),
        ensures
            a <= b <= v.len(),
            trimmed(v@) == v@.subrange(a as int, b as int),
            forall|i: int| 0 <= i < v.len() && i >= b - 1 && i >= a ==> whitespace_settled(
                #[trigger] v@[i],
            ),
        decreases b,
    {
        assert(v@.subrange(a as int, b as int).drop_last() =~= v@.subrange(a as int, b - 1));
        b -= 1;
    }
    assert(leading_space(v@) == a);
    string_of(&v, a, b)
}

/// Whether the text holds nothing but whitespace.
pub fn is_blank(s: &str) -> (b: bool)
    ensures
        b == blank(s@),
        b == (trimmed(s@).len() == 0),
        blank_settled(s@),
{
    proof {
        lemma_trimmed_empty_iff_blank(s@);
    }
    let it = s.chars();
    for c in iter: it
        invariant
            iter.seq() == s@,
            blank(s@.take(iter.index())),
            forall|i: int| 0 <= i < iter.index() ==> whitespace_settled(#[trigger] s@[i]),
            trimmed(s@).len() == 0 <==> blank(s@),
    {
        let ghost k = iter.index();
        if !c.is_whitespace() {
            assert(s@[k] == c);
            assert(!is_whitespace(s@[k]) && whitespace_settled(s@[k]));
            return false;
        }
        assert(whitespace_settled(s@[k]));
        assert forall|i: int| 0 <= i < k + 1 implies is_whitespace(#[trigger] s@.take(k + 1)[i]) by {
            if i < k {
                assert(s@.take(k + 1)[i] == s@.take(k)[i]);
            }
        }
    }
    assert(s@.take(s@.len() as int) =~= s@);
    true
}

/// How many characters stand before the first line feed of `s`, or the length
/// of `s` if it holds none.
pub open spec fn line_end(s: Seq<char>) -> nat
    decreases s.len(),
{
    if s.len() == 0 || s.first() == '\n' {
        0
    } else {
        1 + line_end(s.drop_first())
    }
}

/// A line without the carriage return that stood before its line feed.
pub open spec fn without_carriage_return(line: Seq<char>) -> Seq<char> {
    if line.len() > 0 && line.last() == '\r' {
        line.drop_last()
    } else {
        line
    }
}

/// The lines of a text. A line ends at a line feed, or at a carriage return
/// directly followed by one; neither belongs to the line. The last line needs
/// no line ending, and a text that ends with one has no empty line after it.
pub open spec fn lines(s: Seq<char>) -> Seq<Seq<char>>
    decreases s.len(),
{
    if s.len() == 0 {
        Seq::empty()
    } else {
        let k = line_end(s) as int;
        if k >= s.len() {
            seq![s]
        } else {
            seq![without_carriage_return(s.take(k))] + lines(s.skip(k + 1))
        }
    }
}

/// The texts that a sequence of strings holds.
pub open spec fn texts(v: Seq<String>) -> Seq<Seq<char>> {
    Seq::new(v.len(), |i: int| v[i]@)
}

/// A text without line feed ends its first line where it ends, whatever follows.
pub proof fn lemma_line_end_after(head: Seq<char>, rest: Seq<char>)
    requires
        forall|i: int| 0 <= i < head.len() ==> head[i] != '\n',
    ensures
        line_end(head + rest) == head.len() + line_end(rest),
    decreases head.len(),
{
    if head.len() == 0 {
        assert(head + rest =~= rest);
    } else {
        assert((head + rest).first() == head[0]);
        assert((head + rest).drop_first() =~= head.drop_first() + rest);
        lemma_line_end_after(head.drop_first(), rest);
    }
}

/// Splits a text into its lines.
pub fn split_lines(s: &str) -> (out: Vec<String>)
    ensures
        texts(out@) == lines(s@),
{
    let mut out: Vec<String> = Vec::new();
    let mut cur: Vec<char> = Vec::new();
    let it = s.chars();
    assert(texts(out@) =~= Seq::<Seq<char>>::empty());
    assert(cur@ + s@.skip(0) =~= s@);
    for c in iter: it
        invariant
            iter.seq() == s@,
            forall|i: int| 0 <= i < cur.len() ==> cur@[i] != '\n',
            lines(s@) == texts(out@) + lines(cur@ + s@.skip(iter.index())),
    {
        let ghost k = iter.index();
        let ghost rest = s@.skip(k);
        let ghost done = texts(out@);
        assert(rest.first() == c);
        if c == '\n' {
            let n = cur.len();
            let end = if n > 0 && cur[n - 1] == '\r' {
                n - 1
            } else {
                n
            };
            let line = string_of(&cur, 0, end);
            proof {
                lemma_line_end_after(cur@, rest);
                let whole = cur@ + rest;
                assert(whole.take(n as int) =~= cur@);
                assert(whole.skip(n + 1) =~= s@.skip(k + 1));
                assert(line@ =~= without_carriage_return(cur@));
                assert(lines(whole) == seq![line@] + lines(s@.skip(k + 1)));
            }
            out.push(line);
            cur = Vec::new();
            proof {
                assert(texts(out@) =~= done.push(line@));
                assert(cur@ + s@.skip(k + 1) =~= s@.skip(k + 1));
                assert(done + (seq![line@] + lines(s@.skip(k + 1))) =~= done.push(line@) + lines(
                    s@.skip(k + 1),
                ));
            }
        } else {
            let ghost before = cur@;
            cur.push(c);
            assert(cur@ + s@.skip(k + 1) =~= before + rest);
        }
    }
    let ghost done = texts(out@);
    proof {
        assert(s@.skip(s@.len() as int) =~= Seq::<char>::empty());
        assert(cur@ + Seq::<char>::empty() =~= cur@);
        lemma_line_end_after(cur@, Seq::<char>::empty());
    }
    if cur.len() > 0 {
        let line = string_of(&cur, 0, cur.len());
        assert(line@ =~= cur@);
        out.push(line);
        assert(texts(out@) =~= done + seq![cur@]);
    } else {
        assert(done + Seq::<Seq<char>>::empty() =~= done);
    }
    out
}

/// Whether the first character of the text is `c`.
pub fn starts_with_char(s: &str, c: char) -> (b: bool)
    ensures
        b == (s@.len() > 0 && s@.first() == c),
{
    let it = s.chars();
    for d in iter: it
        invariant
            iter.seq() == s@,
            iter.index() == 0,
    {
        return d == c;
    }
    false
}

/// Whether `needle` stands in `text` at place `i`.
pub open spec fn occurs_at(text: Seq<char>, needle: Seq<char>, i: int) -> bool {
    0 <= i && i + needle.len() <= text.len() && text.subrange(i, i + needle.len()) == needle
}

/// The last place at or before `i` where `needle` stands in `text`.
pub open spec fn last_occurrence_upto(text: Seq<char>, needle: Seq<char>, i: int) -> Option<int>
    decreases i + 1,
{
    if i < 0 {
        None
    } else if occurs_at(text, needle, i) {
        Some(i)
    } else {
        last_occurrence_upto(text, needle, i - 1)
    }
}

/// The last place where `needle` stands in `text`.
pub open spec fn last_occurrence(text: Seq<char>, needle: Seq<char>) -> Option<int> {
    last_occurrence_upto(text, needle, text.len() - needle.len())
}

/// What [`last_occurrence_upto`] finds is an occurrence with none after it up
/// to `i`, and it finds none only where there is none.
pub proof fn lemma_last_occurrence_upto(text: Seq<char>, needle: Seq<char>, i: int)
    ensures
        match last_occurrence_upto(text, needle, i) {
            Some(at) => at <= i && occurs_at(text, needle, at) && forall|j: int|
                at < j <= i ==> !occurs_at(text, needle, j),
            None => forall|j: int| 0 <= j <= i ==> !occurs_at(text, needle, j),
        },
    decreases i + 1,
{
    if i >= 0 && !occurs_at(text, needle, i) {
        lemma_last_occurrence_upto(text, needle, i - 1);
    }
}

/// What [`last_occurrence`] finds is the last occurrence, and it finds none
/// only where there is none.
pub proof fn lemma_last_occurrence(text: Seq<char>, needle: Seq<char>)
    ensures
        match last_occurrence(text, needle) {
            Some(at) => occurs_at(text, needle, at) && forall|j: int|
                at < j ==> !occurs_at(text, needle, j),
            None => forall|j: int| !occurs_at(text, needle, j),
        },
{
    lemma_last_occurrence_upto(text, needle, text.len() - needle.len());
}

/// Whether `needle` stands in `text` at place `i`.
pub fn matches_at(text: &Vec<char>, needle: &Vec<char>, i: usize) -> (found: bool)
    ensures
        found == occurs_at(text@, needle@, i as int),
{
    if needle.len() > text.len() || i > text.len() - needle.len() {
        return false;
    }
    let mut k: usize = 0;
    while k < needle.len()
        invariant
            k <= needle.len(),
            i + needle.len() <= text.len(),
            text@.subrange(i as int, i + k) == needle@.take(k as int),
        decreases needle.len() - k,
    {
        if text[i + k] != needle[k] {
            assert(text@.subrange(i as int, i + needle.len())[k as int] != needle@[k as int]);
            return false;
        }
        k += 1;
        assert(text@.subrange(i as int, i + k) =~= text@.subrange(i as int, i + k - 1).push(
            text@[i + k - 1],
        ));
        assert(needle@.take(k as int) =~= needle@.take(k - 1).push(needle@[k - 1]));
    }
    assert(needle@.take(needle.len() as int) =~= needle@);
    true
}

/// Finds the last place where `needle` stands in `text`.
pub fn find_last(text: &Vec<char>, needle: &Vec<char>) -> (at: Option<usize>)
    ensures
        match at {
            Some(i) => last_occurrence(text@, needle@) == Some(i as int) && i + needle.len()
                <= text.len(),
            None => last_occurrence(text@, needle@) is None,
        },
{
    if needle.len() > text.len() {
        return None;
    }
    let mut i: usize = text.len() - needle.len();
    loop
        invariant
            i + needle.len() <= text.len(),
            last_occurrence(text@, needle@) == last_occurrence_upto(text@, needle@, i as int),
        decreases i,
    {
        if matches_at(text, needle, i) {
            return Some(i);
        }
        if i == 0 {
            assert(last_occurrence_upto(text@, needle@, -1) is None);
            return None;
        }
        i -= 1;
    }
}

/// A text with `piece` put in at place `at`.
pub open spec fn inserted(text: Seq<char>, at: int, piece: Seq<char>) -> Seq<char> {
    text.take(at) + piece + text.skip(at)
}

/// Puts `piece` into the text `text` at place `at`.
pub fn insert_at(text: &Vec<char>, at: usize, piece: &str) -> (out: String)
    requires
        at <= text.len(),
    ensures
        out@ == inserted(text@, at as int, piece@),
{
    let mut out = string_of(text, 0, at);
    out.append(piece);
    let rest = string_of(text, at, text.len());
    out.append(rest.as_str());
    assert(out@ =~= inserted(text@, at as int, piece@));
    out
}

/// A text with every occurrence of `needle`, found from left to right and
/// not overlapping, replaced by `with`. An empty needle occurs nowhere.
pub open spec fn replaced(text: Seq<char>, needle: Seq<char>, with: Seq<char>) -> Seq<char>
    decreases text.len(),
{
    if needle.len() == 0 || text.len() < needle.len() {
        text
    } else if occurs_at(text, needle, 0) {
        with + replaced(text.skip(needle.len() as int), needle, with)
    } else {
        seq![text.first()] + replaced(text.drop_first(), needle, with)
    }
}

/// Replaces every occurrence of `needle` in `text` by `with`. An empty needle
/// leaves the text as it is.
pub fn replace_all(text: &str, needle: &str, with: &str) -> (out: String)
    ensures
        out@ == replaced(text@, needle@, with@),
{
    let t = chars_of(text);
    let n = chars_of(needle);
    if n.len() == 0 {
        return text.to_owned();
    }
    let mut out = String::new();
    let mut i: usize = 0;
    assert(t@.skip(0) =~= t@);
    assert(out@ + replaced(t@.skip(0), n@, with@) =~= replaced(t@, n@, with@));
    while i < t.len()
        invariant
            i <= t.len(),
            n@.len() > 0,
            t@ == text@,
            n@ == needle@,
            replaced(t@, n@, with@) == out@ + replaced(t@.skip(i as int), n@, with@),
        decreases t.len() - i,
    {
        let ghost rest = t@.skip(i as int);
        let ghost before = out@;
        let found = matches_at(&t, &n, i);
        proof {
            if i + n.len() <= t.len() {
                assert(rest.subrange(0, n.len() as int) =~= t@.subrange(i as int, i + n.len()));
            }
        }
        if found {
            out.append(with);
            assert(rest.skip(n.len() as int) =~= t@.skip(i + n.len()));
            assert(before + (with@ + replaced(t@.skip(i + n.len()), n@, with@)) =~= out@
                + replaced(t@.skip(i + n.len()), n@, with@));
            i += n.len();
        } else {
            out.push(t[i]);
            assert(rest.drop_first() =~= t@.skip(i + 1));
            proof {
                if rest.len() < n@.len() {
                    assert(replaced(rest, n@, with@) == rest);
                    assert(replaced(t@.skip(i + 1), n@, with@) == t@.skip(i + 1));
                    assert(rest =~= seq![rest.first()] + t@.skip(i + 1));
                }
            }
            assert(before + (seq![rest.first()] + replaced(t@.skip(i + 1), n@, with@)) =~= out@
                + replaced(t@.skip(i + 1), n@, with@));
            i += 1;
        }
    }
    assert(t@.skip(t.len() as int) =~= Seq::<char>::empty());
    assert(out@ + Seq::<char>::empty() =~= out@);
    out
}

/// Whether `text` begins with `prefix`.
pub fn has_prefix(text: &str, prefix: &str) -> (b: bool)
    ensures
        b == occurs_at(text@, prefix@, 0),
{
    let t = chars_of(text);
    let p = chars_of(prefix);
    matches_at(&t, &p, 0)
}

} // verus!
