//! Text handling on characters: lines, words, trimming, numbers and searching.

use vstd::prelude::*;

verus! {

/// The characters with the Unicode `White_Space` property.
pub open spec fn is_white(c: char) -> bool {
    ||| '\u{9}' <= c <= '\u{d}'
    ||| c == ' '
    ||| c == '\u{85}'
    ||| c == '\u{a0}'
    ||| c == '\u{1680}'
    ||| '\u{2000}' <= c <= '\u{200a}'
    ||| c == '\u{2028}'
    ||| c == '\u{2029}'
    ||| c == '\u{202f}'
    ||| c == '\u{205f}'
    ||| c == '\u{3000}'
}

/// Decides `is_white`.
pub fn char_is_white(c: char) -> (r: bool)
    ensures
        r == is_white(c),
{
    ('\u{9}' <= c && c <= '\u{d}') || c == ' ' || c == '\u{85}' || c == '\u{a0}' || c == '\u{1680}'
        || ('\u{2000}' <= c && c <= '\u{200a}') || c == '\u{2028}' || c == '\u{2029}' || c
        == '\u{202f}' || c == '\u{205f}' || c == '\u{3000}'
}

/// `String::push`: the character is appended at the end.
#[verifier::external_body]
fn push_char(s: &mut String, c: char)
    ensures
        final(s)@ == old(s)@.push(c),
{
    s.push(c)
}

/// The characters of a string, in order.
pub fn to_chars(s: &str) -> (r: Vec<char>)
    ensures
        r@ == s@,
{
    let mut out: Vec<char> = Vec::new();
    for c in it: s.chars()
        invariant
            out@ == it.seq().take(it.index() as int),
            it.seq() == s@,
    {
        out.push(c);
    }
    out
}

/// A string with exactly the given characters.
pub fn from_chars(cs: &[char]) -> (r: String)
    ensures
        r@ == cs@,
{
    let mut out: String = String::new();
    let mut i: usize = 0;
    while i < cs.len()
        invariant
            i <= cs.len(),
            out@ == cs@.take(i as int),
        decreases cs.len() - i,
    {
        push_char(&mut out, cs[i]);
        i = i + 1;
        assert(out@ == cs@.take(i as int));
    }
    assert(cs@.take(cs@.len() as int) == cs@);
    out
}

/// Two texts, one after the other.
pub fn concat(a: &str, b: &str) -> (r: String)
    ensures
        r@ == a@ + b@,
{
    let mut out: String = a.to_owned();
    out.append(b);
    out
}

/// Whether two texts hold the same characters.
pub fn same_text(a: &str, b: &str) -> (r: bool)
    ensures
        r == (a@ == b@),
{
    a.to_owned() == b.to_owned()
}

/// The number of leading characters before the first `c`, or all of them.
pub open spec fn index_of(s: Seq<char>, c: char) -> nat
    decreases s.len(),
{
    if s.len() == 0 || s[0] == c {
        0
    } else {
        1 + index_of(s.drop_first(), c)
    }
}

proof fn lemma_index_of_is(s: Seq<char>, c: char, n: int)
    requires
        0 <= n <= s.len(),
        forall|j: int| 0 <= j < n ==> s[j] != c,
        n < s.len() ==> s[n] == c,
    ensures
        index_of(s, c) == n,
    decreases s.len(),
{
    if n > 0 {
        assert(s[0] != c);
        lemma_index_of_is(s.drop_first(), c, n - 1);
    }
}

/// Every text starts with a part free of `c` that ends where `c` first occurs.
pub proof fn lemma_index_of(s: Seq<char>, c: char)
    ensures
        index_of(s, c) <= s.len(),
        forall|j: int| 0 <= j < index_of(s, c) ==> s[j] != c,
        index_of(s, c) < s.len() ==> s[index_of(s, c) as int] == c,
    decreases s.len(),
{
    if s.len() > 0 && s[0] != c {
        let t = s.drop_first();
        lemma_index_of(t, c);
        assert forall|j: int| 0 <= j < index_of(s, c) implies s[j] != c by {
            if j > 0 {
                assert(t[j - 1] == s[j]);
            }
        }
    }
}

/// Finds the first `c`; the length where there is none.
pub fn find_char(s: &[char], c: char) -> (r: usize)
    ensures
        r == index_of(s@, c),
        r <= s@.len(),
        r < s@.len() <==> s@.contains(c),
{
    let mut i: usize = 0;
    while i < s.len() && s[i] != c
        invariant
            i <= s.len(),
            forall|j: int| 0 <= j < i ==> s@[j] != c,
        decreases s.len() - i,
    {
        i = i + 1;
    }
    proof {
        lemma_index_of_is(s@, c, i as int);
        if i < s@.len() {
            assert(s@[i as int] == c);
        }
    }
    i
}

/// A line without its final carriage return.
pub open spec fn without_cr(s: Seq<char>) -> Seq<char> {
    if s.len() > 0 && s.last() == '\r' {
        s.drop_last()
    } else {
        s
    }
}

/// The lines of a text. A line ends with a line feed or with a carriage return and a line feed;
/// neither belongs to it. The end of the last line is optional.
pub open spec fn lines(s: Seq<char>) -> Seq<Seq<char>>
    decreases s.len(),
{
    let i = index_of(s, '\n') as int;
    if s.len() == 0 {
        Seq::empty()
    } else if i >= s.len() {
        seq![s]
    } else {
        seq![without_cr(s.take(i))] + lines(s.skip(i + 1))
    }
}

/// The text from the first character that is not white space.
pub open spec fn trim_start(s: Seq<char>) -> Seq<char>
    decreases s.len(),
{
    if s.len() > 0 && is_white(s[0]) {
        trim_start(s.drop_first())
    } else {
        s
    }
}

/// The text up to the last character that is not white space.
pub open spec fn trim_end(s: Seq<char>) -> Seq<char>
    decreases s.len(),
{
    if s.len() > 0 && is_white(s.last()) {
        trim_end(s.drop_last())
    } else {
        s
    }
}

/// The text without leading and trailing white space.
pub open spec fn trim(s: Seq<char>) -> Seq<char> {
    trim_end(trim_start(s))
}

/// The number of leading characters that are not white space.
pub open spec fn word_len(s: Seq<char>) -> nat
    decreases s.len(),
{
    if s.len() == 0 || is_white(s[0]) {
        0
    } else {
        1 + word_len(s.drop_first())
    }
}

proof fn lemma_word_len(s: Seq<char>)
    ensures
        word_len(s) <= s.len(),
        s.len() > 0 && !is_white(s[0]) ==> word_len(s) > 0,
    decreases s.len(),
{
    if s.len() > 0 && !is_white(s[0]) {
        lemma_word_len(s.drop_first());
    }
}

proof fn lemma_word_len_is(s: Seq<char>, n: int)
    requires
        0 <= n <= s.len(),
        forall|j: int| 0 <= j < n ==> !is_white(s[j]),
        n < s.len() ==> is_white(s[n]),
    ensures
        word_len(s) == n,
    decreases s.len(),
{
    if n > 0 {
        assert(!is_white(s[0]));
        lemma_word_len_is(s.drop_first(), n - 1);
    }
}

proof fn lemma_trim_start_len(s: Seq<char>)
    ensures
        trim_start(s).len() <= s.len(),
        trim_start(s).len() > 0 ==> !is_white(trim_start(s)[0]),
        trim_start(s) == s.skip(s.len() - trim_start(s).len()),
    decreases s.len(),
{
    if s.len() > 0 && is_white(s[0]) {
        let t = s.drop_first();
        lemma_trim_start_len(t);
        assert(t.skip(t.len() - trim_start(t).len()) =~= s.skip(s.len() - trim_start(t).len()));
    } else {
        assert(s.skip(0) =~= s);
    }
}

/// The maximal runs of characters that are not white space, in order.
pub open spec fn words(s: Seq<char>) -> Seq<Seq<char>>
    decreases s.len(),
{
    let t = trim_start(s);
    let n = word_len(t) as int;
    if t.len() == 0 || n <= 0 || n > t.len() || t.len() > s.len() {
        Seq::empty()
    } else {
        seq![t.take(n)] + words(t.skip(n))
    }
}

/// The parts between the occurrences of `c`; there is always at least one.
pub open spec fn split_on(s: Seq<char>, c: char) -> Seq<Seq<char>>
    decreases s.len(),
{
    let i = index_of(s, c) as int;
    if i >= s.len() {
        seq![s]
    } else {
        seq![s.take(i)] + split_on(s.skip(i + 1), c)
    }
}

/// Cuts leading white space off.
pub fn trim_start_chars(s: &[char]) -> (r: &[char])
    ensures
        r@ == trim_start(s@),
{
    let n: usize = s.len();
    let mut i: usize = 0;
    proof {
        assert(s@.skip(0) =~= s@);
    }
    while i < n && char_is_white(s[i])
        invariant
            n == s.len(),
            i <= n,
            trim_start(s@.skip(i as int)) == trim_start(s@),
        decreases n - i,
    {
        proof {
            assert(s@.skip(i as int).drop_first() =~= s@.skip(i + 1));
        }
        i = i + 1;
    }
    &s[i..n]
}

/// Cuts trailing white space off.
pub fn trim_end_chars(s: &[char]) -> (r: &[char])
    ensures
        r@ == trim_end(s@),
{
    let mut n: usize = s.len();
    proof {
        assert(s@.take(n as int) =~= s@);
    }
    while n > 0 && char_is_white(s[n - 1])
        invariant
            n <= s.len(),
            trim_end(s@.take(n as int)) == trim_end(s@),
        decreases n,
    {
        proof {
            assert(s@.take(n as int).drop_last() =~= s@.take(n - 1));
        }
        n = n - 1;
    }
    proof {
        assert(s@.subrange(0, n as int) =~= s@.take(n as int));
    }
    &s[0..n]
}

/// Cuts white space off both ends.
pub fn trim_chars(s: &[char]) -> (r: &[char])
    ensures
        r@ == trim(s@),
{
    trim_end_chars(trim_start_chars(s))
}

/// A string without leading and trailing white space.
pub fn trimmed(s: &str) -> (r: String)
    ensures
        r@ == trim(s@),
{
    let cs = to_chars(s);
    from_chars(trim_chars(cs.as_slice()))
}

/// The characters of each part of a list of texts.
pub open spec fn texts_view(v: Seq<Vec<char>>) -> Seq<Seq<char>> {
    v.map_values(|t: Vec<char>| t@)
}

/// Copies a slice of characters.
pub fn copy_chars(s: &[char]) -> (r: Vec<char>)
    ensures
        r@ == s@,
{
    let mut out: Vec<char> = Vec::new();
    let mut i: usize = 0;
    while i < s.len()
        invariant
            i <= s.len(),
            out@ == s@.take(i as int),
        decreases s.len() - i,
    {
        out.push(s[i]);
        i = i + 1;
        assert(out@ == s@.take(i as int));
    }
    assert(s@.take(s@.len() as int) =~= s@);
    out
}

/// Cuts a text into its lines.
pub fn split_lines(s: &[char]) -> (r: Vec<Vec<char>>)
    ensures
        texts_view(r@) == lines(s@),
{
    let mut out: Vec<Vec<char>> = Vec::new();
    let mut rest: &[char] = s;
    proof {
        assert(texts_view(out@) =~= Seq::empty());
        assert(texts_view(out@) + lines(rest@) =~= lines(s@));
    }
    while rest.len() > 0
        invariant
            texts_view(out@) + lines(rest@) == lines(s@),
        decreases rest.len(),
    {
        let n: usize = rest.len();
        let i: usize = find_char(rest, '\n');
        let ghost before = out@;
        if i < n {
            let mut m: usize = i;
            if i > 0 && rest[i - 1] == '\r' {
                m = i - 1;
            }
            let line: &[char] = &rest[0..m];
            let ghost head = rest@.take(i as int);
            proof {
                assert(line@ =~= without_cr(head));
            }
            out.push(copy_chars(line));
            let next: &[char] = &rest[i + 1..n];
            proof {
                assert(next@ =~= rest@.skip(i + 1));
                assert(texts_view(out@) =~= texts_view(before).push(without_cr(head)));
                assert(texts_view(before) + lines(rest@) =~= texts_view(out@) + lines(next@));
            }
            rest = next;
        } else {
            out.push(copy_chars(rest));
            let next: &[char] = &rest[n..n];
            proof {
                assert(texts_view(out@) =~= texts_view(before).push(rest@));
                assert(texts_view(before) + lines(rest@) =~= texts_view(out@) + lines(next@));
            }
            rest = next;
        }
    }
    proof {
        assert(texts_view(out@) + lines(rest@) =~= texts_view(out@));
    }
    out
}

/// Cuts a text into its words.
pub fn split_words(s: &[char]) -> (r: Vec<Vec<char>>)
    ensures
        texts_view(r@) == words(s@),
{
    let mut out: Vec<Vec<char>> = Vec::new();
    let mut rest: &[char] = trim_start_chars(s);
    proof {
        lemma_trim_start_len(s@);
        assert(texts_view(out@) =~= Seq::empty());
        lemma_words_trimmed(s@);
        assert(texts_view(out@) + words(rest@) =~= words(s@));
    }
    while rest.len() > 0
        invariant
            rest@.len() > 0 ==> !is_white(rest@[0]),
            texts_view(out@) + words(rest@) == words(s@),
        decreases rest.len(),
    {
        let n: usize = rest.len();
        let mut i: usize = 0;
        while i < n && !char_is_white(rest[i])
            invariant
                n == rest.len(),
                i <= n,
                forall|j: int| 0 <= j < i ==> !is_white(rest@[j]),
            decreases n - i,
        {
            i = i + 1;
        }
        let ghost before = out@;
        let ghost whole = rest@;
        proof {
            lemma_word_len_is(whole, i as int);
            lemma_word_len(whole);
            assert(trim_start(whole) == whole);
        }
        let word: &[char] = &rest[0..i];
        out.push(copy_chars(word));
        let tail: &[char] = &rest[i..n];
        let next: &[char] = trim_start_chars(tail);
        proof {
            lemma_trim_start_len(tail@);
            lemma_words_trimmed(tail@);
            assert(word@ =~= whole.take(i as int));
            assert(tail@ =~= whole.skip(i as int));
            assert(texts_view(out@) =~= texts_view(before).push(whole.take(i as int)));
            assert(words(whole) == seq![whole.take(i as int)] + words(whole.skip(i as int)));
            assert(texts_view(before) + words(whole) =~= texts_view(out@) + words(next@));
        }
        rest = next;
    }
    proof {
        assert(words(rest@) =~= Seq::empty());
        assert(texts_view(out@) + words(rest@) =~= texts_view(out@));
    }
    out
}

proof fn lemma_words_trimmed(s: Seq<char>)
    ensures
        words(trim_start(s)) == words(s),
{
    lemma_trim_start_len(s);
    let t = trim_start(s);
    assert(trim_start(t) == t);
    lemma_word_len(t);
}

/// Cuts a text at each occurrence of `c`.
pub fn split_at_char(s: &[char], c: char) -> (r: Vec<Vec<char>>)
    ensures
        texts_view(r@) == split_on(s@, c),
        r@.len() > 0,
{
    let mut out: Vec<Vec<char>> = Vec::new();
    let mut rest: &[char] = s;
    proof {
        assert(texts_view(out@) =~= Seq::empty());
        assert(texts_view(out@) + split_on(rest@, c) =~= split_on(s@, c));
    }
    let mut i: usize = find_char(rest, c);
    while i < rest.len()
        invariant
            i == index_of(rest@, c),
            texts_view(out@) + split_on(rest@, c) == split_on(s@, c),
        decreases rest.len(),
    {
        let n: usize = rest.len();
        let ghost before = out@;
        let part: &[char] = &rest[0..i];
        out.push(copy_chars(part));
        let next: &[char] = &rest[i + 1..n];
        proof {
            assert(part@ =~= rest@.take(i as int));
            assert(next@ =~= rest@.skip(i + 1));
            assert(texts_view(out@) =~= texts_view(before).push(rest@.take(i as int)));
            assert(texts_view(before) + split_on(rest@, c) =~= texts_view(out@) + split_on(
                next@,
                c,
            ));
        }
        rest = next;
        i = find_char(rest, c);
    }
    let ghost before = out@;
    out.push(copy_chars(rest));
    proof {
        assert(texts_view(out@) =~= texts_view(before).push(rest@));
        assert(texts_view(out@) =~= texts_view(before) + split_on(rest@, c));
    }
    out
}

/// An ASCII decimal digit.
pub open spec fn is_digit(c: char) -> bool {
    '0' <= c <= '9'
}

/// The value of a decimal digit.
pub open spec fn digit_value(c: char) -> nat {
    (c as u32 - '0' as u32) as nat
}

/// The decimal digit for a value below ten.
pub open spec fn digit_char(d: nat) -> char {
    ('0' as u32 + d) as char
}

/// The number that a run of decimal digits stands for.
pub open spec fn digits_value(s: Seq<char>) -> nat
    decreases s.len(),
{
    if s.len() == 0 {
        0
    } else {
        10 * digits_value(s.drop_last()) + digit_value(s.last())
    }
}

/// The text without an optional leading plus sign.
pub open spec fn unsigned_digits(s: Seq<char>) -> Seq<char> {
    if s.len() > 0 && s[0] == '+' {
        s.drop_first()
    } else {
        s
    }
}

/// The unsigned 32-bit number that a text spells: an optional plus sign, then one or more
/// decimal digits whose value fits.
pub open spec fn parsed_u32(s: Seq<char>) -> Option<u32> {
    let ds = unsigned_digits(s);
    if ds.len() > 0 && (forall|j: int| 0 <= j < ds.len() ==> is_digit(ds[j])) && digits_value(ds)
        <= u32::MAX {
        Some(digits_value(ds) as u32)
    } else {
        None
    }
}

proof fn lemma_digits_value_grows(s: Seq<char>, n: int)
    requires
        0 <= n <= s.len(),
    ensures
        digits_value(s.take(n)) <= digits_value(s),
    decreases s.len(),
{
    if n == s.len() {
        assert(s.take(n) =~= s);
    } else {
        lemma_digits_value_grows(s.drop_last(), n);
        assert(s.drop_last().take(n) =~= s.take(n));
    }
}

/// Reads an unsigned 32-bit number.
pub fn parse_u32(s: &[char]) -> (r: Option<u32>)
    ensures
        r == parsed_u32(s@),
{
    let n: usize = s.len();
    let first: usize = if n > 0 && s[0] == '+' {
        1
    } else {
        0
    };
    let ghost ds = unsigned_digits(s@);
    proof {
        assert(ds =~= s@.skip(first as int));
    }
    if first == n {
        return None;
    }
    let mut value: u64 = 0;
    let mut i: usize = first;
    proof {
        assert(ds.take(0) =~= Seq::empty());
    }
    while i < n
        invariant
            first <= i <= n,
            n == s.len(),
            ds == s@.skip(first as int),
            ds == unsigned_digits(s@),
            value == digits_value(ds.take(i - first)),
            value <= u32::MAX,
            forall|j: int| 0 <= j < i - first ==> is_digit(ds[j]),
        decreases n - i,
    {
        let c: char = s[i];
        if !('0' <= c && c <= '9') {
            proof {
                assert(ds[i - first] == c);
            }
            return None;
        }
        proof {
            assert(ds.take(i - first + 1).drop_last() =~= ds.take(i - first));
            assert(ds.take(i - first + 1).last() == c);
        }
        value = value * 10 + (c as u64 - '0' as u64);
        if value > u32::MAX as u64 {
            proof {
                lemma_digits_value_grows(ds, i - first + 1);
            }
            return None;
        }
        i = i + 1;
    }
    proof {
        assert(ds.take(n - first) =~= ds);
    }
    Some(value as u32)
}

/// The decimal spelling of a number, without leading zeros.
pub open spec fn decimal(n: nat) -> Seq<char>
    decreases n,
{
    if n < 10 {
        seq![digit_char(n)]
    } else {
        decimal(n / 10).push(digit_char(n % 10))
    }
}

fn digit_text(d: u64) -> (r: char)
    requires
        d < 10,
    ensures
        r == digit_char(d as nat),
{
    match d {
        0 => '0',
        1 => '1',
        2 => '2',
        3 => '3',
        4 => '4',
        5 => '5',
        6 => '6',
        7 => '7',
        8 => '8',
        _ => '9',
    }
}

/// Spells a number in decimal.
pub fn to_decimal(n: u64) -> (r: String)
    ensures
        r@ == decimal(n as nat),
    decreases n,
{
    if n < 10 {
        let mut out: String = String::new();
        push_char(&mut out, digit_text(n));
        assert(out@ =~= decimal(n as nat));
        out
    } else {
        let mut out: String = to_decimal(n / 10);
        push_char(&mut out, digit_text(n % 10));
        out
    }
}

/// A decimal spelling holds digits only and stands for the number it spells.
pub proof fn lemma_decimal(n: nat)
    ensures
        decimal(n).len() > 0,
        forall|j: int| 0 <= j < decimal(n).len() ==> is_digit(decimal(n)[j]),
        digits_value(decimal(n)) == n,
    decreases n,
{
    let s = decimal(n);
    if n < 10 {
        assert(s.drop_last() =~= Seq::empty());
        assert(digits_value(s.drop_last()) == 0);
        assert(s.last() == digit_char(n));
    } else {
        lemma_decimal(n / 10);
        assert(s.drop_last() =~= decimal(n / 10));
        assert(s.last() == digit_char(n % 10));
    }
}

/// Reading back the decimal spelling of a 32-bit number gives the number.
pub proof fn law_parse_decimal(n: u32)
    ensures
        parsed_u32(decimal(n as nat)) == Some(n),
{
    lemma_decimal(n as nat);
    let s = decimal(n as nat);
    assert(is_digit(s[0]));
    assert(unsigned_digits(s) == s);
}

/// Whether `p` occurs in `s`.
pub open spec fn contains_text(s: Seq<char>, p: Seq<char>) -> bool {
    exists|i: int|
        0 <= i <= s.len() - p.len() && #[trigger] s.subrange(i, i + p.len()) == p
}

/// Whether `s` begins with `p`.
pub open spec fn starts_with(s: Seq<char>, p: Seq<char>) -> bool {
    p.len() <= s.len() && s.take(p.len() as int) == p
}

/// Whether `p` stands in `s` from position `at` on.
fn matches_at(s: &[char], p: &[char], at: usize) -> (r: bool)
    requires
        at + p@.len() <= s@.len(),
    ensures
        r == (s@.subrange(at as int, at + p@.len()) == p@),
{
    let n: usize = s.len();
    let mut k: usize = 0;
    while k < p.len()
        invariant
            k <= p.len(),
            n == s@.len(),
            at + p@.len() <= n,
            forall|j: int| 0 <= j < k ==> s@[at + j] == p@[j],
        decreases p.len() - k,
    {
        if s[at + k] != p[k] {
            proof {
                assert(s@.subrange(at as int, at + p@.len())[k as int] == s@[at + k]);
            }
            return false;
        }
        k = k + 1;
    }
    proof {
        assert(s@.subrange(at as int, at + p@.len()) =~= p@);
    }
    true
}

/// Decides `contains_text`.
pub fn has_text(s: &str, p: &str) -> (r: bool)
    ensures
        r == contains_text(s@, p@),
{
    let sv = to_chars(s);
    let pv = to_chars(p);
    if pv.len() > sv.len() {
        return false;
    }
    let last: usize = sv.len() - pv.len();
    let mut i: usize = 0;
    while i <= last
        invariant
            i <= last + 1,
            sv@ == s@,
            pv@ == p@,
            last == sv@.len() - pv@.len(),
            pv@.len() <= sv@.len(),
            forall|k: int| 0 <= k < i ==> #[trigger] s@.subrange(k, k + p@.len()) != p@,
        decreases last + 1 - i,
    {
        if matches_at(sv.as_slice(), pv.as_slice(), i) {
            return true;
        }
        if i == last {
            return false;
        }
        i = i + 1;
    }
    false
}

/// Decides `starts_with`.
pub fn has_prefix(s: &[char], p: &[char]) -> (r: bool)
    ensures
        r == starts_with(s@, p@),
{
    if p.len() > s.len() {
        return false;
    }
    proof {
        assert(s@.take(p@.len() as int) =~= s@.subrange(0, p@.len() as int));
    }
    matches_at(s, p, 0)
}

/// The lower-case form of an ASCII letter; any other character is itself.
pub open spec fn ascii_lower(c: char) -> char {
    if 'A' <= c <= 'Z' {
        (c as u32 + 32) as char
    } else {
        c
    }
}

/// Whether two texts are equal up to the case of ASCII letters.
pub open spec fn same_ignoring_ascii_case(a: Seq<char>, b: Seq<char>) -> bool {
    a.len() == b.len() && forall|j: int|
        0 <= j < a.len() ==> ascii_lower(#[trigger] a[j]) == ascii_lower(b[j])
}

fn lower_ascii(c: char) -> (r: u32)
    ensures
        r == ascii_lower(c) as u32,
{
    if 'A' <= c && c <= 'Z' {
        c as u32 + 32
    } else {
        c as u32
    }
}

/// Decides `same_ignoring_ascii_case`.
pub fn eq_ignoring_ascii_case(a: &str, b: &str) -> (r: bool)
    ensures
        r == same_ignoring_ascii_case(a@, b@),
{
    let av = to_chars(a);
    let bv = to_chars(b);
    if av.len() != bv.len() {
        return false;
    }
    let mut i: usize = 0;
    while i < av.len()
        invariant
            i <= av.len(),
            av@ == a@,
            bv@ == b@,
            av@.len() == bv@.len(),
            forall|j: int| 0 <= j < i ==> ascii_lower(#[trigger] a@[j]) == ascii_lower(b@[j]),
        decreases av.len() - i,
    {
        if lower_ascii(av[i]) != lower_ascii(bv[i]) {
            proof {
                assert(ascii_lower(a@[i as int]) != ascii_lower(b@[i as int]));
            }
            return false;
        }
        proof {
            assert(ascii_lower(a@[i as int]) as u32 as char == ascii_lower(b@[i as int]) as u32 as char);
        }
        i = i + 1;
    }
    true
}

/// The text with each ASCII letter in lower case.
pub open spec fn ascii_lowercase(s: Seq<char>) -> Seq<char> {
    s.map_values(|c: char| ascii_lower(c))
}

/// Puts each ASCII letter of a text in lower case.
pub fn to_ascii_lowercase(s: &str) -> (r: String)
    ensures
        r@ == ascii_lowercase(s@),
{
    let cs = to_chars(s);
    let mut out: String = String::new();
    let mut i: usize = 0;
    while i < cs.len()
        invariant
            i <= cs.len(),
            cs@ == s@,
            out@ == ascii_lowercase(s@.take(i as int)),
        decreases cs.len() - i,
    {
        let c: char = cs[i];
        if 'A' <= c && c <= 'Z' {
            push_char(&mut out, (c as u8 + 32) as char);
        } else {
            push_char(&mut out, c);
        }
        i = i + 1;
        assert(out@ =~= ascii_lowercase(s@.take(i as int)));
    }
    assert(s@.take(s@.len() as int) =~= s@);
    out
}

/// The lower-case form of a text, by Unicode's full case mapping.
pub uninterp spec fn lowercase(s: Seq<char>) -> Seq<char>;

/// `str::to_lowercase`: the result depends on the text alone and is named `lowercase`.
#[verifier::external_body]
pub(crate) fn to_lowercase(s: &str) -> (r: String)
    ensures
        r@ == lowercase(s@),
{
    s.to_lowercase()
}

/// The text that a run of bytes stands for where they are not UTF-8: what can be read, with a
/// replacement character for each part that cannot.
pub uninterp spec fn repaired_utf8(bytes: Seq<u8>) -> Seq<char>;

/// The text that a run of bytes stands for.
pub open spec fn lossy(bytes: Seq<u8>) -> Seq<char> {
    if vstd::utf8::valid_utf8(bytes) {
        vstd::utf8::decode_utf8(bytes)
    } else {
        repaired_utf8(bytes)
    }
}

/// `String::from_utf8_lossy`: bytes that are valid UTF-8 come back as the text that they encode;
/// of other bytes the result depends on the bytes alone and is named `repaired_utf8`.
#[verifier::external_body]
pub(crate) fn lossy_text(bytes: &[u8]) -> (r: String)
    ensures
        r@ == (if vstd::utf8::valid_utf8(bytes@) {
            vstd::utf8::decode_utf8(bytes@)
        } else {
            repaired_utf8(bytes@)
        }),
{
    String::from_utf8_lossy(bytes).into_owned()
}

/// The texts in order, with `sep` between neighbours.
pub open spec fn joined(parts: Seq<String>, sep: Seq<char>) -> Seq<char>
    decreases parts.len(),
{
    if parts.len() == 0 {
        Seq::empty()
    } else if parts.len() == 1 {
        parts[0]@
    } else {
        joined(parts.drop_last(), sep) + sep + parts.last()@
    }
}

/// Joins texts with a separator.
pub fn join(parts: &[String], sep: &str) -> (r: String)
    ensures
        r@ == joined(parts@, sep@),
{
    let mut out: String = String::new();
    let mut i: usize = 0;
    proof {
        assert(parts@.take(0) =~= Seq::empty());
    }
    while i < parts.len()
        invariant
            i <= parts.len(),
            out@ == joined(parts@.take(i as int), sep@),
        decreases parts.len() - i,
    {
        proof {
            assert(parts@.take(i + 1).drop_last() =~= parts@.take(i as int));
            assert(parts@.take(i + 1).last() == parts@[i as int]);
            assert(parts@.take(i + 1).len() == i + 1);
        }
        if i > 0 {
            out.append(sep);
        }
        out.append(parts[i].as_str());
        i = i + 1;
        proof {
            assert(out@ =~= joined(parts@.take(i as int), sep@));
        }
    }
    proof {
        assert(parts@.take(parts@.len() as int) =~= parts@);
    }
    out
}

/// Whether two lists of characters are equal.
pub fn same_chars(a: &Vec<char>, b: &Vec<char>) -> (r: bool)
    ensures
        r == (a@ == b@),
{
    if a.len() != b.len() {
        return false;
    }
    let r: bool = has_prefix(a.as_slice(), b.as_slice());
    assert(a@.take(b@.len() as int) =~= a@);
    r
}

/// The texts of a list of strings.
pub open spec fn strings_view(s: Seq<String>) -> Seq<Seq<char>> {
    s.map_values(|t: String| t@)
}

/// A text up to its first line feed is its first line, without a carriage return at its end, and
/// the lines of what is behind the line feed follow. Without a line feed a text is one line, or none
/// where it is empty.
pub proof fn law_lines(line: Seq<char>, rest: Seq<char>)
    requires
        !line.contains('\n'),
    ensures
        lines(Seq::empty()).len() == 0,
        line.len() > 0 ==> lines(line) == seq![line],
        !(line.len() > 0 && line.last() == '\r') ==> lines(line.push('\n') + rest) == seq![line]
            + lines(rest),
        lines(line.push('\r').push('\n') + rest) == seq![line] + lines(rest),
{
    let n = line.len() as int;
    assert forall|j: int| 0 <= j < n implies line[j] != '\n' by {
        assert(line.contains(line[j]));
    }
    lemma_index_of_is(line, '\n', n);
    let plain = line.push('\n') + rest;
    lemma_index_of_is(plain, '\n', n);
    assert(plain.take(n) =~= line);
    assert(plain.skip(n + 1) =~= rest);
    let full = line.push('\r').push('\n') + rest;
    lemma_index_of_is(full, '\n', n + 1);
    assert(full.take(n + 1) =~= line.push('\r'));
    assert(without_cr(line.push('\r')) =~= line);
    assert(full.skip(n + 2) =~= rest);
}

/// No line holds a line feed.
pub proof fn law_no_line_feed_in_a_line(s: Seq<char>, k: int)
    requires
        0 <= k < lines(s).len(),
    ensures
        !lines(s)[k].contains('\n'),
    decreases s.len(),
{
    lemma_index_of(s, '\n');
    let i = index_of(s, '\n') as int;
    if i < s.len() {
        if k > 0 {
            law_no_line_feed_in_a_line(s.skip(i + 1), k - 1);
            assert(lines(s)[k] == lines(s.skip(i + 1))[k - 1]);
        }
    }
}

proof fn lemma_trim_start_skips(white: Seq<char>, rest: Seq<char>)
    requires
        forall|j: int| 0 <= j < white.len() ==> is_white(#[trigger] white[j]),
        rest.len() > 0 ==> !is_white(rest[0]),
    ensures
        trim_start(white + rest) == rest,
    decreases white.len(),
{
    if white.len() > 0 {
        assert(is_white(white[0]));
        lemma_trim_start_skips(white.drop_first(), rest);
        assert((white + rest).drop_first() =~= white.drop_first() + rest);
    } else {
        assert(white + rest =~= rest);
    }
}

proof fn lemma_trim_end_cuts(front: Seq<char>, white: Seq<char>)
    requires
        forall|j: int| 0 <= j < white.len() ==> is_white(#[trigger] white[j]),
        front.len() > 0 ==> !is_white(front.last()),
    ensures
        trim_end(front + white) == front,
    decreases white.len(),
{
    if white.len() > 0 {
        assert(is_white(white[white.len() - 1]));
        lemma_trim_end_cuts(front, white.drop_last());
        assert((front + white).drop_last() =~= front + white.drop_last());
    } else {
        assert(front + white =~= front);
    }
}

/// Behind white space, the characters up to the next white space are the first word, and the words
/// of what follows are the others. White space alone has no words.
pub proof fn law_words(white: Seq<char>, word: Seq<char>, rest: Seq<char>)
    requires
        forall|j: int| 0 <= j < white.len() ==> is_white(#[trigger] white[j]),
        word.len() > 0,
        forall|j: int| 0 <= j < word.len() ==> !is_white(#[trigger] word[j]),
        rest.len() > 0 ==> is_white(rest[0]),
    ensures
        words(white + word + rest) == seq![word] + words(rest),
        words(white).len() == 0,
{
    let s = white + word + rest;
    let t = word + rest;
    assert(s =~= white + t);
    assert(!is_white(word[0]));
    lemma_trim_start_skips(white, t);
    lemma_word_len_is(t, word.len() as int);
    assert(t.take(word.len() as int) =~= word);
    assert(t.skip(word.len() as int) =~= rest);
    lemma_trim_start_skips(white, Seq::empty());
    assert(white + Seq::<char>::empty() =~= white);
}

/// Trimming cuts all white space off both ends and nothing else.
pub proof fn law_trim(before: Seq<char>, s: Seq<char>, after: Seq<char>)
    requires
        forall|j: int| 0 <= j < before.len() ==> is_white(#[trigger] before[j]),
        forall|j: int| 0 <= j < after.len() ==> is_white(#[trigger] after[j]),
        s.len() > 0 ==> !is_white(s[0]) && !is_white(s.last()),
    ensures
        trim(before + s + after) == s,
{
    if s.len() > 0 {
        assert(before + s + after =~= before + (s + after));
        lemma_trim_start_skips(before, s + after);
        lemma_trim_end_cuts(s, after);
    } else {
        assert(before + s + after =~= (before + after) + s);
        assert forall|j: int| 0 <= j < (before + after).len() implies is_white(
            #[trigger] (before + after)[j],
        ) by {
            if j >= before.len() {
                assert(is_white(after[j - before.len()]));
            } else {
                assert(is_white(before[j]));
            }
        }
        lemma_trim_start_skips(before + after, s);
        assert(trim_end(s) == s);
    }
}

/// Spaces, tabs, line feeds and carriage returns are white space; the printable ASCII characters are
/// not.
pub proof fn law_white_space(c: char)
    ensures
        is_white(' ') && is_white('\t') && is_white('\n') && is_white('\r'),
        '!' <= c <= '~' ==> !is_white(c),
{
}

/// A text is cut at each occurrence of a character: what is in front of the first one is the first
/// part, and the parts of what is behind it follow. Without the character a text is one part.
pub proof fn law_split_on(part: Seq<char>, rest: Seq<char>, c: char)
    requires
        !part.contains(c),
    ensures
        split_on(part, c) == seq![part],
        split_on(part.push(c) + rest, c) == seq![part] + split_on(rest, c),
{
    let n = part.len() as int;
    assert forall|j: int| 0 <= j < n implies part[j] != c by {
        assert(part.contains(part[j]));
    }
    lemma_index_of_is(part, c, n);
    let s = part.push(c) + rest;
    lemma_index_of_is(s, c, n);
    assert(s.take(n) =~= part);
    assert(s.skip(n + 1) =~= rest);
}

/// The decimal spelling of a number below ten is its digit; that of another is the spelling of its
/// tenth part and its last digit, and does not start with a zero. Different numbers are spelled
/// differently.
pub proof fn law_decimal(n: nat, m: nat)
    ensures
        digit_char(0) == '0',
        digit_char(9) == '9',
        n < 9 ==> digit_char(n + 1) as u32 == digit_char(n) as u32 + 1,
        n < 10 ==> decimal(n) == seq![digit_char(n)],
        n >= 10 ==> decimal(n) == decimal(n / 10).push(digit_char(n % 10)) && decimal(n)[0] != '0',
        n != m ==> decimal(n) != decimal(m),
{
    lemma_decimal(n);
    lemma_decimal(m);
    lemma_no_leading_zero(n);
}

proof fn lemma_no_leading_zero(n: nat)
    ensures
        n > 0 ==> decimal(n).len() > 0 && decimal(n)[0] != '0',
    decreases n,
{
    if n >= 10 {
        lemma_no_leading_zero(n / 10);
    }
}

/// Only decimal digits, with a plus sign in front or without, are read as a number, and each digit
/// counts ten times the one behind it.
pub proof fn law_parse_digits(s: Seq<char>, c: char)
    ensures
        parsed_u32(Seq::empty()) is None,
        parsed_u32(seq!['+']) is None,
        s.len() > 0 && s[0] != '+' ==> parsed_u32(seq!['+'] + s) == parsed_u32(s),
        parsed_u32(s) is Some && '0' <= c <= '9' ==> parsed_u32(s.push(c)) == (if 10 * parsed_u32(
            s,
        )->Some_0 + (c as u32 - '0' as u32) <= u32::MAX {
            Some((10 * parsed_u32(s)->Some_0 + (c as u32 - '0' as u32)) as u32)
        } else {
            None
        }),
        parsed_u32(seq![c]) == (if '0' <= c <= '9' {
            Some((c as u32 - '0' as u32) as u32)
        } else {
            None
        }),
        !('0' <= c <= '9') && s.len() > 0 ==> parsed_u32(s.push(c)) is None,
{
    assert(unsigned_digits(seq!['+']) =~= Seq::empty());
    if s.len() > 0 && s[0] != '+' {
        assert((seq!['+'] + s).drop_first() =~= s);
    }
    if s.len() > 0 {
        let ds = unsigned_digits(s);
        assert(unsigned_digits(s.push(c)) =~= ds.push(c));
        assert(ds.push(c).drop_last() =~= ds);
        assert(ds.push(c)[ds.len() as int] == c);
        assert forall|j: int| 0 <= j < ds.len() implies ds.push(c)[j] == ds[j] by {}
        if forall|j: int| 0 <= j < ds.push(c).len() ==> is_digit(ds.push(c)[j]) {
            assert(is_digit(ds.push(c)[ds.len() as int]));
        }
    }
    let one = seq![c];
    assert(one.drop_last() =~= Seq::empty());
    assert(one.last() == c);
    reveal_with_fuel(digits_value, 2);
    if c == '+' {
        assert(unsigned_digits(one) =~= Seq::empty());
    } else {
        assert(unsigned_digits(one) == one);
        assert(one[0] == c);
    }
}

/// Only the ASCII letters A to Z change in lower case, each to the one 32 places further on. So a
/// text stays as long as it is, and putting it in lower case again changes nothing.
pub proof fn law_ascii_lowercase(s: Seq<char>, k: int)
    requires
        0 <= k < s.len(),
    ensures
        ascii_lowercase(s).len() == s.len(),
        'A' <= s[k] <= 'Z' ==> ascii_lowercase(s)[k] as u32 == s[k] as u32 + 32,
        !('A' <= s[k] <= 'Z') ==> ascii_lowercase(s)[k] == s[k],
        !('A' <= ascii_lowercase(s)[k] <= 'Z'),
        ascii_lower('A') == 'a',
        ascii_lower('Z') == 'z',
{
}

/// A text occurs in another exactly when the other is made of it and of what is around it, and is at
/// its front exactly when nothing is before it.
pub proof fn law_occurrence(before: Seq<char>, p: Seq<char>, after: Seq<char>, s: Seq<char>)
    ensures
        contains_text(before + p + after, p),
        starts_with(p + after, p),
        contains_text(s, p) ==> exists|a: Seq<char>, b: Seq<char>| s == #[trigger] (a + p + b),
        starts_with(s, p) ==> s == p + s.skip(p.len() as int),
        starts_with(s, p) ==> contains_text(s, p),
{
    let n = p.len() as int;
    let whole = before + p + after;
    let k = before.len() as int;
    assert(whole.subrange(k, k + n) =~= p);
    assert((p + after).take(n) =~= p);
    if contains_text(s, p) {
        let i = choose|i: int| 0 <= i <= s.len() - p.len() && #[trigger] s.subrange(i, i + p.len())
            == p;
        assert(s =~= s.take(i) + s.subrange(i, i + n) + s.skip(i + n));
        assert(s == s.take(i) + p + s.skip(i + n));
    }
    if starts_with(s, p) {
        assert(s =~= s.take(n) + s.skip(n));
        assert(s.subrange(0, 0 + n) =~= s.take(n));
    }
}

/// Two texts are equal up to the case of ASCII letters exactly when they are the same in lower case.
pub proof fn law_same_in_lower_case(a: Seq<char>, b: Seq<char>)
    ensures
        same_ignoring_ascii_case(a, b) <==> ascii_lowercase(a) == ascii_lowercase(b),
        same_ignoring_ascii_case(a, ascii_lowercase(a)),
{
    let x = ascii_lowercase(a);
    let y = ascii_lowercase(b);
    if same_ignoring_ascii_case(a, b) {
        assert(x =~= y);
    }
    if x == y {
        assert(a.len() == x.len() && b.len() == y.len());
        assert forall|j: int| 0 <= j < a.len() implies ascii_lower(#[trigger] a[j]) == ascii_lower(
            b[j],
        ) by {
            assert(x[j] == y[j]);
        }
    }
}

/// Joined texts stand in their order, with the separator between neighbours and nowhere else.
pub proof fn law_joined(parts: Seq<String>, sep: Seq<char>, last: String)
    ensures
        joined(Seq::empty(), sep).len() == 0,
        joined(seq![last], sep) == last@,
        parts.len() > 0 ==> joined(parts.push(last), sep) == joined(parts, sep) + sep + last@,
{
    if parts.len() > 0 {
        assert(parts.push(last).drop_last() =~= parts);
    }
}

} // verus!
