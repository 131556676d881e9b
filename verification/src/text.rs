//! Character-level text handling: the mathematical model of the line- and
//! token-oriented formats that kernel interfaces expose, and executable
//! routines proved against it.
//!
//! Every model function works on `Seq<char>`, the view of `str` and `String`.

use vstd::prelude::*;
use vstd::string::StringExecFns;

verus! {

/// Whether `c` is white space: the code points with the Unicode property
/// `White_Space`.
pub open spec fn is_space(c: char) -> bool {
    let n = c as u32;
    ||| 0x09 <= n <= 0x0D
    ||| n == 0x20
    ||| n == 0x85
    ||| n == 0xA0
    ||| n == 0x1680
    ||| 0x2000 <= n <= 0x200A
    ||| n == 0x2028
    ||| n == 0x2029
    ||| n == 0x202F
    ||| n == 0x205F
    ||| n == 0x3000
}

/// Whether `c` is one of the ten ASCII decimal digits.
pub open spec fn is_digit(c: char) -> bool {
    0x30 <= c as u32 <= 0x39
}

/// The number that the digit `c` stands for.
pub open spec fn digit_value(c: char) -> nat
    recommends
        is_digit(c),
{
    (c as u32 - 0x30) as nat
}

/// `s` without its leading white space.
pub open spec fn trim_start(s: Seq<char>) -> Seq<char>
    decreases s.len(),
{
    if s.len() > 0 && is_space(s[0]) {
        trim_start(s.drop_first())
    } else {
        s
    }
}

/// `s` without its trailing white space.
pub open spec fn trim_end(s: Seq<char>) -> Seq<char>
    decreases s.len(),
{
    if s.len() > 0 && is_space(s.last()) {
        trim_end(s.drop_last())
    } else {
        s
    }
}

/// `s` without leading and trailing white space.
pub open spec fn trim(s: Seq<char>) -> Seq<char> {
    trim_end(trim_start(s))
}

/// The length of the longest prefix of `s` that holds no `sep`.
pub open spec fn field_len(s: Seq<char>, sep: char) -> nat
    decreases s.len(),
{
    if s.len() == 0 || s[0] == sep {
        0
    } else {
        1 + field_len(s.drop_first(), sep)
    }
}

/// The pieces of `s` between occurrences of `sep`. There is always at least
/// one piece, and a separator at either end gives an empty piece there.
pub open spec fn split(s: Seq<char>, sep: char) -> Seq<Seq<char>>
    decreases s.len(),
{
    let n = field_len(s, sep);
    if n >= s.len() {
        seq![s]
    } else {
        seq![s.take(n as int)] + split(s.skip(n as int + 1), sep)
    }
}

/// The pieces joined again, with `sep` between each two.
pub open spec fn join(pieces: Seq<Seq<char>>, sep: char) -> Seq<char>
    decreases pieces.len(),
{
    if pieces.len() == 0 {
        Seq::empty()
    } else if pieces.len() == 1 {
        pieces[0]
    } else {
        pieces[0] + seq![sep] + join(pieces.drop_first(), sep)
    }
}

/// The piece of `s` with the number `index`, counted from 0, among those
/// between occurrences of `sep`.
pub open spec fn nth_field(s: Seq<char>, sep: char, index: int) -> Option<Seq<char>> {
    if 0 <= index < split(s, sep).len() {
        Some(split(s, sep)[index])
    } else {
        None
    }
}

/// The length of the longest prefix of `s` that holds no white space.
pub open spec fn word_len(s: Seq<char>) -> nat
    decreases s.len(),
{
    if s.len() == 0 || is_space(s[0]) {
        0
    } else {
        1 + word_len(s.drop_first())
    }
}

/// A leading word is never longer than the text, and is not empty where the
/// text starts with something other than white space.
pub proof fn lemma_word_len_bounds(s: Seq<char>)
    ensures
        word_len(s) <= s.len(),
        s.len() > 0 && !is_space(s[0]) ==> word_len(s) >= 1,
    decreases s.len(),
{
    if s.len() > 0 && !is_space(s[0]) {
        lemma_word_len_bounds(s.drop_first());
    }
}

/// The maximal runs of characters of `s` that are not white space, in order.
pub open spec fn words(s: Seq<char>) -> Seq<Seq<char>>
    decreases s.len(),
{
    if s.len() == 0 {
        Seq::empty()
    } else if is_space(s[0]) {
        words(s.drop_first())
    } else {
        let n = word_len(s);
        proof {
            lemma_word_len_bounds(s);
        }
        seq![s.take(n as int)] + words(s.skip(n as int))
    }
}

/// Whether `needle` occurs in `s` at position `at`.
pub open spec fn occurs_at(s: Seq<char>, needle: Seq<char>, at: int) -> bool {
    0 <= at && at + needle.len() <= s.len() && s.subrange(at, at + needle.len()) == needle
}

/// Whether `needle` occurs somewhere in `s`.
pub open spec fn contains(s: Seq<char>, needle: Seq<char>) -> bool {
    exists|at: int| occurs_at(s, needle, at)
}

/// Whether `s` begins with `prefix`.
pub open spec fn starts_with(s: Seq<char>, prefix: Seq<char>) -> bool {
    occurs_at(s, prefix, 0)
}

/// The number written by the digits `s`, read as a decimal numeral.
pub open spec fn digits_value(s: Seq<char>) -> nat
    decreases s.len(),
{
    if s.len() == 0 {
        0
    } else {
        digits_value(s.drop_last()) * 10 + digit_value(s.last())
    }
}

/// Whether `s` is a non-empty run of decimal digits.
pub open spec fn is_numeral(s: Seq<char>) -> bool {
    s.len() > 0 && forall|i: int| 0 <= i < s.len() ==> is_digit(#[trigger] s[i])
}

/// The digits of an unsigned decimal number: `s` itself, or what follows a
/// single leading plus sign.
pub open spec fn unsigned_digits(s: Seq<char>) -> Seq<char> {
    if s.len() > 0 && s[0] == '+' {
        s.drop_first()
    } else {
        s
    }
}

/// The number that `s` spells as an unsigned decimal, if it spells one: an
/// optional plus sign, then one or more digits, and nothing else.
pub open spec fn decimal_value(s: Seq<char>) -> Option<nat> {
    let d = unsigned_digits(s);
    if is_numeral(d) {
        Some(digits_value(d))
    } else {
        None
    }
}

/// The `u64` that `s` spells, if it spells a decimal number that fits.
pub open spec fn u64_of(s: Seq<char>) -> Option<u64> {
    match decimal_value(s) {
        Some(v) => if v <= u64::MAX {
            Some(v as u64)
        } else {
            None
        },
        None => None,
    }
}

/// The `u32` that `s` spells, if it spells a decimal number that fits.
pub open spec fn u32_of(s: Seq<char>) -> Option<u32> {
    match decimal_value(s) {
        Some(v) => if v <= u32::MAX {
            Some(v as u32)
        } else {
            None
        },
        None => None,
    }
}

/// The character of a decimal digit.
pub open spec fn digit_char(d: nat) -> char
    recommends
        d < 10,
{
    if d == 0 {
        '0'
    } else if d == 1 {
        '1'
    } else if d == 2 {
        '2'
    } else if d == 3 {
        '3'
    } else if d == 4 {
        '4'
    } else if d == 5 {
        '5'
    } else if d == 6 {
        '6'
    } else if d == 7 {
        '7'
    } else if d == 8 {
        '8'
    } else {
        '9'
    }
}

/// The decimal numeral of `n`, without leading zeros.
pub open spec fn decimal(n: nat) -> Seq<char>
    decreases n,
{
    if n < 10 {
        seq![digit_char(n)]
    } else {
        decimal(n / 10).push(digit_char(n % 10))
    }
}

/// The views of a sequence of character vectors.
pub open spec fn views(v: Seq<Vec<char>>) -> Seq<Seq<char>> {
    v.map_values(|piece: Vec<char>| piece@)
}

/// The views of a sequence of strings.
pub open spec fn string_views(v: Seq<String>) -> Seq<Seq<char>> {
    v.map_values(|piece: String| piece@)
}

/// The view of a text that may be absent.
pub open spec fn text_view(text: Option<String>) -> Option<Seq<char>> {
    match text {
        Some(t) => Some(t@),
        None => None,
    }
}

/// Whether each span `(from, to)` lies inside a text of length `len`.
pub open spec fn spans_within(spans: Seq<(usize, usize)>, len: nat) -> bool {
    forall|i: int| 0 <= i < spans.len() ==> (#[trigger] spans[i]).0 <= spans[i].1 <= len
}

/// The pieces of `s` that the spans `(from, to)` cut out.
pub open spec fn cut(s: Seq<char>, spans: Seq<(usize, usize)>) -> Seq<Seq<char>> {
    spans.map_values(|span: (usize, usize)| s.subrange(span.0 as int, span.1 as int))
}

/// Trimming at the start leaves a suffix that does not begin with white
/// space.
pub proof fn lemma_trim_start_is_suffix(s: Seq<char>)
    ensures
        trim_start(s).len() <= s.len(),
        trim_start(s) == s.skip(s.len() - trim_start(s).len()),
        trim_start(s).len() > 0 ==> !is_space(trim_start(s)[0]),
    decreases s.len(),
{
    if s.len() > 0 && is_space(s[0]) {
        let rest = s.drop_first();
        lemma_trim_start_is_suffix(rest);
        assert(rest.skip(rest.len() - trim_start(rest).len()) == s.skip(
            s.len() - trim_start(rest).len(),
        ));
    } else {
        assert(s.skip(0) == s);
    }
}

/// Trimming at the end leaves a prefix that does not end with white space.
pub proof fn lemma_trim_end_is_prefix(s: Seq<char>)
    ensures
        trim_end(s).len() <= s.len(),
        trim_end(s) == s.take(trim_end(s).len() as int),
        trim_end(s).len() > 0 ==> !is_space(trim_end(s).last()),
    decreases s.len(),
{
    if s.len() > 0 && is_space(s.last()) {
        let rest = s.drop_last();
        lemma_trim_end_is_prefix(rest);
        assert(rest.take(trim_end(rest).len() as int) == s.take(trim_end(rest).len() as int));
    } else {
        assert(s.take(s.len() as int) == s);
    }
}

/// What trimming leaves neither begins nor ends with white space, and is a
/// part of the text.
pub proof fn lemma_trim_clean(s: Seq<char>)
    ensures
        trim(s).len() > 0 ==> !is_space(trim(s)[0]) && !is_space(trim(s).last()),
        exists|a: int, b: int| 0 <= a <= b <= s.len() && trim(s) == #[trigger] s.subrange(a, b),
{
    lemma_trim_start_is_suffix(s);
    let a = s.len() - trim_start(s).len();
    let t = trim_start(s);
    lemma_trim_end_is_prefix(t);
    let m = trim_end(t).len() as int;
    assert(t.take(m) == s.subrange(a, a + m));
    if m > 0 {
        assert(trim(s)[0] == t[0]);
    }
}

/// A leading field is never longer than the text, holds no separator, and
/// ends at one unless it ends the text.
pub proof fn lemma_field_len_bounds(s: Seq<char>, sep: char)
    ensures
        field_len(s, sep) <= s.len(),
        forall|k: int| 0 <= k < field_len(s, sep) ==> #[trigger] s[k] != sep,
        field_len(s, sep) < s.len() ==> s[field_len(s, sep) as int] == sep,
    decreases s.len(),
{
    if s.len() > 0 && s[0] != sep {
        let rest = s.drop_first();
        lemma_field_len_bounds(rest, sep);
        assert forall|k: int| 0 <= k < field_len(s, sep) implies #[trigger] s[k] != sep by {
            if k > 0 {
                assert(s[k] == rest[k - 1]);
            }
        }
        if field_len(s, sep) < s.len() {
            assert(s[field_len(s, sep) as int] == rest[field_len(rest, sep) as int]);
        }
    }
}

/// Splitting gives at least one piece, and no piece holds the separator.
pub proof fn lemma_split_pieces(s: Seq<char>, sep: char)
    ensures
        split(s, sep).len() >= 1,
        forall|i: int, k: int|
            0 <= i < split(s, sep).len() && 0 <= k < split(s, sep)[i].len() ==> #[trigger] split(
                s,
                sep,
            )[i][k] != sep,
    decreases s.len(),
{
    let n = field_len(s, sep);
    lemma_field_len_bounds(s, sep);
    if n < s.len() {
        let head = s.take(n as int);
        let tail = split(s.skip(n as int + 1), sep);
        lemma_split_pieces(s.skip(n as int + 1), sep);
        assert forall|i: int, k: int|
            0 <= i < split(s, sep).len() && 0 <= k < split(s, sep)[i].len() implies #[trigger] split(
            s,
            sep,
        )[i][k] != sep by {
            if i == 0 {
                assert(split(s, sep)[0] == head);
                assert(head[k] == s[k]);
            } else {
                assert(split(s, sep)[i] == tail[i - 1]);
            }
        }
    }
}

/// Joining the pieces of a text with the separator gives the text back.
pub proof fn lemma_join_split(s: Seq<char>, sep: char)
    ensures
        join(split(s, sep), sep) == s,
    decreases s.len(),
{
    let n = field_len(s, sep);
    lemma_field_len_bounds(s, sep);
    if n < s.len() {
        let head = s.take(n as int);
        let rest = s.skip(n as int + 1);
        let tail = split(rest, sep);
        lemma_split_pieces(rest, sep);
        lemma_join_split(rest, sep);
        let pieces = split(s, sep);
        assert(pieces == seq![head] + tail);
        assert(pieces.len() >= 2);
        assert(pieces[0] == head);
        assert(pieces.drop_first() =~= tail);
        assert(head + seq![sep] + rest =~= s);
    }
}

/// A leading word holds no white space.
pub proof fn lemma_word_len_clean(s: Seq<char>)
    ensures
        forall|k: int| 0 <= k < word_len(s) ==> !is_space(#[trigger] s[k]),
    decreases s.len(),
{
    if s.len() > 0 && !is_space(s[0]) {
        let rest = s.drop_first();
        lemma_word_len_clean(rest);
        lemma_word_len_bounds(rest);
        assert forall|k: int| 0 <= k < word_len(s) implies !is_space(#[trigger] s[k]) by {
            if k > 0 {
                assert(s[k] == rest[k - 1]);
            }
        }
    }
}

/// Every word has at least one character, and none that is white space.
pub proof fn lemma_words_clean(s: Seq<char>)
    ensures
        forall|i: int| 0 <= i < words(s).len() ==> (#[trigger] words(s)[i]).len() > 0,
        forall|i: int, k: int|
            0 <= i < words(s).len() && 0 <= k < words(s)[i].len() ==> !is_space(
                #[trigger] words(s)[i][k],
            ),
    decreases s.len(),
{
    if s.len() == 0 {
        assert(words(s).len() == 0);
    } else if is_space(s[0]) {
        lemma_words_clean(s.drop_first());
        assert(words(s) == words(s.drop_first()));
    } else {
        let n = word_len(s);
        lemma_word_len_bounds(s);
        lemma_word_len_clean(s);
        let head = s.take(n as int);
        let tail = words(s.skip(n as int));
        lemma_words_clean(s.skip(n as int));
        assert(words(s) == seq![head] + tail);
        assert forall|i: int| 0 <= i < words(s).len() implies (#[trigger] words(s)[i]).len()
            > 0 by {
            if i > 0 {
                assert(words(s)[i] == tail[i - 1]);
            }
        }
        assert forall|i: int, k: int|
            0 <= i < words(s).len() && 0 <= k < words(s)[i].len() implies !is_space(
            #[trigger] words(s)[i][k],
        ) by {
            if i == 0 {
                assert(head[k] == s[k]);
            } else {
                assert(words(s)[i] == tail[i - 1]);
            }
        }
    }
}

/// Leading white space ends at the first character that is none.
pub proof fn lemma_trim_start(s: Seq<char>, a: int)
    requires
        0 <= a <= s.len(),
        forall|k: int| 0 <= k < a ==> is_space(#[trigger] s[k]),
        a == s.len() || !is_space(s[a]),
    ensures
        trim_start(s) == s.skip(a),
    decreases a,
{
    if a == 0 {
        assert(s.skip(0) == s);
    } else {
        let rest = s.drop_first();
        assert forall|k: int| 0 <= k < a - 1 implies is_space(#[trigger] rest[k]) by {
            assert(rest[k] == s[k + 1]);
        }
        lemma_trim_start(rest, a - 1);
        assert(rest.skip(a - 1) == s.skip(a));
    }
}

/// Trailing white space begins after the last character that is none.
pub proof fn lemma_trim_end(s: Seq<char>, b: int)
    requires
        0 <= b <= s.len(),
        forall|k: int| b <= k < s.len() ==> is_space(#[trigger] s[k]),
        b == 0 || !is_space(s[b - 1]),
    ensures
        trim_end(s) == s.take(b),
    decreases s.len() - b,
{
    if b == s.len() {
        assert(s.take(b) == s);
    } else {
        let rest = s.drop_last();
        lemma_trim_end(rest, b);
        assert(rest.take(b) == s.take(b));
    }
}

/// A field ends at the first separator, or at the end of the text.
pub proof fn lemma_field_len(s: Seq<char>, sep: char, n: int)
    requires
        0 <= n <= s.len(),
        forall|k: int| 0 <= k < n ==> #[trigger] s[k] != sep,
        n == s.len() || s[n] == sep,
    ensures
        field_len(s, sep) == n,
    decreases n,
{
    if n > 0 {
        let rest = s.drop_first();
        assert forall|k: int| 0 <= k < n - 1 implies #[trigger] rest[k] != sep by {
            assert(rest[k] == s[k + 1]);
        }
        lemma_field_len(rest, sep, n - 1);
    }
}

/// A word ends at the first white space, or at the end of the text.
pub proof fn lemma_word_len(s: Seq<char>, n: int)
    requires
        0 <= n <= s.len(),
        forall|k: int| 0 <= k < n ==> !is_space(#[trigger] s[k]),
        n == s.len() || is_space(s[n]),
    ensures
        word_len(s) == n,
    decreases n,
{
    if n > 0 {
        let rest = s.drop_first();
        assert forall|k: int| 0 <= k < n - 1 implies !is_space(#[trigger] rest[k]) by {
            assert(rest[k] == s[k + 1]);
        }
        lemma_word_len(rest, n - 1);
    }
}

/// The value of a numeral is at least the value of each of its prefixes.
pub proof fn lemma_digits_value_prefix(s: Seq<char>, k: int)
    requires
        0 <= k <= s.len(),
    ensures
        digits_value(s.take(k)) <= digits_value(s),
    decreases s.len() - k,
{
    if k == s.len() {
        assert(s.take(k) == s);
    } else {
        lemma_digits_value_prefix(s.drop_last(), k);
        assert(s.drop_last().take(k) == s.take(k));
    }
}

/// The decimal numeral of a number is made of digits, and spells the number.
pub proof fn lemma_decimal_spells(n: nat)
    ensures
        is_numeral(decimal(n)),
        digits_value(decimal(n)) == n,
        decimal_value(decimal(n)) == Some(n),
    decreases n,
{
    if n < 10 {
        let s = decimal(n);
        assert(s.len() == 1);
        assert(is_digit(s[0]));
        assert(s.drop_last().len() == 0);
        assert(digits_value(s) == digits_value(s.drop_last()) * 10 + digit_value(s.last()));
    } else {
        let before = decimal(n / 10);
        let s = decimal(n);
        lemma_decimal_spells(n / 10);
        assert(s == before.push(digit_char(n % 10)));
        assert(s.drop_last() == before);
        assert(is_digit(s.last()));
        assert forall|i: int| 0 <= i < s.len() implies is_digit(#[trigger] s[i]) by {
            if i < before.len() {
                assert(s[i] == before[i]);
            }
        }
        assert(s[0] == before[0]);
    }
    assert(decimal(n)[0] != '+');
    assert(unsigned_digits(decimal(n)) == decimal(n));
}

/// Writing a number in decimal and reading it back gives the number.
pub proof fn lemma_decimal_round_trip(n: u64)
    ensures
        u64_of(decimal(n as nat)) == Some(n),
{
    lemma_decimal_spells(n as nat);
}

/// Copies the characters of a string slice into a vector.
pub fn chars_of(s: &str) -> (v: Vec<char>)
    ensures
        v@ == s@,
{
    let mut v: Vec<char> = Vec::new();
    for c in it: s.chars()
        invariant
            v@ == it.seq().take(it.index() as int),
            it.seq() == s@,
    {
        v.push(c);
    }
    v
}

/// Decides `is_space`.
pub fn char_is_space(c: char) -> (r: bool)
    ensures
        r == is_space(c),
{
    let n: u32 = c as u32;
    (0x09 <= n && n <= 0x0D) || n == 0x20 || n == 0x85 || n == 0xA0 || n == 0x1680 || (0x2000 <= n
        && n <= 0x200A) || n == 0x2028 || n == 0x2029 || n == 0x202F || n == 0x205F || n == 0x3000
}

/// Decides `is_digit`.
pub fn char_is_digit(c: char) -> (r: bool)
    ensures
        r == is_digit(c),
{
    let n: u32 = c as u32;
    0x30 <= n && n <= 0x39
}

/// Copies the characters of `s` from position `from` up to `to`.
pub fn copy_range(s: &[char], from: usize, to: usize) -> (v: Vec<char>)
    requires
        from <= to <= s@.len(),
    ensures
        v@ == s@.subrange(from as int, to as int),
{
    let mut v: Vec<char> = Vec::new();
    let mut i: usize = from;
    while i < to
        invariant
            from <= i <= to <= s@.len(),
            v@ == s@.subrange(from as int, i as int),
        decreases to - i,
    {
        v.push(s[i]);
        i += 1;
    }
    v
}

/// Whether two character sequences are equal.
pub fn chars_eq(a: &[char], b: &[char]) -> (r: bool)
    ensures
        r == (a@ == b@),
{
    if a.len() != b.len() {
        return false;
    }
    let mut i: usize = 0;
    while i < a.len()
        invariant
            a@.len() == b@.len(),
            i <= a@.len(),
            a@.take(i as int) == b@.take(i as int),
        decreases a@.len() - i,
    {
        if a[i] != b[i] {
            return false;
        }
        assert(a@.take(i + 1) == a@.take(i as int).push(a@[i as int]));
        assert(b@.take(i + 1) == b@.take(i as int).push(b@[i as int]));
        i += 1;
    }
    assert(a@ == a@.take(i as int));
    assert(b@ == b@.take(i as int));
    true
}

/// Whether two string slices hold the same characters.
pub fn str_eq(a: &str, b: &str) -> (r: bool)
    ensures
        r == (a@ == b@),
{
    let x = chars_of(a);
    let y = chars_of(b);
    chars_eq(x.as_slice(), y.as_slice())
}

/// `s` without leading and trailing white space.
pub fn trim_chars(s: &[char]) -> (r: Vec<char>)
    ensures
        r@ == trim(s@),
{
    let n = s.len();
    let mut a: usize = 0;
    while a < n && char_is_space(s[a])
        invariant
            a <= n == s@.len(),
            forall|k: int| 0 <= k < a ==> is_space(#[trigger] s@[k]),
        decreases n - a,
    {
        a += 1;
    }
    let mut b: usize = n;
    while b > a && char_is_space(s[b - 1])
        invariant
            a <= b <= n == s@.len(),
            forall|k: int| b <= k < n ==> is_space(#[trigger] s@[k]),
        decreases b,
    {
        b -= 1;
    }
    proof {
        lemma_trim_start(s@, a as int);
        let t = s@.skip(a as int);
        assert forall|k: int| b - a <= k < t.len() implies is_space(#[trigger] t[k]) by {
            assert(t[k] == s@[k + a]);
        }
        lemma_trim_end(t, b - a);
        assert(t.take(b - a) == s@.subrange(a as int, b as int));
    }
    copy_range(s, a, b)
}

/// Where the pieces of `s` between occurrences of `sep` lie.
pub fn split_spans(s: &[char], sep: char) -> (r: Vec<(usize, usize)>)
    ensures
        spans_within(r@, s@.len()),
        cut(s@, r@) == split(s@, sep),
{
    let n = s.len();
    let mut out: Vec<(usize, usize)> = Vec::new();
    let mut start: usize = 0;
    proof {
        assert(s@.skip(0) == s@);
        assert(cut(s@, out@) + split(s@, sep) == split(s@, sep));
    }
    loop
        invariant
            start <= n == s@.len(),
            spans_within(out@, s@.len()),
            split(s@, sep) == cut(s@, out@) + split(s@.skip(start as int), sep),
        decreases n - start,
    {
        let mut j: usize = start;
        while j < n && s[j] != sep
            invariant
                start <= j <= n == s@.len(),
                forall|k: int| start <= k < j ==> #[trigger] s@[k] != sep,
            decreases n - j,
        {
            j += 1;
        }
        proof {
            let rest = s@.skip(start as int);
            let piece = s@.subrange(start as int, j as int);
            assert forall|k: int| 0 <= k < j - start implies #[trigger] rest[k] != sep by {
                assert(rest[k] == s@[k + start]);
            }
            lemma_field_len(rest, sep, j - start);
            assert(rest.take(j - start) == piece);
            assert(cut(s@, out@.push((start, j))) == cut(s@, out@) + seq![piece]);
            if j < n {
                assert(rest.skip(j - start + 1) == s@.skip(j + 1));
            } else {
                assert(rest == piece);
            }
        }
        out.push((start, j));
        if j >= n {
            return out;
        }
        start = j + 1;
    }
}

/// Where the maximal runs of characters of `s` that are not white space lie.
pub fn word_spans(s: &[char]) -> (r: Vec<(usize, usize)>)
    ensures
        spans_within(r@, s@.len()),
        cut(s@, r@) == words(s@),
{
    let n = s.len();
    let mut out: Vec<(usize, usize)> = Vec::new();
    let mut i: usize = 0;
    proof {
        assert(s@.skip(0) == s@);
        assert(cut(s@, out@) + words(s@) == words(s@));
    }
    while i < n
        invariant
            i <= n == s@.len(),
            spans_within(out@, s@.len()),
            words(s@) == cut(s@, out@) + words(s@.skip(i as int)),
        decreases n - i,
    {
        let ghost rest = s@.skip(i as int);
        if char_is_space(s[i]) {
            proof {
                assert(rest[0] == s@[i as int]);
                assert(rest.drop_first() == s@.skip(i + 1));
            }
            i += 1;
        } else {
            let mut j: usize = i;
            while j < n && !char_is_space(s[j])
                invariant
                    i <= j <= n == s@.len(),
                    forall|k: int| i <= k < j ==> !is_space(#[trigger] s@[k]),
                decreases n - j,
            {
                j += 1;
            }
            proof {
                let piece = s@.subrange(i as int, j as int);
                assert(rest[0] == s@[i as int]);
                assert forall|k: int| 0 <= k < j - i implies !is_space(#[trigger] rest[k]) by {
                    assert(rest[k] == s@[k + i]);
                }
                lemma_word_len(rest, j - i);
                assert(rest.take(j - i) == piece);
                assert(rest.skip(j - i) == s@.skip(j as int));
                assert(cut(s@, out@.push((i, j))) == cut(s@, out@) + seq![piece]);
            }
            out.push((i, j));
            i = j;
        }
    }
    proof {
        assert(s@.skip(i as int).len() == 0);
        assert(cut(s@, out@) + Seq::<Seq<char>>::empty() == cut(s@, out@));
    }
    out
}

/// Copies out the pieces of `s` that `spans` cut.
pub fn pieces_of(s: &[char], spans: &Vec<(usize, usize)>) -> (r: Vec<Vec<char>>)
    requires
        spans_within(spans@, s@.len()),
    ensures
        views(r@) == cut(s@, spans@),
{
    let mut out: Vec<Vec<char>> = Vec::new();
    let mut i: usize = 0;
    while i < spans.len()
        invariant
            i <= spans@.len(),
            spans_within(spans@, s@.len()),
            views(out@) == cut(s@, spans@.take(i as int)),
        decreases spans@.len() - i,
    {
        let span = spans[i];
        let piece = copy_range(s, span.0, span.1);
        proof {
            assert(spans@.take(i + 1) == spans@.take(i as int).push(span));
            assert(views(out@.push(piece)) == views(out@).push(piece@));
            assert(cut(s@, spans@.take(i as int).push(span)) == cut(
                s@,
                spans@.take(i as int),
            ).push(piece@));
        }
        out.push(piece);
        i += 1;
    }
    proof {
        assert(spans@.take(i as int) == spans@);
    }
    out
}

/// Copies out, as strings, the pieces of `content` that `spans` cut.
pub fn strings_of(content: &str, spans: &Vec<(usize, usize)>) -> (r: Vec<String>)
    requires
        spans_within(spans@, content@.len()),
    ensures
        string_views(r@) == cut(content@, spans@),
{
    let mut out: Vec<String> = Vec::new();
    let mut i: usize = 0;
    while i < spans.len()
        invariant
            i <= spans@.len(),
            spans_within(spans@, content@.len()),
            string_views(out@) == cut(content@, spans@.take(i as int)),
        decreases spans@.len() - i,
    {
        let span = spans[i];
        let piece = content.substring_char(span.0, span.1).to_owned();
        proof {
            assert(spans@.take(i + 1) == spans@.take(i as int).push(span));
            assert(string_views(out@.push(piece)) == string_views(out@).push(piece@));
            assert(cut(content@, spans@.take(i as int).push(span)) == cut(
                content@,
                spans@.take(i as int),
            ).push(piece@));
        }
        out.push(piece);
        i += 1;
    }
    proof {
        assert(spans@.take(i as int) == spans@);
    }
    out
}

/// The pieces of `s` between occurrences of `sep`.
pub fn split_chars(s: &[char], sep: char) -> (r: Vec<Vec<char>>)
    ensures
        views(r@) == split(s@, sep),
{
    let spans = split_spans(s, sep);
    pieces_of(s, &spans)
}

/// The maximal runs of characters of `s` that are not white space, in order.
pub fn split_words(s: &[char]) -> (r: Vec<Vec<char>>)
    ensures
        views(r@) == words(s@),
{
    let spans = word_spans(s);
    pieces_of(s, &spans)
}

/// The pieces of `content` between occurrences of `sep`, as strings.
pub fn split_str(content: &str, sep: char) -> (r: Vec<String>)
    ensures
        string_views(r@) == split(content@, sep),
{
    let chars = chars_of(content);
    let spans = split_spans(chars.as_slice(), sep);
    strings_of(content, &spans)
}

/// The maximal runs of characters of `content` that are not white space, in
/// order, as strings.
pub fn words_of(content: &str) -> (r: Vec<String>)
    ensures
        string_views(r@) == words(content@),
{
    let chars = chars_of(content);
    let spans = word_spans(chars.as_slice());
    strings_of(content, &spans)
}

/// The piece of `content` with the number `index`, counted from 0, among
/// those between occurrences of `sep`.
pub fn field_of(content: &str, sep: char, index: usize) -> (r: Option<String>)
    ensures
        text_view(r) == nth_field(content@, sep, index as int),
{
    let chars = chars_of(content);
    let spans = split_spans(chars.as_slice(), sep);
    if index < spans.len() {
        let span = spans[index];
        Some(content.substring_char(span.0, span.1).to_owned())
    } else {
        None
    }
}

/// Whether `needle` occurs in `s` at position `at`.
pub fn match_at(s: &[char], needle: &[char], at: usize) -> (r: bool)
    ensures
        r == occurs_at(s@, needle@, at as int),
{
    let n = s.len();
    let m = needle.len();
    if at > n || m > n - at {
        return false;
    }
    let mut i: usize = 0;
    while i < m
        invariant
            i <= m == needle@.len(),
            at + m <= n == s@.len(),
            s@.subrange(at as int, at + i) == needle@.take(i as int),
        decreases m - i,
    {
        if s[at + i] != needle[i] {
            proof {
                let w = s@.subrange(at as int, at + m);
                assert(w[i as int] == s@[at + i]);
            }
            return false;
        }
        proof {
            assert(s@.subrange(at as int, at + i + 1) == s@.subrange(at as int, at + i).push(
                s@[at + i],
            ));
            assert(needle@.take(i + 1) == needle@.take(i as int).push(needle@[i as int]));
        }
        i += 1;
    }
    proof {
        assert(needle@.take(m as int) == needle@);
    }
    true
}

/// Whether `s` begins with `prefix`.
pub fn starts_with_chars(s: &[char], prefix: &[char]) -> (r: bool)
    ensures
        r == starts_with(s@, prefix@),
{
    match_at(s, prefix, 0)
}

/// Whether `needle` occurs somewhere in `s`.
pub fn contains_chars(s: &[char], needle: &[char]) -> (r: bool)
    ensures
        r == contains(s@, needle@),
{
    let n = s.len();
    let m = needle.len();
    if m > n {
        return false;
    }
    let last = n - m;
    let mut at: usize = 0;
    loop
        invariant
            at <= last == n - m,
            n == s@.len(),
            m == needle@.len(),
            forall|k: int| 0 <= k < at ==> !occurs_at(s@, needle@, k),
        decreases last - at,
    {
        if match_at(s, needle, at) {
            return true;
        }
        if at == last {
            return false;
        }
        at += 1;
    }
}

/// Whether `s` from position `from` on is a non-empty run of decimal digits.
pub fn is_numeral_from(s: &[char], from: usize) -> (r: bool)
    requires
        from <= s@.len(),
    ensures
        r == is_numeral(s@.skip(from as int)),
{
    let n = s.len();
    if from >= n {
        return false;
    }
    let ghost d = s@.skip(from as int);
    let mut i: usize = from;
    while i < n
        invariant
            from <= i <= n == s@.len(),
            d == s@.skip(from as int),
            forall|k: int| 0 <= k < i - from ==> is_digit(#[trigger] d[k]),
        decreases n - i,
    {
        if !char_is_digit(s[i]) {
            assert(d[i - from] == s@[i as int]);
            return false;
        }
        i += 1;
    }
    true
}

/// The `u64` that `s` spells in decimal, if it spells one.
pub fn parse_u64(s: &[char]) -> (r: Option<u64>)
    ensures
        r == u64_of(s@),
{
    let n = s.len();
    let start: usize = if n > 0 && s[0] == '+' {
        1
    } else {
        0
    };
    let ghost d = unsigned_digits(s@);
    proof {
        assert(d == s@.subrange(start as int, n as int));
    }
    if start >= n {
        return None;
    }
    let mut acc: u64 = 0;
    let mut i: usize = start;
    while i < n
        invariant
            start <= i <= n == s@.len(),
            start < n,
            d == unsigned_digits(s@),
            d == s@.subrange(start as int, n as int),
            forall|k: int| 0 <= k < i - start ==> is_digit(#[trigger] d[k]),
            acc == digits_value(d.take(i - start)),
        decreases n - i,
    {
        let c = s[i];
        if !char_is_digit(c) {
            proof {
                assert(d[i - start] == c);
            }
            return None;
        }
        let digit: u64 = (c as u32 - 0x30) as u64;
        proof {
            let next = d.take(i - start + 1);
            assert(next.drop_last() == d.take(i - start));
            assert(next.last() == c);
            lemma_digits_value_prefix(d, i - start + 1);
        }
        if acc > (u64::MAX - digit) / 10 {
            return None;
        }
        acc = acc * 10 + digit;
        i += 1;
    }
    proof {
        assert(d.take(n - start) == d);
    }
    Some(acc)
}

/// The `u32` that `s` spells in decimal, if it spells one.
pub fn parse_u32(s: &[char]) -> (r: Option<u32>)
    ensures
        r == u32_of(s@),
{
    match parse_u64(s) {
        Some(v) => if v <= u32::MAX as u64 {
            Some(v as u32)
        } else {
            None
        },
        None => None,
    }
}

/// The text of one decimal digit.
fn digit_str(d: u64) -> (r: &'static str)
    requires
        d < 10,
    ensures
        r@ == seq![digit_char(d as nat)],
{
    proof {
        reveal_strlit("0");
        reveal_strlit("1");
        reveal_strlit("2");
        reveal_strlit("3");
        reveal_strlit("4");
        reveal_strlit("5");
        reveal_strlit("6");
        reveal_strlit("7");
        reveal_strlit("8");
        reveal_strlit("9");
    }
    let r = if d == 0 {
        "0"
    } else if d == 1 {
        "1"
    } else if d == 2 {
        "2"
    } else if d == 3 {
        "3"
    } else if d == 4 {
        "4"
    } else if d == 5 {
        "5"
    } else if d == 6 {
        "6"
    } else if d == 7 {
        "7"
    } else if d == 8 {
        "8"
    } else {
        "9"
    };
    assert(r@ =~= seq![digit_char(d as nat)]);
    r
}

/// The decimal numeral of `n`, without leading zeros.
pub fn decimal_string(n: u64) -> (r: String)
    ensures
        r@ == decimal(n as nat),
        u64_of(r@) == Some(n),
    decreases n,
{
    proof {
        lemma_decimal_round_trip(n);
    }
    if n < 10 {
        digit_str(n).to_owned()
    } else {
        let mut s = decimal_string(n / 10);
        s.append(digit_str(n % 10));
        s
    }
}

} // verus!
