//! Character-level text utilities: the model of a string is its sequence of
//! characters, and every function here is specified over that sequence.

use vstd::prelude::*;
use vstd::std_specs::iter::IteratorSpec;
use vstd::string::*;

verus! {

/// Reads the characters of `s` into a vector.
pub fn chars_of(s: &str) -> (v: Vec<char>)
    ensures
        v@ == s@,
{
    broadcast use group_string_axioms;

    let mut it = s.chars();
    let mut v: Vec<char> = Vec::new();
    loop
        invariant
            it.obeys_prophetic_iter_laws(),
            it.decrease() is Some,
            v@ + it.remaining() == s@,
        ensures
            v@ == s@,
        decreases it.decrease()->0,
    {
        let ghost before = it.remaining();
        match it.next() {
            Some(c) => {
                v.push(c);
                assert(v@ + it.remaining() =~= (v@.drop_last() + before));
            },
            None => {
                assert(v@ + it.remaining() =~= v@);
                break ;
            },
        }
    }
    v
}

/// The decimal digit for `d`, where `0 <= d <= 9`.
pub open spec fn digit_char(d: int) -> char {
    if d == 0 {
        '0'
    } else if d == 1 {
        '1'
    } else if d == 2 {
        '2'
    } else if d == 3 {
        '3'
    } else if d == 4 {
        '4'
    } else if d == 5 {
        '5'
    } else if d == 6 {
        '6'
    } else if d == 7 {
        '7'
    } else if d == 8 {
        '8'
    } else {
        '9'
    }
}

/// The decimal numeral of `n`, without sign or leading zeros.
pub open spec fn decimal(n: nat) -> Seq<char>
    decreases n,
{
    if n < 10 {
        seq![digit_char(n as int)]
    } else {
        decimal(n / 10).push(digit_char((n % 10) as int))
    }
}

/// Whether `c` is one of the ten ASCII digits.
pub open spec fn is_digit(c: char) -> bool {
    '0' <= c && c <= '9'
}

/// The value of the ASCII digit `c`.
pub open spec fn digit_value(c: char) -> int {
    c as int - '0' as int
}

/// Whether every character of `s` is an ASCII digit.
pub open spec fn all_digits(s: Seq<char>) -> bool {
    forall|i: int| 0 <= i < s.len() ==> is_digit(#[trigger] s[i])
}

fn digit_str(d: u8) -> (r: &'static str)
    requires
        d <= 9,
    ensures
        r@ == seq![digit_char(d as int)],
{
    proof {
        reveal_strlit("0");
        reveal_strlit("1");
        reveal_strlit("2");
        reveal_strlit("3");
        reveal_strlit("4");
        reveal_strlit("5");
        reveal_strlit("6");
        reveal_strlit("7");
        reveal_strlit("8");
        reveal_strlit("9");
    }
    let r = if d == 0 {
        "0"
    } else if d == 1 {
        "1"
    } else if d == 2 {
        "2"
    } else if d == 3 {
        "3"
    } else if d == 4 {
        "4"
    } else if d == 5 {
        "5"
    } else if d == 6 {
        "6"
    } else if d == 7 {
        "7"
    } else if d == 8 {
        "8"
    } else {
        "9"
    };
    assert(r@ =~= seq![digit_char(d as int)]);
    r
}

/// Appends the decimal numeral of `n` to `out`.
pub fn push_decimal(out: &mut String, n: u64)
    ensures
        final(out)@ == old(out)@ + decimal(n as nat),
    decreases n,
{
    if n >= 10 {
        push_decimal(out, n / 10);
    }
    let d: u8 = (n % 10) as u8;
    out.append(digit_str(d));
    assert(out@ =~= old(out)@ + decimal(n as nat));
}

/// The decimal numeral of `n` as a string.
pub fn decimal_string(n: u64) -> (r: String)
    ensures
        r@ == decimal(n as nat),
{
    let mut r = String::new();
    push_decimal(&mut r, n);
    assert(r@ =~= decimal(n as nat));
    r
}

/// Whether `c` is white space: the characters with the Unicode property
/// `White_Space`, which are the ones that trimming removes.
pub open spec fn is_whitespace(c: char) -> bool {
    let u = c as u32;
    (0x09 <= u && u <= 0x0D) || u == 0x20 || u == 0x85 || u == 0xA0 || u == 0x1680 || (0x2000 <= u
        && u <= 0x200A) || u == 0x2028 || u == 0x2029 || u == 0x202F || u == 0x205F || u
        == 0x3000
}

/// Decides [`is_whitespace`].
pub fn is_space(c: char) -> (b: bool)
    ensures
        b == is_whitespace(c),
{
    let u: u32 = c as u32;
    (0x09 <= u && u <= 0x0D) || u == 0x20 || u == 0x85 || u == 0xA0 || u == 0x1680 || (0x2000 <= u
        && u <= 0x200A) || u == 0x2028 || u == 0x2029 || u == 0x202F || u == 0x205F || u
        == 0x3000
}

/// The first index from `from` on at which `s` holds no white space, or the
/// length of `s` where only white space follows.
pub open spec fn skip_whitespace(s: Seq<char>, from: int) -> int
    decreases s.len() - from,
{
    if 0 <= from < s.len() && is_whitespace(s[from]) {
        skip_whitespace(s, from + 1)
    } else {
        from
    }
}

/// The length of `s` without the white space at its end.
pub open spec fn trimmed_end(s: Seq<char>) -> int
    decreases s.len(),
{
    if s.len() > 0 && is_whitespace(s.last()) {
        trimmed_end(s.drop_last())
    } else {
        s.len() as int
    }
}

/// `s` without the white space at its start.
pub open spec fn trim_start(s: Seq<char>) -> Seq<char> {
    s.subrange(skip_whitespace(s, 0), s.len() as int)
}

/// `s` without the white space at its start and at its end.
pub open spec fn trim(s: Seq<char>) -> Seq<char> {
    trim_start(s.subrange(0, trimmed_end(s)))
}

/// Computes [`skip_whitespace`] on the first `len` characters of `cs`.
pub fn skip_spaces(cs: &Vec<char>, from: usize, len: usize) -> (r: usize)
    requires
        from <= len <= cs.len(),
    ensures
        r == skip_whitespace(cs@.subrange(0, len as int), from as int),
        from <= r <= len,
{
    let mut i = from;
    while i < len && is_space(cs[i])
        invariant
            from <= i <= len <= cs.len(),
            skip_whitespace(cs@.subrange(0, len as int), i as int) == skip_whitespace(
                cs@.subrange(0, len as int),
                from as int,
            ),
        decreases len - i,
    {
        i = i + 1;
    }
    i
}

/// Computes [`trimmed_end`] on the first `len` characters of `cs`.
pub fn trim_end_len(cs: &Vec<char>, len: usize) -> (r: usize)
    requires
        len <= cs.len(),
    ensures
        r == trimmed_end(cs@.subrange(0, len as int)),
        r <= len,
{
    let mut n = len;
    while n > 0 && is_space(cs[n - 1])
        invariant
            n <= len <= cs.len(),
            trimmed_end(cs@.subrange(0, n as int)) == trimmed_end(cs@.subrange(0, len as int)),
        decreases n,
    {
        assert(cs@.subrange(0, n as int).drop_last() =~= cs@.subrange(0, n - 1));
        n = n - 1;
    }
    n
}

/// Whether `pat` stands in `s` at index `i`.
pub open spec fn matches_at(s: Seq<char>, pat: Seq<char>, i: int) -> bool {
    0 <= i && i + pat.len() <= s.len() && s.subrange(i, i + pat.len()) == pat
}

/// The first index from `from` on at which `pat` stands in `s`.
pub open spec fn first_match(s: Seq<char>, pat: Seq<char>, from: int) -> Option<int>
    decreases s.len() + 1 - from,
{
    if from < 0 || from + pat.len() > s.len() {
        None
    } else if matches_at(s, pat, from) {
        Some(from)
    } else {
        first_match(s, pat, from + 1)
    }
}

/// Whether `pat` occurs somewhere in `s`.
pub open spec fn contains_text(s: Seq<char>, pat: Seq<char>) -> bool {
    first_match(s, pat, 0) is Some
}

/// Whether `s` begins with `pat`.
pub open spec fn starts_with(s: Seq<char>, pat: Seq<char>) -> bool {
    matches_at(s, pat, 0)
}

/// [`first_match`] finds an occurrence, the earliest one, exactly when there is one.
pub proof fn lemma_first_match(s: Seq<char>, pat: Seq<char>, from: int)
    requires
        0 <= from,
    ensures
        match first_match(s, pat, from) {
            Some(k) => {
                &&& from <= k
                &&& matches_at(s, pat, k)
                &&& forall|j: int| from <= j < k ==> !matches_at(s, pat, j)
            },
            None => forall|j: int| from <= j ==> !matches_at(s, pat, j),
        },
    decreases s.len() + 1 - from,
{
    if from + pat.len() > s.len() {
    } else if matches_at(s, pat, from) {
    } else {
        lemma_first_match(s, pat, from + 1);
    }
}

/// A one-character pattern stands where that character stands.
pub proof fn lemma_matches_char(s: Seq<char>, c: char, i: int)
    ensures
        matches_at(s, seq![c], i) <==> (0 <= i < s.len() && s[i] == c),
{
    if 0 <= i < s.len() {
        if s[i] == c {
            assert(s.subrange(i, i + 1) =~= seq![c]);
        } else {
            if s.subrange(i, i + 1) == seq![c] {
                assert(s.subrange(i, i + 1)[0] == c);
            }
        }
    }
}

/// Decides [`matches_at`].
pub fn has_at(cs: &Vec<char>, pat: &Vec<char>, i: usize) -> (b: bool)
    ensures
        b == matches_at(cs@, pat@, i as int),
{
    if pat.len() > cs.len() || i > cs.len() - pat.len() {
        return false;
    }
    let mut k: usize = 0;
    while k < pat.len()
        invariant
            k <= pat.len(),
            i + pat.len() <= cs.len(),
            cs@.subrange(i as int, i + k) == pat@.subrange(0, k as int),
        decreases pat.len() - k,
    {
        if cs[i + k] != pat[k] {
            proof {
                let window = cs@.subrange(i as int, i + pat.len());
                assert(window[k as int] == cs@[i + k]);
                assert(window != pat@);
            }
            return false;
        }
        assert(cs@.subrange(i as int, i + k + 1) =~= cs@.subrange(i as int, i + k).push(
            cs@[i + k],
        ));
        assert(pat@.subrange(0, k + 1) =~= pat@.subrange(0, k as int).push(pat@[k as int]));
        k = k + 1;
    }
    assert(pat@.subrange(0, pat.len() as int) =~= pat@);
    true
}

/// Computes [`first_match`].
pub fn find(cs: &Vec<char>, pat: &Vec<char>, from: usize) -> (r: Option<usize>)
    ensures
        match r {
            Some(k) => first_match(cs@, pat@, from as int) == Some(k as int) && from <= k && k
                + pat.len() <= cs.len(),
            None => first_match(cs@, pat@, from as int) is None,
        },
{
    if pat.len() > cs.len() {
        return None;
    }
    let last = cs.len() - pat.len();
    if from > last {
        return None;
    }
    let mut i = from;
    loop
        invariant
            from <= i <= last,
            last == cs.len() - pat.len(),
            first_match(cs@, pat@, i as int) == first_match(cs@, pat@, from as int),
        decreases last - i,
    {
        if has_at(cs, pat, i) {
            return Some(i);
        }
        if i == last {
            assert(first_match(cs@, pat@, i + 1) is None);
            return None;
        }
        i = i + 1;
    }
}

/// Computes [`first_match`] for the one-character pattern `c`.
pub fn find_char(cs: &Vec<char>, c: char, from: usize) -> (r: Option<usize>)
    ensures
        match r {
            Some(k) => first_match(cs@, seq![c], from as int) == Some(k as int) && from <= k
                < cs.len() && cs@[k as int] == c,
            None => first_match(cs@, seq![c], from as int) is None,
        },
{
    let mut i = from;
    while i < cs.len()
        invariant
            from <= i,
            first_match(cs@, seq![c], i as int) == first_match(cs@, seq![c], from as int),
        decreases cs.len() - i,
    {
        proof {
            lemma_matches_char(cs@, c, i as int);
        }
        if cs[i] == c {
            return Some(i);
        }
        i = i + 1;
    }
    None
}

/// `String::push` of the standard library appends the one character to the
/// string, as its documentation says.
pub assume_specification[ String::push ](s: &mut String, c: char)
    ensures
        final(s)@ == old(s)@.push(c),
;

/// Appends the characters `cs[from..to]` to `out`.
pub fn push_chars(out: &mut String, cs: &Vec<char>, from: usize, to: usize)
    requires
        from <= to <= cs.len(),
    ensures
        final(out)@ == old(out)@ + cs@.subrange(from as int, to as int),
{
    let mut i = from;
    while i < to
        invariant
            from <= i <= to <= cs.len(),
            out@ == old(out)@ + cs@.subrange(from as int, i as int),
        decreases to - i,
    {
        out.push(cs[i]);
        assert(cs@.subrange(from as int, i + 1) =~= cs@.subrange(from as int, i as int).push(
            cs@[i as int],
        ));
        assert(out@ =~= old(out)@ + cs@.subrange(from as int, i + 1));
        i = i + 1;
    }
}

/// The string of the characters `cs[from..to]`.
pub fn string_from(cs: &Vec<char>, from: usize, to: usize) -> (r: String)
    requires
        from <= to <= cs.len(),
    ensures
        r@ == cs@.subrange(from as int, to as int),
{
    let mut r = String::new();
    push_chars(&mut r, cs, from, to);
    assert(r@ =~= cs@.subrange(from as int, to as int));
    r
}

/// Why a text is not the numeral of a `u32`.
#[derive(Debug, Clone, Copy, PartialEq, Eq, Structural)]
pub enum NumberError {
    /// The text is empty.
    Empty,
    /// A character is not a digit, or a sign stands alone.
    InvalidDigit,
    /// The number is greater than `u32::MAX`.
    TooLarge,
}

/// The number that a string of ASCII digits denotes; 0 for the empty string.
pub open spec fn number_of(s: Seq<char>) -> nat
    decreases s.len(),
{
    if s.len() == 0 {
        0
    } else {
        (number_of(s.drop_last()) * 10 + digit_value(s.last())) as nat
    }
}

/// The index of the first character of `s` from `i` on that is no digit, or
/// the length of `s` where only digits follow.
pub open spec fn digits_end(s: Seq<char>, i: int) -> int
    decreases s.len() - i,
{
    if 0 <= i < s.len() && is_digit(s[i]) {
        digits_end(s, i + 1)
    } else {
        i
    }
}

/// `s` without a `+` at its start.
pub open spec fn unsigned_part(s: Seq<char>) -> Seq<char> {
    if s.len() > 0 && s[0] == '+' {
        s.subrange(1, s.len() as int)
    } else {
        s
    }
}

/// The `u32` that `s` denotes: an optional `+`, then one or more digits
/// whose number is at most `u32::MAX`.
///
/// Where `s` denotes none, the error says why, as the standard library
/// does: the digits at the start of the unsigned part are read first, so a
/// number that is too large is reported even if something that is no digit
/// follows it.
pub open spec fn parse_u32(s: Seq<char>) -> Result<u32, NumberError> {
    let d = unsigned_part(s);
    let k = digits_end(d, 0);
    if s.len() == 0 {
        Err(NumberError::Empty)
    } else if d.len() == 0 {
        Err(NumberError::InvalidDigit)
    } else if number_of(d.subrange(0, k)) > u32::MAX {
        Err(NumberError::TooLarge)
    } else if k < d.len() {
        Err(NumberError::InvalidDigit)
    } else {
        Ok(number_of(d) as u32)
    }
}

/// Where the digits end: behind the digits, at the first character that is none.
pub proof fn lemma_digits_end(s: Seq<char>, i: int, end: int)
    requires
        0 <= i <= end <= s.len(),
        forall|j: int| i <= j < end ==> is_digit(#[trigger] s[j]),
        end < s.len() ==> !is_digit(s[end]),
    ensures
        digits_end(s, i) == end,
    decreases end - i,
{
    if i < end {
        lemma_digits_end(s, i + 1, end);
    }
}

/// Where the digits end lies within the text, and only digits stand before it.
pub proof fn lemma_digits_end_bounds(s: Seq<char>, i: int)
    requires
        0 <= i <= s.len(),
    ensures
        i <= digits_end(s, i) <= s.len(),
        forall|j: int| i <= j < digits_end(s, i) ==> is_digit(#[trigger] s[j]),
    decreases s.len() - i,
{
    if i < s.len() && is_digit(s[i]) {
        lemma_digits_end_bounds(s, i + 1);
    }
}

/// More digits never denote a smaller number.
pub proof fn lemma_number_of_grows(s: Seq<char>, a: int, b: int)
    requires
        0 <= a <= b <= s.len(),
        forall|j: int| 0 <= j < b ==> is_digit(#[trigger] s[j]),
    ensures
        number_of(s.subrange(0, a)) <= number_of(s.subrange(0, b)),
    decreases b - a,
{
    if a < b {
        lemma_number_of_grows(s, a, b - 1);
        let longer = s.subrange(0, b);
        assert(longer.drop_last() =~= s.subrange(0, b - 1));
        assert(is_digit(s[b - 1]));
        assert(longer.last() == s[b - 1]);
    }
}

/// Computes [`parse_u32`] on the characters `cs[from..to]`.
pub fn parse_u32_at(cs: &Vec<char>, from: usize, to: usize) -> (r: Result<u32, NumberError>)
    requires
        from <= to <= cs.len(),
    ensures
        r == parse_u32(cs@.subrange(from as int, to as int)),
{
    let ghost s = cs@.subrange(from as int, to as int);
    if from == to {
        return Err(NumberError::Empty);
    }
    let start: usize = if cs[from] == '+' { from + 1 } else { from };
    let ghost d = unsigned_part(s);
    assert(d =~= cs@.subrange(start as int, to as int));
    if start == to {
        return Err(NumberError::InvalidDigit);
    }
    let mut acc: u64 = 0;
    let mut i = start;
    assert(d.subrange(0, 0) =~= Seq::<char>::empty());
    while i < to
        invariant
            from <= start <= i <= to <= cs.len(),
            start < to,
            s == cs@.subrange(from as int, to as int),
            s.len() > 0,
            d == unsigned_part(s),
            d == cs@.subrange(start as int, to as int),
            forall|j: int| 0 <= j < i - start ==> is_digit(#[trigger] d[j]),
            acc == number_of(d.subrange(0, i - start)),
            acc <= u32::MAX,
        decreases to - i,
    {
        let c = cs[i];
        assert(d[i - start] == c);
        if !('0' <= c && c <= '9') {
            proof {
                lemma_digits_end(d, 0, i - start);
            }
            return Err(NumberError::InvalidDigit);
        }
        let digit: u64 = (c as u32 - '0' as u32) as u64;
        let next: u64 = acc * 10 + digit;
        proof {
            let longer = d.subrange(0, i - start + 1);
            assert(longer.drop_last() =~= d.subrange(0, i - start));
            assert(longer.last() == c);
            assert(next == number_of(longer));
        }
        if next > u32::MAX as u64 {
            proof {
                lemma_digits_end_bounds(d, 0);
                let end = digits_end(d, 0);
                if end < i - start + 1 {
                    assert(is_digit(d[end]));
                    lemma_digits_end_after(d, 0, end);
                }
                lemma_number_of_grows(d, i - start + 1, end);
            }
            return Err(NumberError::TooLarge);
        }
        acc = next;
        i = i + 1;
    }
    proof {
        lemma_digits_end(d, 0, d.len() as int);
        assert(d.subrange(0, d.len() as int) =~= d);
    }
    Ok(acc as u32)
}

/// Where the digits end, no digit stands.
pub proof fn lemma_digits_end_after(s: Seq<char>, from: int, i: int)
    requires
        0 <= from <= i < s.len(),
        digits_end(s, from) == i,
    ensures
        !is_digit(s[i]),
    decreases i - from,
{
    if from < i {
        if is_digit(s[from]) {
            lemma_digits_end_after(s, from + 1, i);
        }
    } else if is_digit(s[i]) {
        lemma_digits_end_bounds(s, i + 1);
    }
}

/// `line` without one carriage return at its end.
pub open spec fn strip_cr(line: Seq<char>) -> Seq<char> {
    if line.len() > 0 && line.last() == '\r' {
        line.drop_last()
    } else {
        line
    }
}

/// The index of the first line feed of `s` from `from` on, or the length of
/// `s` where there is none.
pub open spec fn line_end(s: Seq<char>, from: int) -> int
    decreases s.len() - from,
{
    if from < 0 || from >= s.len() {
        s.len() as int
    } else if s[from] == '\n' {
        from
    } else {
        line_end(s, from + 1)
    }
}

/// The lines of `s` from index `from` on. A line ends at a line feed, which
/// is not part of it, nor is a carriage return just before it; what follows
/// the last line feed is a line of its own unless it is empty.
pub open spec fn lines_from(s: Seq<char>, from: int) -> Seq<Seq<char>>
    decreases s.len() - from,
{
    if from < 0 || from >= s.len() {
        Seq::empty()
    } else {
        let end = line_end(s, from);
        if end >= s.len() {
            seq![s.subrange(from, s.len() as int)]
        } else if end < from {
            Seq::empty()
        } else {
            seq![strip_cr(s.subrange(from, end))] + lines_from(s, end + 1)
        }
    }
}

/// The lines of the text `s`.
pub open spec fn lines_of(s: Seq<char>) -> Seq<Seq<char>> {
    lines_from(s, 0)
}

/// A line ends at or after the place where it starts.
pub proof fn lemma_line_end_bounds(s: Seq<char>, from: int)
    requires
        0 <= from <= s.len(),
    ensures
        from <= line_end(s, from) <= s.len(),
        line_end(s, from) < s.len() ==> s[line_end(s, from)] == '\n',
        forall|j: int| from <= j < line_end(s, from) ==> s[j] != '\n',
    decreases s.len() - from,
{
    if from < s.len() && s[from] != '\n' {
        lemma_line_end_bounds(s, from + 1);
    }
}

/// A text has at most as many lines as characters.
pub proof fn lemma_lines_count(s: Seq<char>, from: int)
    requires
        0 <= from <= s.len(),
    ensures
        lines_from(s, from).len() <= s.len() - from,
    decreases s.len() - from,
{
    if from < s.len() {
        lemma_line_end_bounds(s, from);
        let end = line_end(s, from);
        if end < s.len() {
            lemma_lines_count(s, end + 1);
        }
    }
}

/// The texts of a vector of strings.
pub open spec fn texts(v: Seq<String>) -> Seq<Seq<char>> {
    Seq::new(v.len(), |i: int| v[i]@)
}

/// Splits `content` into its lines.
pub fn split_lines(content: &str) -> (lines: Vec<String>)
    ensures
        texts(lines@) == lines_of(content@),
{
    let cs = chars_of(content);
    let mut lines: Vec<String> = Vec::new();
    let mut from: usize = 0;
    while from < cs.len()
        invariant
            from <= cs.len(),
            cs@ == content@,
            texts(lines@) + lines_from(cs@, from as int) == lines_of(content@),
        decreases cs.len() - from,
    {
        let ghost before = texts(lines@);
        proof {
            lemma_line_end_bounds(cs@, from as int);
        }
        let mut end = from;
        while end < cs.len() && cs[end] != '\n'
            invariant
                from <= end <= cs.len(),
                line_end(cs@, end as int) == line_end(cs@, from as int),
            decreases cs.len() - end,
        {
            end = end + 1;
        }
        if end >= cs.len() {
            let line = string_from(&cs, from, cs.len());
            lines.push(line);
            assert(texts(lines@) =~= before + seq![cs@.subrange(from as int, cs.len() as int)]);
            assert(lines_from(cs@, cs.len() as int) =~= Seq::<Seq<char>>::empty());
            from = cs.len();
        } else {
            let stop = if end > from && cs[end - 1] == '\r' { end - 1 } else { end };
            let line = string_from(&cs, from, stop);
            assert(cs@.subrange(from as int, stop as int) =~= strip_cr(
                cs@.subrange(from as int, end as int),
            ));
            lines.push(line);
            assert(texts(lines@) =~= before + seq![
                strip_cr(cs@.subrange(from as int, end as int)),
            ]);
            from = end + 1;
        }
    }
    assert(lines_from(cs@, from as int) =~= Seq::<Seq<char>>::empty());
    assert(texts(lines@) + Seq::<Seq<char>>::empty() =~= texts(lines@));
    lines
}

/// The characters `cs[from..to]` as a vector of their own.
pub fn slice_chars(cs: &Vec<char>, from: usize, to: usize) -> (r: Vec<char>)
    requires
        from <= to <= cs.len(),
    ensures
        r@ == cs@.subrange(from as int, to as int),
{
    let mut r: Vec<char> = Vec::new();
    let mut i = from;
    while i < to
        invariant
            from <= i <= to <= cs.len(),
            r@ == cs@.subrange(from as int, i as int),
        decreases to - i,
    {
        r.push(cs[i]);
        assert(r@ =~= cs@.subrange(from as int, i + 1));
        i = i + 1;
    }
    assert(r@ =~= cs@.subrange(from as int, to as int));
    r
}

/// Computes [`trim`] of the characters `cs[from..to]`.
pub fn trim_chars(cs: &Vec<char>, from: usize, to: usize) -> (r: Vec<char>)
    requires
        from <= to <= cs.len(),
    ensures
        r@ == trim(cs@.subrange(from as int, to as int)),
{
    let part = slice_chars(cs, from, to);
    assert(part@.subrange(0, part.len() as int) =~= part@);
    let end = trim_end_len(&part, part.len());
    let start = skip_spaces(&part, 0, end);
    let r = slice_chars(&part, start, end);
    proof {
        let kept = part@.subrange(0, end as int);
        assert(kept.subrange(start as int, kept.len() as int) =~= part@.subrange(
            start as int,
            end as int,
        ));
    }
    r
}

/// Computes [`trim_start`] of the characters `cs[from..to]`.
pub fn trim_start_chars(cs: &Vec<char>, from: usize, to: usize) -> (r: Vec<char>)
    requires
        from <= to <= cs.len(),
    ensures
        r@ == trim_start(cs@.subrange(from as int, to as int)),
{
    let part = slice_chars(cs, from, to);
    assert(part@.subrange(0, part.len() as int) =~= part@);
    let start = skip_spaces(&part, 0, part.len());
    slice_chars(&part, start, part.len())
}

/// The string of all the characters of `cs`.
pub fn string_of(cs: &Vec<char>) -> (r: String)
    ensures
        r@ == cs@,
{
    let r = string_from(cs, 0, cs.len());
    assert(cs@.subrange(0, cs.len() as int) =~= cs@);
    r
}

/// The text of an optional string.
pub open spec fn option_text(s: Option<String>) -> Option<Seq<char>> {
    match s {
        Some(s) => Some(s@),
        None => None,
    }
}

/// The text of an optional string slice.
pub open spec fn text_or_none(s: Option<&str>) -> Option<Seq<char>> {
    match s {
        Some(s) => Some(s@),
        None => None,
    }
}

/// The upper-case form of a text by the rules of Unicode, as `str::to_uppercase` gives it.
pub uninterp spec fn uppercase(s: Seq<char>) -> Seq<char>;

/// The lower-case form of a text by the rules of Unicode, as `str::to_lowercase` gives it.
pub uninterp spec fn lowercase(s: Seq<char>) -> Seq<char>;

/// `str::to_uppercase` of the standard library returns the upper-case
/// form of the text; the form depends on the text alone.
pub assume_specification[ str::to_uppercase ](s: &str) -> (r: String)
    ensures
        r@ == uppercase(s@),
;

/// `str::to_lowercase` of the standard library returns the lower-case
/// form of the text; the form depends on the text alone.
pub assume_specification[ str::to_lowercase ](s: &str) -> (r: String)
    ensures
        r@ == lowercase(s@),
;

} // verus!
