//! Text helpers: whitespace, trimming, lines, words and decimal numbers.

use vstd::prelude::*;
use vstd::string::*;

verus! {

/// The characters that carry the Unicode `White_Space` property.
pub open spec fn is_space(c: char) -> bool {
    ||| '\u{9}' <= c <= '\u{d}'
    ||| c == ' '
    ||| c == '\u{85}'
    ||| c == '\u{a0}'
    ||| c == '\u{1680}'
    ||| '\u{2000}' <= c <= '\u{200a}'
    ||| c == '\u{2028}'
    ||| c == '\u{2029}'
    ||| c == '\u{202f}'
    ||| c == '\u{205f}'
    ||| c == '\u{3000}'
}

/// Tells whether `c` is a Unicode whitespace character.
pub fn whitespace(c: char) -> (r: bool)
    ensures
        r == is_space(c),
{
    ('\u{9}' <= c && c <= '\u{d}') || c == ' ' || c == '\u{85}' || c == '\u{a0}' || c == '\u{1680}'
        || ('\u{2000}' <= c && c <= '\u{200a}') || c == '\u{2028}' || c == '\u{2029}' || c
        == '\u{202f}' || c == '\u{205f}' || c == '\u{3000}'
}

/// The characters of `s`, in order.
pub fn chars_of(s: &str) -> (r: Vec<char>)
    ensures
        r@ == s@,
{
    let mut r: Vec<char> = Vec::new();
    for c in it: s.chars()
        invariant
            it.seq() == s@,
            r@ == s@.take(it.index() as int),
    {
        r.push(c);
    }
    r
}

/// `s` without the whitespace in front.
pub open spec fn trim_start(s: Seq<char>) -> Seq<char>
    decreases s.len(),
{
    if s.len() > 0 && is_space(s[0]) {
        trim_start(s.skip(1))
    } else {
        s
    }
}

/// `s` without the whitespace at its end.
pub open spec fn trim_end(s: Seq<char>) -> Seq<char>
    decreases s.len(),
{
    if s.len() > 0 && is_space(s.last()) {
        trim_end(s.drop_last())
    } else {
        s
    }
}

/// `s` without the whitespace at either end.
pub open spec fn trimmed(s: Seq<char>) -> Seq<char> {
    trim_end(trim_start(s))
}

/// The first index at which `s` holds `c`, or the length of `s` where it does not.
pub open spec fn position<A>(s: Seq<A>, c: A) -> int
    decreases s.len(),
{
    if s.len() == 0 || s[0] == c {
        0
    } else {
        1 + position(s.skip(1), c)
    }
}

/// Where `position` points: at the first `c`, or past the end.
pub proof fn lemma_position<A>(s: Seq<A>, c: A)
    ensures
        0 <= position(s, c) <= s.len(),
        position(s, c) < s.len() ==> s[position(s, c)] == c,
        forall|j: int| 0 <= j < position(s, c) ==> s[j] != c,
    decreases s.len(),
{
    if s.len() > 0 && s[0] != c {
        lemma_position(s.skip(1), c);
        assert forall|j: int| 0 <= j < position(s, c) implies s[j] != c by {
            if j > 0 {
                assert(s[j] == s.skip(1)[j - 1]);
            }
        }
    }
}

/// `position` is the only index that can be meant.
pub proof fn lemma_position_is<A>(s: Seq<A>, c: A, i: int)
    requires
        0 <= i <= s.len(),
        i < s.len() ==> s[i] == c,
        forall|j: int| 0 <= j < i ==> s[j] != c,
    ensures
        position(s, c) == i,
{
    lemma_position(s, c);
}

/// Finds the first `c` at or behind `from`.
pub fn find_char(s: &Vec<char>, c: char, from: usize) -> (r: usize)
    requires
        from <= s@.len(),
    ensures
        r == from + position(s@.skip(from as int), c),
        from <= r <= s@.len(),
{
    let mut i: usize = from;
    while i < s.len() && s[i] != c
        invariant
            from <= i <= s@.len(),
            forall|j: int| from <= j < i ==> s@[j] != c,
        decreases s@.len() - i,
    {
        i = i + 1;
    }
    proof {
        lemma_position_is(s@.skip(from as int), c, i - from);
    }
    i
}

/// Copies the characters of `s` from `from` up to `to`.
pub fn slice_text(s: &str, from: usize, to: usize) -> (r: String)
    requires
        from <= to <= s@.len(),
    ensures
        r@ == s@.subrange(from as int, to as int),
{
    s.substring_char(from, to).to_owned()
}

proof fn lemma_trim_start_skips(s: Seq<char>, i: int)
    requires
        0 <= i <= s.len(),
        forall|j: int| 0 <= j < i ==> is_space(s[j]),
    ensures
        trim_start(s) == trim_start(s.skip(i)),
    decreases i,
{
    if i == 0 {
        assert(s.skip(0) =~= s);
    } else {
        lemma_trim_start_skips(s.skip(1), i - 1);
        assert(s.skip(1).skip(i - 1) =~= s.skip(i));
    }
}

proof fn lemma_trim_end_drops(s: Seq<char>, i: int)
    requires
        0 <= i <= s.len(),
        forall|j: int| i <= j < s.len() ==> is_space(s[j]),
    ensures
        trim_end(s) == trim_end(s.take(i)),
    decreases s.len() - i,
{
    if i == s.len() {
        assert(s.take(i) =~= s);
    } else {
        lemma_trim_end_drops(s.drop_last(), i);
        assert(s.drop_last().take(i) =~= s.take(i));
    }
}

/// Removes the whitespace at either end of `s`.
pub fn trim(s: &str) -> (r: String)
    ensures
        r@ == trimmed(s@),
{
    let cs = chars_of(s);
    let mut i: usize = 0;
    while i < cs.len() && whitespace(cs[i])
        invariant
            i <= cs@.len(),
            forall|j: int| 0 <= j < i ==> is_space(cs@[j]),
        decreases cs@.len() - i,
    {
        i = i + 1;
    }
    let mut k: usize = cs.len();
    while k > i && whitespace(cs[k - 1])
        invariant
            i <= k <= cs@.len(),
            forall|j: int| k <= j < cs@.len() ==> is_space(cs@[j]),
        decreases k,
    {
        k = k - 1;
    }
    proof {
        lemma_trim_start_skips(cs@, i as int);
        let rest = cs@.skip(i as int);
        lemma_trim_end_drops(rest, k - i);
        assert(rest.take(k - i) =~= cs@.subrange(i as int, k as int));
    }
    slice_text(s, i, k)
}

/// Trimmed text neither starts nor ends with whitespace.
pub proof fn trimmed_has_no_outer_space(s: Seq<char>)
    ensures
        trimmed(s).len() > 0 ==> !is_space(trimmed(s)[0]) && !is_space(trimmed(s).last()),
{
    lemma_trim_start_head(s);
    lemma_trim_end_last(trim_start(s));
}

proof fn lemma_trim_start_head(s: Seq<char>)
    ensures
        trim_start(s).len() > 0 ==> !is_space(trim_start(s)[0]),
    decreases s.len(),
{
    if s.len() > 0 && is_space(s[0]) {
        lemma_trim_start_head(s.skip(1));
    }
}

proof fn lemma_trim_end_last(s: Seq<char>)
    ensures
        trim_end(s).len() > 0 ==> !is_space(trim_end(s).last()) && s.len() > 0 && trim_end(s)[0]
            == s[0],
    decreases s.len(),
{
    if s.len() > 0 && is_space(s.last()) {
        lemma_trim_end_last(s.drop_last());
    }
}

/// The first line of `s` that holds more than whitespace, trimmed.
pub open spec fn first_filled_line(s: Seq<char>) -> Option<Seq<char>>
    decreases s.len(),
{
    let end = position(s, '\n');
    let line = trimmed(s.take(end));
    if line.len() > 0 {
        Some(line)
    } else if 0 <= end < s.len() {
        first_filled_line(s.skip(end + 1))
    } else {
        None
    }
}

/// Finds the first line of `s` that holds more than whitespace, and trims it.
pub fn filled_line(s: &str) -> (r: Option<String>)
    ensures
        match r {
            Some(line) => first_filled_line(s@) == Some(line@),
            None => first_filled_line(s@) is None,
        },
{
    let cs = chars_of(s);
    let mut at: usize = 0;
    assert(s@.skip(0) =~= s@);
    loop
        invariant
            cs@ == s@,
            at <= s@.len(),
            first_filled_line(s@) == first_filled_line(s@.skip(at as int)),
        decreases s@.len() - at,
    {
        let end = find_char(&cs, '\n', at);
        let line = trim(slice_text(s, at, end).as_str());
        assert(s@.skip(at as int).take(end - at) =~= s@.subrange(at as int, end as int));
        if !line.as_str().is_empty() {
            return Some(line);
        }
        if end == cs.len() {
            return None;
        }
        assert(s@.skip(at as int).skip(end - at + 1) =~= s@.skip(end + 1));
        at = end + 1;
    }
}

/// The length of the whitespace-free run that `s` starts with.
pub open spec fn word_len(s: Seq<char>) -> int
    decreases s.len(),
{
    if s.len() == 0 || is_space(s[0]) {
        0
    } else {
        1 + word_len(s.skip(1))
    }
}

/// The word of `s` at index `n`, words being divided by whitespace.
pub open spec fn nth_word(s: Seq<char>, n: nat) -> Option<Seq<char>>
    decreases n,
{
    let rest = trim_start(s);
    if rest.len() == 0 {
        None
    } else if n == 0 {
        Some(rest.take(word_len(rest)))
    } else {
        nth_word(rest.skip(word_len(rest)), (n - 1) as nat)
    }
}

proof fn lemma_word_len(s: Seq<char>, i: int)
    requires
        0 <= i <= s.len(),
        forall|j: int| 0 <= j < i ==> !is_space(s[j]),
        i < s.len() ==> is_space(s[i]),
    ensures
        word_len(s) == i,
    decreases s.len(),
{
    if i > 0 {
        lemma_word_len(s.skip(1), i - 1);
    }
}

/// Finds the word of `s` at index `n`.
pub fn word(s: &str, n: usize) -> (r: Option<String>)
    ensures
        match r {
            Some(w) => nth_word(s@, n as nat) == Some(w@),
            None => nth_word(s@, n as nat) is None,
        },
{
    let cs = chars_of(s);
    let mut at: usize = 0;
    let mut left: usize = n;
    assert(s@.skip(0) =~= s@);
    loop
        invariant
            cs@ == s@,
            at <= s@.len(),
            left <= n,
            nth_word(s@, n as nat) == nth_word(s@.skip(at as int), left as nat),
        decreases left,
    {
        let mut from: usize = at;
        while from < cs.len() && whitespace(cs[from])
            invariant
                at <= from <= cs@.len(),
                forall|j: int| at <= j < from ==> is_space(cs@[j]),
            decreases cs@.len() - from,
        {
            from = from + 1;
        }
        proof {
            lemma_trim_start_skips(s@.skip(at as int), from - at);
            assert(s@.skip(at as int).skip(from - at) =~= s@.skip(from as int));
        }
        if from == cs.len() {
            return None;
        }
        let mut to: usize = from;
        while to < cs.len() && !whitespace(cs[to])
            invariant
                from <= to <= cs@.len(),
                forall|j: int| from <= j < to ==> !is_space(cs@[j]),
            decreases cs@.len() - to,
        {
            to = to + 1;
        }
        let ghost rest = s@.skip(from as int);
        proof {
            assert(trim_start(rest) == rest);
            lemma_word_len(rest, to - from);
            assert(rest.take(to - from) =~= s@.subrange(from as int, to as int));
            assert(rest.skip(to - from) =~= s@.skip(to as int));
        }
        if left == 0 {
            return Some(slice_text(s, from, to));
        }
        at = to;
        left = left - 1;
    }
}

/// Whether `c` is one of the ten ASCII digits.
pub open spec fn is_digit(c: char) -> bool {
    '0' <= c <= '9'
}

/// The number that a run of digits writes down.
pub open spec fn digits_value(s: Seq<char>) -> nat
    decreases s.len(),
{
    if s.len() == 0 {
        0
    } else {
        digits_value(s.drop_last()) * 10 + (s.last() as nat - '0' as nat) as nat
    }
}

/// Whether every character of `s` is a digit.
pub open spec fn all_digits(s: Seq<char>) -> bool {
    forall|i: int| 0 <= i < s.len() ==> is_digit(#[trigger] s[i])
}

/// `s` without a plus sign in front.
pub open spec fn without_plus(s: Seq<char>) -> Seq<char> {
    if s.len() > 0 && s[0] == '+' {
        s.skip(1)
    } else {
        s
    }
}

/// The `u16` that `s` writes down: digits, at least one, with or without a plus sign in
/// front, and no more than a `u16` holds.
pub open spec fn u16_value(s: Seq<char>) -> Option<u16> {
    let digits = without_plus(s);
    if digits.len() > 0 && all_digits(digits) && digits_value(digits) <= u16::MAX {
        Some(digits_value(digits) as u16)
    } else {
        None
    }
}

proof fn lemma_digits_value_grows(s: Seq<char>, i: int)
    requires
        0 <= i <= s.len(),
    ensures
        digits_value(s.take(i)) <= digits_value(s),
    decreases s.len() - i,
{
    if i == s.len() {
        assert(s.take(i) =~= s);
    } else {
        lemma_digits_value_grows(s, i + 1);
        assert(s.take(i + 1).drop_last() =~= s.take(i));
    }
}

/// Reads a `u16` from decimal text.
pub fn parse_u16(s: &str) -> (r: Option<u16>)
    ensures
        r == u16_value(s@),
{
    let cs = chars_of(s);
    let start: usize = if cs.len() > 0 && cs[0] == '+' {
        1
    } else {
        0
    };
    let ghost digits = without_plus(s@);
    assert(digits =~= cs@.skip(start as int));
    if start == cs.len() {
        return None;
    }
    let mut value: u32 = 0;
    let mut i: usize = start;
    assert(digits.take(0) =~= Seq::<char>::empty());
    while i < cs.len()
        invariant
            start <= i <= cs@.len(),
            digits == cs@.skip(start as int),
            value == digits_value(digits.take(i - start)),
            value <= u16::MAX,
            digits == without_plus(s@),
            forall|j: int| 0 <= j < i - start ==> is_digit(#[trigger] digits[j]),
        decreases cs@.len() - i,
    {
        let c = cs[i];
        assert(c == digits[i - start]);
        if c < '0' || c > '9' {
            return None;
        }
        let ghost longer = digits.take(i - start + 1);
        proof {
            assert(longer.drop_last() =~= digits.take(i - start));
            lemma_digits_value_grows(digits, i - start + 1);
        }
        value = value * 10 + (c as u32 - '0' as u32);
        if value > u16::MAX as u32 {
            return None;
        }
        i = i + 1;
    }
    assert(digits.take(i - start) =~= digits);
    Some(value as u16)
}

/// The digit that stands for `d`.
pub open spec fn digit_char(d: nat) -> char {
    (('0' as nat + d) as u32) as char
}

/// `n` in decimal.
pub open spec fn decimal(n: nat) -> Seq<char>
    decreases n,
{
    if n < 10 {
        seq![digit_char(n)]
    } else {
        decimal(n / 10).push(digit_char(n % 10))
    }
}

/// A number in decimal is all digits, and two numbers differ in theirs.
pub proof fn decimals_tell_numbers(n: nat, m: nat)
    ensures
        decimal(n).len() > 0,
        forall|i: int| 0 <= i < decimal(n).len() ==> '0' <= #[trigger] decimal(n)[i] <= '9',
        decimal(n) == decimal(m) ==> n == m,
    decreases n,
{
    if n >= 10 {
        decimals_tell_numbers(n / 10, m / 10);
        if decimal(n) == decimal(m) {
            if m < 10 {
                lemma_decimal_filled(n / 10);
                assert(decimal(n).len() == 1);
            }
            assert(decimal(n).drop_last() =~= decimal(n / 10));
            assert(decimal(m).drop_last() =~= decimal(m / 10));
            assert(decimal(n).last() == digit_char(n % 10));
            assert(decimal(m).last() == digit_char(m % 10));
        }
    } else if decimal(n) == decimal(m) {
        if m >= 10 {
            lemma_decimal_filled(m / 10);
            assert(decimal(m).len() == 1);
        }
        assert(decimal(n)[0] == digit_char(n) && decimal(m)[0] == digit_char(m));
    }
}

proof fn lemma_decimal_filled(n: nat)
    ensures
        decimal(n).len() > 0,
{
}

fn digit_text(d: u64) -> (r: &'static str)
    requires
        d < 10,
    ensures
        r@ == seq![digit_char(d as nat)],
{
    proof {
        reveal_strlit("0");
        reveal_strlit("1");
        reveal_strlit("2");
        reveal_strlit("3");
        reveal_strlit("4");
        reveal_strlit("5");
        reveal_strlit("6");
        reveal_strlit("7");
        reveal_strlit("8");
        reveal_strlit("9");
    }
    let r = match d {
        0 => "0",
        1 => "1",
        2 => "2",
        3 => "3",
        4 => "4",
        5 => "5",
        6 => "6",
        7 => "7",
        8 => "8",
        _ => "9",
    };
    assert(r@ =~= seq![digit_char(d as nat)]);
    r
}

/// Writes `n` in decimal.
pub fn decimal_text(n: u64) -> (r: String)
    ensures
        r@ == decimal(n as nat),
    decreases n,
{
    let mut r = if n < 10 {
        String::new()
    } else {
        decimal_text(n / 10)
    };
    let ghost before = r@;
    r.append(digit_text(n % 10));
    assert(r@ =~= before.push(digit_char((n % 10) as nat)));
    r
}

/// Whether two texts are the same, character by character.
pub fn same_text(a: &str, b: &str) -> (r: bool)
    ensures
        r == (a@ == b@),
{
    let left = chars_of(a);
    let right = chars_of(b);
    if left.len() != right.len() {
        return false;
    }
    let mut i: usize = 0;
    while i < left.len()
        invariant
            left@ == a@,
            right@ == b@,
            left@.len() == right@.len(),
            i <= left@.len(),
            forall|j: int| 0 <= j < i ==> left@[j] == right@[j],
        decreases left@.len() - i,
    {
        if left[i] != right[i] {
            return false;
        }
        i = i + 1;
    }
    assert(a@ =~= b@);
    true
}

/// Copies text.
pub fn copy_text(s: &str) -> (r: String)
    ensures
        r@ == s@,
{
    s.to_owned()
}

/// The texts that a list of strings holds.
pub open spec fn text_views(texts: Seq<String>) -> Seq<Seq<char>> {
    Seq::new(texts.len(), |i: int| texts[i]@)
}

/// Copies a list of strings.
pub fn copy_texts(texts: &Vec<String>) -> (r: Vec<String>)
    ensures
        text_views(r@) == text_views(texts@),
{
    let mut r: Vec<String> = Vec::new();
    let mut i: usize = 0;
    while i < texts.len()
        invariant
            i <= texts@.len(),
            r@.len() == i,
            forall|j: int| 0 <= j < i ==> (#[trigger] r@[j])@ == texts@[j]@,
        decreases texts@.len() - i,
    {
        r.push(copy_text(texts[i].as_str()));
        i = i + 1;
    }
    assert(text_views(r@) =~= text_views(texts@));
    r
}

/// The text of an optional string.
pub open spec fn optional_text(s: Option<String>) -> Option<Seq<char>> {
    match s {
        Some(text) => Some(text@),
        None => None,
    }
}

/// Copies an optional string.
pub fn copy_optional(s: &Option<String>) -> (r: Option<String>)
    ensures
        optional_text(r) == optional_text(*s),
{
    match s {
        Some(text) => Some(copy_text(text.as_str())),
        None => None,
    }
}

/// The last index at which `s` holds `c`, or -1 where it does not.
pub open spec fn last_position(s: Seq<char>, c: char) -> int
    decreases s.len(),
{
    if s.len() == 0 {
        -1
    } else if s.last() == c {
        s.len() - 1
    } else {
        last_position(s.drop_last(), c)
    }
}

proof fn lemma_last_position(s: Seq<char>, c: char)
    ensures
        -1 <= last_position(s, c) < s.len(),
        last_position(s, c) >= 0 ==> s[last_position(s, c)] == c,
        forall|j: int| last_position(s, c) < j < s.len() ==> s[j] != c,
    decreases s.len(),
{
    if s.len() > 0 && s.last() != c {
        let front = s.drop_last();
        lemma_last_position(front, c);
        assert forall|j: int| last_position(s, c) < j < s.len() implies s[j] != c by {
            if j < front.len() {
                assert(front[j] == s[j]);
            }
        }
    }
}

/// Finds the last `c` of `s`.
pub fn find_last(s: &Vec<char>, c: char) -> (r: Option<usize>)
    ensures
        match r {
            Some(i) => i < s@.len() && last_position(s@, c) == i,
            None => last_position(s@, c) == -1,
        },
{
    let mut i: usize = s.len();
    while i > 0
        invariant
            i <= s@.len(),
            forall|j: int| i <= j < s@.len() ==> s@[j] != c,
        decreases i,
    {
        if s[i - 1] == c {
            proof {
                lemma_last_position(s@, c);
            }
            return Some(i - 1);
        }
        i = i - 1;
    }
    proof {
        lemma_last_position(s@, c);
    }
    None
}

/// A text takes four times as many bytes as it has characters at most.
pub proof fn encoding_adds_little(s: Seq<char>)
    ensures
        vstd::utf8::encode_utf8(s).len() <= 4 * s.len(),
    decreases s.len(),
{
    if s.len() > 0 {
        encoding_adds_little(s.drop_first());
    }
}

/// A text between quotes, as its `Debug` output shows it.
pub uninterp spec fn debug_quoted(s: Seq<char>) -> Seq<char>;

/// Formats a text with `{:?}`, that is by the `Debug` of `str`. Trusted: what comes out
/// depends on the text alone. Which characters are escaped, and how, stays unsaid here.
#[verifier::external_body]
pub(crate) fn quote_debug(s: &str) -> (r: String)
    ensures
        r@ == debug_quoted(s@),
{
    format!("{s:?}")
}

/// What `String::from_utf8_lossy` makes of bytes.
pub uninterp spec fn utf8_lossy(bytes: Seq<u8>) -> Seq<char>;

/// Calls `std::str::from_utf8`. Trusted: bytes that are UTF-8 give the text that they
/// encode, and no others give any.
#[verifier::external_body]
pub(crate) fn text_of_utf8(bytes: &[u8]) -> (r: Option<String>)
    ensures
        match r {
            Some(s) => vstd::utf8::valid_utf8(bytes@) && s@ == vstd::utf8::decode_utf8(bytes@),
            None => !vstd::utf8::valid_utf8(bytes@),
        },
{
    match std::str::from_utf8(bytes) {
        Ok(s) => Some(s.to_owned()),
        Err(_) => None,
    }
}

/// Calls `String::from_utf8_lossy`. Trusted: the text depends on the bytes alone, and is
/// the one that they encode where they are UTF-8.
#[verifier::external_body]
pub(crate) fn text_of_bytes(bytes: &[u8]) -> (r: String)
    ensures
        r@ == utf8_lossy(bytes@),
        vstd::utf8::valid_utf8(bytes@) ==> r@ == vstd::utf8::decode_utf8(bytes@),
{
    String::from_utf8_lossy(bytes).into_owned()
}

/// A number below ten is written by the digit that it is, and ten times a number and some more
/// by the number's digits with one more behind them.
pub proof fn decimals_are_positional(n: nat, d: nat)
    requires
        d < 10,
    ensures
        decimal(d).len() == 1,
        decimal(d)[0] as int == 48 + d,
        n > 0 ==> decimal(10 * n + d).drop_last() == decimal(n),
        n > 0 ==> decimal(10 * n + d).last() as int == 48 + d,
{
    if n > 0 {
        assert((10 * n + d) / 10 == n);
        assert((10 * n + d) % 10 == d);
        assert(decimal(10 * n + d).drop_last() =~= decimal(n));
    }
}

/// The whitespace characters are these and no others.
pub proof fn spaces_are_the_unicode_ones(c: char)
    ensures
        is_space(c) <==> {
            ||| 9 <= c as u32 <= 13
            ||| c as u32 == 32
            ||| c as u32 == 133
            ||| c as u32 == 160
            ||| c as u32 == 5760
            ||| 8192 <= c as u32 <= 8202
            ||| c as u32 == 8232
            ||| c as u32 == 8233
            ||| c as u32 == 8239
            ||| c as u32 == 8287
            ||| c as u32 == 12288
        },
{
}

/// Trimming a text with whitespace around it gives the text, whatever it holds in between.
pub proof fn trimming_removes_outer_space(lead: Seq<char>, core: Seq<char>, trail: Seq<char>)
    requires
        forall|i: int| 0 <= i < lead.len() ==> is_space(#[trigger] lead[i]),
        forall|i: int| 0 <= i < trail.len() ==> is_space(#[trigger] trail[i]),
        core.len() > 0 ==> !is_space(core[0]) && !is_space(core.last()),
    ensures
        trimmed(lead + core + trail) == core,
{
    let s = lead + core + trail;
    if core.len() > 0 {
        assert forall|j: int| 0 <= j < lead.len() implies is_space(s[j]) by {
            assert(s[j] == lead[j]);
        }
        lemma_trim_start_skips(s, lead.len() as int);
        let rest = s.skip(lead.len() as int);
        assert(rest =~= core + trail);
        assert(trim_start(rest) == rest);
        assert forall|j: int| core.len() <= j < rest.len() implies is_space(rest[j]) by {
            assert(rest[j] == trail[j - core.len()]);
        }
        lemma_trim_end_drops(rest, core.len() as int);
        assert(rest.take(core.len() as int) =~= core);
        assert(trim_end(core) == core);
    } else {
        assert forall|j: int| 0 <= j < s.len() implies is_space(s[j]) by {
            if j < lead.len() {
                assert(s[j] == lead[j]);
            } else {
                assert(s[j] == trail[j - lead.len()]);
            }
        }
        lemma_trim_start_skips(s, s.len() as int);
        assert(s.skip(s.len() as int) =~= core);
        assert(trim_start(core) == core && trim_end(core) == core);
    }
}

/// What trimming leaves stands in the text as it is, and all around it is whitespace.
pub proof fn trimmed_text_stands_in_the_text(s: Seq<char>) -> (i: int)
    ensures
        0 <= i <= i + trimmed(s).len() <= s.len(),
        s.subrange(i, i + trimmed(s).len()) == trimmed(s),
        forall|j: int| 0 <= j < i || i + trimmed(s).len() <= j < s.len() ==> is_space(
            #[trigger] s[j],
        ),
{
    let i = lemma_trim_start_at(s);
    let rest = trim_start(s);
    lemma_trim_end_at(rest);
    let t = trimmed(s);
    assert(s.subrange(i, i + t.len()) =~= t) by {
        assert forall|k: int| 0 <= k < t.len() implies s[i + k] == t[k] by {
            assert(rest[k] == t[k]);
            assert(rest[k] == s.skip(i)[k]);
        }
    }
    assert forall|j: int| 0 <= j < i || i + t.len() <= j < s.len() implies is_space(
        #[trigger] s[j],
    ) by {
        if j >= i {
            assert(rest[j - i] == s[j]);
        }
    }
    i
}

proof fn lemma_trim_start_at(s: Seq<char>) -> (i: int)
    ensures
        0 <= i <= s.len(),
        trim_start(s) == s.skip(i),
        forall|j: int| 0 <= j < i ==> is_space(#[trigger] s[j]),
    decreases s.len(),
{
    if s.len() > 0 && is_space(s[0]) {
        let k = lemma_trim_start_at(s.skip(1));
        assert(s.skip(1).skip(k) =~= s.skip(k + 1));
        assert forall|j: int| 0 <= j < k + 1 implies is_space(#[trigger] s[j]) by {
            if j > 0 {
                assert(s.skip(1)[j - 1] == s[j]);
            }
        }
        k + 1
    } else {
        assert(s.skip(0) =~= s);
        0
    }
}

proof fn lemma_trim_end_at(s: Seq<char>)
    ensures
        trim_end(s).len() <= s.len(),
        trim_end(s) == s.take(trim_end(s).len() as int),
        forall|j: int| trim_end(s).len() <= j < s.len() ==> is_space(#[trigger] s[j]),
    decreases s.len(),
{
    if s.len() > 0 && is_space(s.last()) {
        let front = s.drop_last();
        lemma_trim_end_at(front);
        assert(front.take(trim_end(s).len() as int) =~= s.take(trim_end(s).len() as int));
        assert forall|j: int| trim_end(s).len() <= j < s.len() implies is_space(#[trigger] s[j]) by {
            if j < front.len() {
                assert(front[j] == s[j]);
            }
        }
    } else {
        assert(s.take(s.len() as int) =~= s);
    }
}

/// The first filled line of a text is its first line, trimmed, where that is filled, and
/// otherwise the first filled line of what follows.
pub proof fn filled_lines_are_taken_in_order(line: Seq<char>, rest: Seq<char>)
    requires
        !line.contains('\n'),
    ensures
        trimmed(line).len() > 0 ==> first_filled_line(line) == Some(trimmed(line)),
        trimmed(line).len() == 0 ==> first_filled_line(line) is None,
        trimmed(line).len() > 0 ==> first_filled_line(line.push('\n') + rest) == Some(
            trimmed(line),
        ),
        trimmed(line).len() == 0 ==> first_filled_line(line.push('\n') + rest)
            == first_filled_line(rest),
{
    assert forall|j: int| 0 <= j < line.len() implies line[j] != '\n' by {
        assert(line.contains(line[j]));
    }
    lemma_position_is(line, '\n', line.len() as int);
    assert(line.take(line.len() as int) =~= line);
    let s = line.push('\n') + rest;
    assert forall|j: int| 0 <= j < line.len() implies s[j] != '\n' by {
        assert(s[j] == line[j]);
    }
    assert(s[line.len() as int] == '\n');
    lemma_position_is(s, '\n', line.len() as int);
    assert(s.take(line.len() as int) =~= line);
    assert(s.skip(line.len() as int + 1) =~= rest);
}

/// Words are runs without whitespace, counted from the front.
pub proof fn words_are_counted(lead: Seq<char>, first: Seq<char>, rest: Seq<char>, n: nat)
    requires
        forall|i: int| 0 <= i < lead.len() ==> is_space(#[trigger] lead[i]),
        first.len() > 0,
        forall|i: int| 0 <= i < first.len() ==> !is_space(#[trigger] first[i]),
        rest.len() > 0 ==> is_space(rest[0]),
    ensures
        nth_word(lead, n) is None,
        nth_word(lead + first + rest, 0) == Some(first),
        nth_word(lead + first + rest, n + 1) == nth_word(rest, n),
{
    let s = lead + first + rest;
    lemma_trim_start_skips(lead, lead.len() as int);
    assert(lead.skip(lead.len() as int) =~= Seq::empty());
    assert(trim_start(Seq::<char>::empty()) == Seq::<char>::empty());
    assert forall|j: int| 0 <= j < lead.len() implies is_space(s[j]) by {
        assert(s[j] == lead[j]);
    }
    lemma_trim_start_skips(s, lead.len() as int);
    let tail = s.skip(lead.len() as int);
    assert(tail =~= first + rest);
    assert(trim_start(tail) == tail);
    assert forall|j: int| 0 <= j < first.len() implies !is_space(tail[j]) by {
        assert(tail[j] == first[j]);
    }
    lemma_word_len(tail, first.len() as int);
    assert(tail.take(first.len() as int) =~= first);
    assert(tail.skip(first.len() as int) =~= rest);
}

/// A number that fits 16 bits is read back from its digits, with or without a plus sign in
/// front; a larger one, and what holds anything but digits, is no such number.
pub proof fn small_numbers_are_read_back(n: nat, s: Seq<char>, i: int)
    requires
        0 <= i < s.len(),
        !('0' <= s[i] <= '9'),
        i > 0 || s[i] != '+' || s.len() == 1,
    ensures
        n <= 65_535 ==> u16_value(decimal(n)) == Some(n as u16),
        n <= 65_535 ==> u16_value(seq!['+'] + decimal(n)) == Some(n as u16),
        n > 65_535 ==> u16_value(decimal(n)) is None,
        u16_value(s) is None,
        u16_value(Seq::empty()) is None,
{
    lemma_digits_of_decimal(n);
    decimals_tell_numbers(n, 0);
    let plain = decimal(n);
    let signed = seq!['+'] + plain;
    assert('0' <= plain[0] <= '9');
    assert(without_plus(plain) == plain);
    assert(without_plus(signed) =~= plain);
    assert(all_digits(plain)) by {
        assert forall|k: int| 0 <= k < plain.len() implies is_digit(#[trigger] plain[k]) by {
            assert('0' <= decimal(n)[k] <= '9');
        }
    }
    let digits = without_plus(s);
    if digits.len() > 0 {
        if s[0] == '+' {
            assert(digits[i - 1] == s[i]);
            assert(!is_digit(digits[i - 1]));
        } else {
            assert(!is_digit(digits[i]));
        }
    }
}

/// Zeros in front of a number change nothing.
pub proof fn leading_zeros_change_nothing(s: Seq<char>)
    requires
        s.len() > 0,
        forall|i: int| 0 <= i < s.len() ==> '0' <= #[trigger] s[i] <= '9',
    ensures
        u16_value(seq!['0'] + s) == u16_value(s),
        u16_value(seq!['+'] + s) == u16_value(s),
{
    let signed = seq!['+'] + s;
    assert(signed[0] == '+' && signed.skip(1) =~= s);
    let longer = seq!['0'] + s;
    assert('0' <= s[0] <= '9');
    assert(without_plus(longer) == longer && without_plus(s) == s);
    assert(all_digits(longer)) by {
        assert forall|k: int| 0 <= k < longer.len() implies is_digit(#[trigger] longer[k]) by {
            if k > 0 {
                assert(longer[k] == s[k - 1]);
            }
        }
    }
    assert(all_digits(s));
    lemma_zero_in_front(s);
}

proof fn lemma_zero_in_front(s: Seq<char>)
    ensures
        digits_value(seq!['0'] + s) == digits_value(s),
    decreases s.len(),
{
    let longer = seq!['0'] + s;
    if s.len() == 0 {
        assert(longer.drop_last() =~= Seq::empty());
        assert(digits_value(longer.drop_last()) == 0);
    } else {
        assert(longer.drop_last() =~= seq!['0'] + s.drop_last());
        lemma_zero_in_front(s.drop_last());
    }
}

proof fn lemma_digits_of_decimal(n: nat)
    ensures
        digits_value(decimal(n)) == n,
    decreases n,
{
    let s = decimal(n);
    if n < 10 {
        assert(s.drop_last() =~= Seq::empty());
        assert(digits_value(s.drop_last()) == 0);
    } else {
        lemma_digits_of_decimal(n / 10);
        assert(s.drop_last() =~= decimal(n / 10));
        assert(n == 10 * (n / 10) + n % 10);
    }
}

/// The last place of a character is a place where it stands, with none behind it.
pub proof fn last_positions_are_last(s: Seq<char>, c: char, i: int)
    requires
        -1 <= i < s.len(),
        i >= 0 ==> s[i] == c,
        forall|j: int| i < j < s.len() ==> s[j] != c,
    ensures
        last_position(s, c) == i,
{
    lemma_last_position(s, c);
}

/// A text that is there is told as it is, and one that is not as none.
pub proof fn optional_texts_are_told(s: Option<String>)
    ensures
        s is Some ==> optional_text(s) == Some(s->0@),
        s is None ==> optional_text(s) is None,
{
}

/// A list of strings holds the text of each, in its place.
pub proof fn listed_texts_are_told(texts: Seq<String>)
    ensures
        text_views(texts).len() == texts.len(),
        forall|i: int| 0 <= i < texts.len() ==> #[trigger] text_views(texts)[i] == texts[i]@,
{
}

} // verus!
