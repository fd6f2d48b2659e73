//! Text helpers: strings as sequences of characters.

use vstd::prelude::*;
use vstd::string::*;
use vstd::utf8::*;

verus! {

/// Whether two strings hold the same characters.
pub fn str_eq(a: &str, b: &str) -> (same: bool)
    ensures
        same == (a@ == b@),
{
    let left = a.as_bytes();
    let right = b.as_bytes();
    proof {
        encode_utf8_decode_utf8(a@);
        encode_utf8_decode_utf8(b@);
    }
    if left.len() != right.len() {
        return false;
    }
    let mut i: usize = 0;
    while i < left.len()
        invariant
            i <= left@.len(),
            left@.len() == right@.len(),
            forall|j: int| 0 <= j < i ==> left@[j] == right@[j],
            left@ == encode_utf8(a@),
            right@ == encode_utf8(b@),
            decode_utf8(encode_utf8(a@)) == a@,
            decode_utf8(encode_utf8(b@)) == b@,
        decreases left@.len() - i,
    {
        if left[i] != right[i] {
            return false;
        }
        i += 1;
    }
    assert(left@ =~= right@);
    true
}

/// The characters of `s`, in order.
pub fn chars_of(s: &str) -> (chars: Vec<char>)
    ensures
        chars@ == s@,
{
    let mut chars: Vec<char> = Vec::new();
    for c in it: s.chars()
        invariant
            it.seq() == s@,
            chars@ == it.seq().take(it.index() as int),
    {
        chars.push(c);
    }
    chars
}

/// Whether `c` is white space: one of the characters that Unicode marks as
/// `White_Space`.
pub open spec fn is_space(c: char) -> bool {
    let u = c as u32;
    ||| 0x09 <= u <= 0x0D
    ||| u == 0x20
    ||| u == 0x85
    ||| u == 0xA0
    ||| u == 0x1680
    ||| 0x2000 <= u <= 0x200A
    ||| u == 0x2028
    ||| u == 0x2029
    ||| u == 0x202F
    ||| u == 0x205F
    ||| u == 0x3000
}

/// Whether `c` is white space.
pub fn is_whitespace(c: char) -> (space: bool)
    ensures
        space == is_space(c),
{
    let u: u32 = c as u32;
    (0x09 <= u && u <= 0x0D) || u == 0x20 || u == 0x85 || u == 0xA0 || u == 0x1680 || (0x2000 <= u
        && u <= 0x200A) || u == 0x2028 || u == 0x2029 || u == 0x202F || u == 0x205F || u == 0x3000
}

/// The first place at or after `i` that holds no white space; the length of
/// `s` if there is none.
pub open spec fn skip_spaces(s: Seq<char>, i: int) -> int
    decreases s.len() - i,
{
    if 0 <= i < s.len() && is_space(s[i]) {
        skip_spaces(s, i + 1)
    } else {
        i
    }
}

/// The first place at or after `i` that holds white space; the length of `s`
/// if there is none.
pub open spec fn skip_word(s: Seq<char>, i: int) -> int
    decreases s.len() - i,
{
    if 0 <= i < s.len() && !is_space(s[i]) {
        skip_word(s, i + 1)
    } else {
        i
    }
}

/// Where the run of characters that `skip_spaces` and `skip_word` pass over
/// ends, and what it holds.
pub proof fn lemma_skip(s: Seq<char>, i: int)
    requires
        0 <= i <= s.len(),
    ensures
        i <= skip_spaces(s, i) <= s.len(),
        forall|j: int| i <= j < skip_spaces(s, i) ==> is_space(#[trigger] s[j]),
        skip_spaces(s, i) < s.len() ==> !is_space(s[skip_spaces(s, i)]),
        i <= skip_word(s, i) <= s.len(),
        forall|j: int| i <= j < skip_word(s, i) ==> !is_space(#[trigger] s[j]),
        skip_word(s, i) < s.len() ==> is_space(s[skip_word(s, i)]),
    decreases s.len() - i,
{
    if i < s.len() {
        lemma_skip(s, i + 1);
    }
}

/// The words of `s` from place `i` on: the maximal runs of characters that
/// are not white space, in order.
pub open spec fn words_from(s: Seq<char>, i: int) -> Seq<Seq<char>>
    decreases s.len() - i,
    when 0 <= i
    via words_from_decreases
{
    let start = skip_spaces(s, i);
    if start >= s.len() {
        Seq::empty()
    } else {
        let end = skip_word(s, start);
        seq![s.subrange(start, end)] + words_from(s, end)
    }
}

#[via_fn]
proof fn words_from_decreases(s: Seq<char>, i: int) {
    if 0 <= i <= s.len() {
        lemma_skip(s, i);
        let start = skip_spaces(s, i);
        if start < s.len() {
            lemma_skip(s, start);
        }
    }
}

/// The words of `s`.
pub open spec fn words(s: Seq<char>) -> Seq<Seq<char>> {
    words_from(s, 0)
}

/// No word is empty, and no word holds white space.
pub proof fn lemma_words_hold_no_space(s: Seq<char>, i: int)
    requires
        0 <= i <= s.len(),
    ensures
        forall|k: int|
            0 <= k < words_from(s, i).len() ==> {
                let word = #[trigger] words_from(s, i)[k];
                &&& word.len() > 0
                &&& forall|j: int| 0 <= j < word.len() ==> !is_space(#[trigger] word[j])
            },
    decreases s.len() - i,
{
    lemma_skip(s, i);
    let start = skip_spaces(s, i);
    if start < s.len() {
        lemma_skip(s, start);
        let end = skip_word(s, start);
        lemma_words_hold_no_space(s, end);
        let first = s.subrange(start, end);
        assert forall|k: int| 0 <= k < words_from(s, i).len() implies {
            let word = #[trigger] words_from(s, i)[k];
            &&& word.len() > 0
            &&& forall|j: int| 0 <= j < word.len() ==> !is_space(#[trigger] word[j])
        } by {
            if k == 0 {
                assert(words_from(s, i)[0] == first);
                assert forall|j: int| 0 <= j < first.len() implies !is_space(
                    #[trigger] first[j],
                ) by {
                    assert(first[j] == s[start + j]);
                }
            } else {
                assert(words_from(s, i)[k] == words_from(s, end)[k - 1]);
            }
        }
    }
}

/// The pieces of `s` that `ranges` mark out, in order. A range is a pair of
/// places, the first character's and the one after the last.
pub open spec fn spelled(s: Seq<char>, ranges: Seq<(usize, usize)>) -> Seq<Seq<char>> {
    Seq::new(ranges.len(), |k: int| s.subrange(ranges[k].0 as int, ranges[k].1 as int))
}

/// Whether every range lies within a text of `len` characters.
pub open spec fn ranges_within(ranges: Seq<(usize, usize)>, len: nat) -> bool {
    forall|k: int| 0 <= k < ranges.len() ==> (#[trigger] ranges[k]).0 <= ranges[k].1 <= len
}

/// Where the words of `chars` from place `from` on lie.
pub fn word_ranges(chars: &Vec<char>, from: usize) -> (ranges: Vec<(usize, usize)>)
    requires
        from <= chars@.len(),
    ensures
        ranges_within(ranges@, chars@.len()),
        spelled(chars@, ranges@) == words_from(chars@, from as int),
{
    let n = chars.len();
    let mut ranges: Vec<(usize, usize)> = Vec::new();
    let mut i: usize = from;
    assert(spelled(chars@, ranges@) + words_from(chars@, i as int) =~= words_from(
        chars@,
        from as int,
    ));
    while i < n
        invariant
            n == chars@.len(),
            from <= i <= n,
            ranges_within(ranges@, chars@.len()),
            spelled(chars@, ranges@) + words_from(chars@, i as int) == words_from(
                chars@,
                from as int,
            ),
        decreases n - i,
    {
        let ghost entry = i as int;
        while i < n && is_whitespace(chars[i])
            invariant
                n == chars@.len(),
                entry <= i <= n,
                skip_spaces(chars@, i as int) == skip_spaces(chars@, entry),
            decreases n - i,
        {
            i += 1;
        }
        if i < n {
            let start = i;
            i += 1;
            while i < n && !is_whitespace(chars[i])
                invariant
                    n == chars@.len(),
                    start < i <= n,
                    !is_space(chars@[start as int]),
                    skip_word(chars@, i as int) == skip_word(chars@, start as int),
                decreases n - i,
            {
                i += 1;
            }
            let ghost before = ranges@;
            ranges.push((start, i));
            proof {
                assert(skip_spaces(chars@, entry) == start);
                assert(skip_word(chars@, start as int) == i);
                assert(words_from(chars@, entry) == seq![chars@.subrange(start as int, i as int)]
                    + words_from(chars@, i as int));
                assert(spelled(chars@, ranges@) =~= spelled(chars@, before) + seq![
                    chars@.subrange(start as int, i as int),
                ]);
                assert(spelled(chars@, ranges@) + words_from(chars@, i as int) =~= spelled(
                    chars@,
                    before,
                ) + words_from(chars@, entry));
            }
        } else {
            assert(skip_spaces(chars@, entry) == n);
            assert(words_from(chars@, entry) =~= Seq::<Seq<char>>::empty());
            assert(words_from(chars@, i as int) =~= Seq::<Seq<char>>::empty());
        }
    }
    assert(words_from(chars@, i as int) =~= Seq::<Seq<char>>::empty());
    assert(spelled(chars@, ranges@) + Seq::<Seq<char>>::empty() =~= spelled(chars@, ranges@));
    ranges
}

/// The place after the last character before `n` that is not white space;
/// 0 if there is none.
pub open spec fn trim_end(s: Seq<char>, n: int) -> int
    decreases n,
{
    if 0 < n <= s.len() && is_space(s[n - 1]) {
        trim_end(s, n - 1)
    } else {
        n
    }
}

/// `s` without the white space at its two ends.
pub open spec fn trimmed(s: Seq<char>) -> Seq<char> {
    let start = skip_spaces(s, 0);
    let end = trim_end(s, s.len() as int);
    if start < end {
        s.subrange(start, end)
    } else {
        Seq::empty()
    }
}

/// Where `chars` without the white space at its two ends lies.
pub fn trim_range(chars: &Vec<char>) -> (range: (usize, usize))
    ensures
        range.0 <= range.1 <= chars@.len(),
        chars@.subrange(range.0 as int, range.1 as int) == trimmed(chars@),
{
    let n = chars.len();
    let mut start: usize = 0;
    while start < n && is_whitespace(chars[start])
        invariant
            n == chars@.len(),
            start <= n,
            skip_spaces(chars@, start as int) == skip_spaces(chars@, 0),
        decreases n - start,
    {
        start += 1;
    }
    let mut end: usize = n;
    while end > start && is_whitespace(chars[end - 1])
        invariant
            n == chars@.len(),
            start <= end <= n,
            trim_end(chars@, end as int) == trim_end(chars@, n as int),
        decreases end,
    {
        end -= 1;
    }
    proof {
        let s = chars@;
        assert(skip_spaces(s, 0) == start);
        if end > start {
            assert(trim_end(s, n as int) == end);
        } else {
            lemma_trim_end_bound(s, end as int);
            assert(s.subrange(start as int, end as int) =~= Seq::<char>::empty());
        }
    }
    (start, end)
}

/// `trim_end` never lies behind the place that it starts from.
proof fn lemma_trim_end_bound(s: Seq<char>, n: int)
    requires
        0 <= n <= s.len(),
    ensures
        0 <= trim_end(s, n) <= n,
    decreases n,
{
    if 0 < n && is_space(s[n - 1]) {
        lemma_trim_end_bound(s, n - 1);
    }
}

/// Whether `c` is one of the ten decimal digits.
pub open spec fn is_digit(c: char) -> bool {
    '0' <= c <= '9'
}

/// The number that the digit `c` stands for.
pub open spec fn digit_value(c: char) -> nat {
    (c as u32 - '0' as u32) as nat
}

/// The digit that stands for `d`, for `d` below ten.
pub open spec fn digit_char(d: nat) -> char {
    (d + '0' as u32) as char
}

/// Whether `s` holds decimal digits only.
pub open spec fn all_digits(s: Seq<char>) -> bool {
    forall|i: int| 0 <= i < s.len() ==> is_digit(#[trigger] s[i])
}

/// The number that the digits of `s` spell in base ten.
pub open spec fn decimal_value(s: Seq<char>) -> nat
    decreases s.len(),
{
    if s.len() == 0 {
        0
    } else {
        10 * decimal_value(s.drop_last()) + digit_value(s.last())
    }
}

/// What `s` reads as a `u32`: an optional plus sign and then one or more
/// decimal digits, nothing else, whose value a `u32` can hold.
pub open spec fn parsed_u32(s: Seq<char>) -> Option<u32> {
    let digits = if s.len() > 0 && s[0] == '+' {
        s.skip(1)
    } else {
        s
    };
    if digits.len() > 0 && all_digits(digits) && decimal_value(digits) <= u32::MAX {
        Some(decimal_value(digits) as u32)
    } else {
        None
    }
}

/// A text of digits spells at least what any of its beginnings spells.
pub proof fn lemma_decimal_value_grows(s: Seq<char>, k: int)
    requires
        0 <= k <= s.len(),
        all_digits(s),
    ensures
        decimal_value(s.take(k)) <= decimal_value(s),
    decreases s.len(),
{
    if k == s.len() {
        assert(s.take(k) =~= s);
    } else {
        assert(all_digits(s.drop_last()));
        lemma_decimal_value_grows(s.drop_last(), k);
        assert(s.drop_last().take(k) =~= s.take(k));
    }
}

/// Reads the characters of `chars` from `from` up to `to` as a `u32`.
pub fn parse_u32(chars: &Vec<char>, from: usize, to: usize) -> (value: Option<u32>)
    requires
        from <= to <= chars@.len(),
    ensures
        value == parsed_u32(chars@.subrange(from as int, to as int)),
{
    let ghost s = chars@.subrange(from as int, to as int);
    let mut i: usize = from;
    if i < to && chars[i] == '+' {
        i += 1;
    }
    let first = i;
    let ghost digits = chars@.subrange(first as int, to as int);
    assert(digits =~= if s.len() > 0 && s[0] == '+' {
        s.skip(1)
    } else {
        s
    });
    if i == to {
        return None;
    }
    let mut value: u32 = 0;
    assert(digits.take(0) =~= Seq::<char>::empty());
    while i < to
        invariant
            first <= i <= to <= chars@.len(),
            first < to,
            s == chars@.subrange(from as int, to as int),
            digits == chars@.subrange(first as int, to as int),
            digits == if s.len() > 0 && s[0] == '+' {
                s.skip(1)
            } else {
                s
            },
            all_digits(digits.take(i - first)),
            value == decimal_value(digits.take(i - first)),
        decreases to - i,
    {
        let c = chars[i];
        if !('0' <= c && c <= '9') {
            assert(!is_digit(digits[i - first]));
            return None;
        }
        let d: u32 = c as u32 - '0' as u32;
        proof {
            let next = digits.take(i - first + 1);
            assert(next.drop_last() =~= digits.take(i - first));
            assert(next.last() == c);
            assert(all_digits(next));
            assert(decimal_value(next) == 10 * value + d);
            if 10 * value + d > u32::MAX {
                if all_digits(digits) {
                    lemma_decimal_value_grows(digits, i - first + 1);
                }
            }
        }
        if value > (u32::MAX - d) / 10 {
            return None;
        }
        value = value * 10 + d;
        i += 1;
    }
    assert(digits.take(i - first) =~= digits);
    Some(value)
}

/// The decimal numeral of `n`, without leading zeros.
pub open spec fn decimal(n: nat) -> Seq<char>
    decreases n,
{
    if n < 10 {
        seq![digit_char(n)]
    } else {
        decimal(n / 10).push(digit_char(n % 10))
    }
}

/// A numeral reads back as its number: the decimal numeral of `n` holds
/// digits only, starts with no sign, and spells `n`.
pub proof fn lemma_decimal_reads_back(n: nat)
    ensures
        decimal(n).len() > 0,
        all_digits(decimal(n)),
        decimal_value(decimal(n)) == n,
        n <= u32::MAX ==> parsed_u32(decimal(n)) == Some(n as u32),
    decreases n,
{
    if n < 10 {
        assert(decimal(n).drop_last() =~= Seq::<char>::empty());
        assert(decimal_value(decimal(n).drop_last()) == 0);
    } else {
        lemma_decimal_reads_back(n / 10);
        assert(decimal(n).drop_last() =~= decimal(n / 10));
    }
    assert(decimal(n)[0] != '+');
}

/// The one-character text of the digit `d`.
fn digit_text(d: u32) -> (text: &'static str)
    requires
        d < 10,
    ensures
        text@ == seq![digit_char(d as nat)],
{
    proof {
        reveal_strlit("0");
        reveal_strlit("1");
        reveal_strlit("2");
        reveal_strlit("3");
        reveal_strlit("4");
        reveal_strlit("5");
        reveal_strlit("6");
        reveal_strlit("7");
        reveal_strlit("8");
        reveal_strlit("9");
    }
    let text = if d == 0 {
        "0"
    } else if d == 1 {
        "1"
    } else if d == 2 {
        "2"
    } else if d == 3 {
        "3"
    } else if d == 4 {
        "4"
    } else if d == 5 {
        "5"
    } else if d == 6 {
        "6"
    } else if d == 7 {
        "7"
    } else if d == 8 {
        "8"
    } else {
        "9"
    };
    assert(text@ =~= seq![digit_char(d as nat)]);
    text
}

/// Writes the decimal numeral of `n` behind what `out` holds.
pub fn push_decimal(out: &mut String, n: u32)
    ensures
        final(out)@ == old(out)@ + decimal(n as nat),
    decreases n,
{
    if n >= 10 {
        push_decimal(out, n / 10);
    }
    out.append(digit_text(n % 10));
    assert(out@ =~= old(out)@ + decimal(n as nat));
}

/// Whether `needle` stands in `haystack` at place `i`.
pub open spec fn occurs_at(haystack: Seq<char>, needle: Seq<char>, i: int) -> bool {
    &&& 0 <= i
    &&& i + needle.len() <= haystack.len()
    &&& haystack.subrange(i, i + needle.len()) == needle
}

/// Whether `needle` stands somewhere in `haystack`, character for character.
pub open spec fn has_substring(haystack: Seq<char>, needle: Seq<char>) -> bool {
    exists|i: int| occurs_at(haystack, needle, i)
}

/// Whether `needle` stands in `haystack` at place `at`.
fn matches_at(haystack: &Vec<char>, needle: &Vec<char>, at: usize) -> (found: bool)
    requires
        at + needle@.len() <= haystack@.len(),
    ensures
        found == occurs_at(haystack@, needle@, at as int),
{
    let m = needle.len();
    let n = haystack.len();
    let mut j: usize = 0;
    while j < m
        invariant
            m == needle@.len(),
            n == haystack@.len(),
            j <= m,
            at + m <= n,
            forall|k: int| 0 <= k < j ==> haystack@[at + k] == needle@[k],
        decreases m - j,
    {
        if haystack[at + j] != needle[j] {
            assert(haystack@.subrange(at as int, at + m)[j as int] != needle@[j as int]);
            return false;
        }
        j += 1;
    }
    assert(haystack@.subrange(at as int, at + m) =~= needle@);
    true
}

/// Whether `needle` stands somewhere in `haystack`.
pub fn contains_chars(haystack: &Vec<char>, needle: &Vec<char>) -> (found: bool)
    ensures
        found == has_substring(haystack@, needle@),
{
    let n = haystack.len();
    let m = needle.len();
    if m > n {
        return false;
    }
    if m == 0 {
        assert(occurs_at(haystack@, needle@, 0)) by {
            assert(haystack@.subrange(0, 0) =~= needle@);
        }
        return true;
    }
    let mut i: usize = 0;
    while i <= n - m
        invariant
            n == haystack@.len(),
            m == needle@.len(),
            0 < m <= n,
            i <= n - m + 1,
            forall|k: int| 0 <= k < i ==> !occurs_at(haystack@, needle@, k),
        decreases n - m + 1 - i,
    {
        if matches_at(haystack, needle, i) {
            return true;
        }
        i += 1;
    }
    false
}

/// Whether the text `needle` stands somewhere in the text `haystack`.
pub fn contains(haystack: &str, needle: &str) -> (found: bool)
    ensures
        found == has_substring(haystack@, needle@),
{
    let h = chars_of(haystack);
    let n = chars_of(needle);
    contains_chars(&h, &n)
}

/// The last place before `n` at which `s` holds `c`.
pub open spec fn last_index_below(s: Seq<char>, c: char, n: int) -> Option<int>
    decreases n,
{
    if n <= 0 || n > s.len() {
        None
    } else if s[n - 1] == c {
        Some(n - 1)
    } else {
        last_index_below(s, c, n - 1)
    }
}

/// The last place at which `s` holds `c`.
pub open spec fn last_index_of(s: Seq<char>, c: char) -> Option<int> {
    last_index_below(s, c, s.len() as int)
}

/// What `last_index_of` finds is the last occurrence, and it finds one
/// wherever there is one.
pub proof fn lemma_last_index_of(s: Seq<char>, c: char, n: int)
    requires
        0 <= n <= s.len(),
    ensures
        match last_index_below(s, c, n) {
            Some(i) => 0 <= i < n && s[i] == c && forall|j: int| i < j < n ==> s[j] != c,
            None => forall|j: int| 0 <= j < n ==> s[j] != c,
        },
    decreases n,
{
    if n > 0 && s[n - 1] != c {
        lemma_last_index_of(s, c, n - 1);
    }
}

/// The last place at which `chars` holds `c`.
pub fn rfind_char(chars: &Vec<char>, c: char) -> (found: Option<usize>)
    ensures
        match found {
            Some(i) => last_index_of(chars@, c) == Some(i as int) && i < chars@.len(),
            None => last_index_of(chars@, c) is None,
        },
{
    let mut n: usize = chars.len();
    while n > 0
        invariant
            n <= chars@.len(),
            last_index_of(chars@, c) == last_index_below(chars@, c, n as int),
        decreases n,
    {
        if chars[n - 1] == c {
            return Some(n - 1);
        }
        n -= 1;
    }
    None
}

/// The texts of `parts`, one after the other, with a single blank between
/// each two.
pub open spec fn joined(parts: Seq<Seq<char>>) -> Seq<char>
    decreases parts.len(),
{
    if parts.len() == 0 {
        Seq::empty()
    } else if parts.len() == 1 {
        parts[0]
    } else {
        joined(parts.drop_last()) + seq![' '] + parts.last()
    }
}

/// The pieces of `text` that `ranges` mark out from the one at `first` on,
/// with a single blank between each two.
pub fn join_ranges(text: &str, ranges: &Vec<(usize, usize)>, first: usize) -> (line: String)
    requires
        first <= ranges@.len(),
        ranges_within(ranges@, text@.len()),
    ensures
        line@ == joined(spelled(text@, ranges@).skip(first as int)),
{
    let ghost parts = spelled(text@, ranges@).skip(first as int);
    let mut line = String::new();
    let mut k: usize = first;
    assert(parts.take(0) =~= Seq::<Seq<char>>::empty());
    while k < ranges.len()
        invariant
            first <= k <= ranges@.len(),
            ranges_within(ranges@, text@.len()),
            parts == spelled(text@, ranges@).skip(first as int),
            line@ == joined(parts.take(k - first)),
        decreases ranges@.len() - k,
    {
        let (from, to) = ranges[k];
        let ghost before = line@;
        if k > first {
            line.append(" ");
            proof {
                reveal_strlit(" ");
                assert(" "@ =~= seq![' ']);
            }
        }
        line.append(text.substring_char(from, to));
        proof {
            let next = parts.take(k - first + 1);
            assert(next.drop_last() =~= parts.take(k - first));
            assert(next.last() == text@.subrange(from as int, to as int));
            if k == first {
                assert(before =~= Seq::<char>::empty());
                assert(line@ =~= next[0]);
            }
        }
        k += 1;
    }
    assert(parts.take(k - first) =~= parts);
    line
}

} // verus!
