//! Character-level helpers shared by the comment parsers and the option
//! validation: whitespace, comment padding, prefixes, splitting and decimal
//! numbers, each stated over the `Seq<char>` view of a string.

use vstd::prelude::*;

verus! {

/// Unicode `White_Space`, the set that `char::is_whitespace` tests for.
pub open spec fn spec_is_whitespace(c: char) -> bool {
    let n = c as u32;
    ||| 0x09 <= n <= 0x0d
    ||| n == 0x20
    ||| n == 0x85
    ||| n == 0xa0
    ||| n == 0x1680
    ||| 0x2000 <= n <= 0x200a
    ||| n == 0x2028
    ||| n == 0x2029
    ||| n == 0x202f
    ||| n == 0x205f
    ||| n == 0x3000
}

/// Whether `c` is a Unicode whitespace character.
pub fn is_whitespace(c: char) -> (b: bool)
    ensures
        b == spec_is_whitespace(c),
{
    let n = c as u32;
    (0x09 <= n && n <= 0x0d) || n == 0x20 || n == 0x85 || n == 0xa0 || n == 0x1680 || (0x2000
        <= n && n <= 0x200a) || n == 0x2028 || n == 0x2029 || n == 0x202f || n == 0x205f || n
        == 0x3000
}

/// The characters that lead a G-code comment and carry no content:
/// the `;` comment marker and whitespace.
pub open spec fn is_comment_padding(c: char) -> bool {
    c == ';' || spec_is_whitespace(c)
}

/// The number of padding characters at the start of `s`.
pub open spec fn padding_len(s: Seq<char>) -> nat
    decreases s.len(),
{
    if s.len() > 0 && is_comment_padding(s[0]) {
        1 + padding_len(s.drop_first())
    } else {
        0
    }
}

/// `s` without its leading comment padding.
pub open spec fn trim_comment(s: Seq<char>) -> Seq<char> {
    s.skip(padding_len(s) as int)
}

/// `padding_len` is the first position that does not hold padding.
pub proof fn lemma_padding_len(s: Seq<char>, k: int)
    requires
        0 <= k <= s.len(),
        forall|j: int| 0 <= j < k ==> is_comment_padding(#[trigger] s[j]),
        k == s.len() || !is_comment_padding(s[k]),
    ensures
        padding_len(s) == k,
    decreases k,
{
    if k > 0 {
        let t = s.drop_first();
        assert forall|j: int| 0 <= j < k - 1 implies is_comment_padding(#[trigger] t[j]) by {
            assert(t[j] == s[j + 1]);
        }
        if k < s.len() {
            assert(t[k - 1] == s[k]);
        }
        lemma_padding_len(t, k - 1);
    }
}

/// Only `;` and whitespace are stripped from the start of a comment: after any
/// run of such characters, trimming gives back the rest untouched as soon as
/// it starts with anything else.
pub proof fn lemma_trim_comment_strips_only_padding(prefix: Seq<char>, rest: Seq<char>)
    requires
        forall|i: int| 0 <= i < prefix.len() ==> #[trigger] prefix[i] == ';' || spec_is_whitespace(
            prefix[i],
        ),
        rest.len() > 0 ==> rest[0] != ';' && !spec_is_whitespace(rest[0]),
    ensures
        trim_comment(prefix + rest) == rest,
{
    let s = prefix + rest;
    assert forall|j: int| 0 <= j < prefix.len() implies is_comment_padding(#[trigger] s[j]) by {
        assert(s[j] == prefix[j]);
    }
    if rest.len() > 0 {
        assert(s[prefix.len() as int] == rest[0]);
    }
    lemma_padding_len(s, prefix.len() as int);
    assert(s.skip(prefix.len() as int) =~= rest);
}

/// The whitespace characters among ASCII are exactly space, tab, line feed,
/// vertical tab, form feed and carriage return.
pub proof fn lemma_ascii_whitespace(c: char)
    requires
        (c as u32) < 0x80,
    ensures
        spec_is_whitespace(c) <==> (c == ' ' || c == '\t' || c == '\n' || c == '\r'
            || (c as u32) == 0x0b || (c as u32) == 0x0c),
{
}

/// The characters of `s`, one per element.
pub fn chars_of(s: &str) -> (out: Vec<char>)
    ensures
        out@ == s@,
{
    let mut out: Vec<char> = Vec::new();
    for c in it: s.chars()
        invariant
            it.seq() == s@,
            out@ == it.seq().take(it.index() as int),
    {
        out.push(c);
    }
    out
}

/// The position of the first character of `chars` that is not comment padding.
pub fn padding_end(chars: &Vec<char>) -> (k: usize)
    ensures
        k == padding_len(chars@),
        k <= chars@.len(),
{
    let mut k: usize = 0;
    while k < chars.len() && (chars[k] == ';' || is_whitespace(chars[k]))
        invariant
            k <= chars@.len(),
            forall|j: int| 0 <= j < k ==> is_comment_padding(#[trigger] chars@[j]),
        decreases chars@.len() - k,
    {
        k = k + 1;
    }
    proof {
        lemma_padding_len(chars@, k as int);
    }
    k
}

/// Whether `chars[start..end]` equals `word`.
pub fn range_equals(chars: &Vec<char>, start: usize, end: usize, word: &Vec<char>) -> (b: bool)
    requires
        start <= end <= chars@.len(),
    ensures
        b == (chars@.subrange(start as int, end as int) == word@),
{
    if end - start != word.len() {
        return false;
    }
    let mut i: usize = 0;
    while i < word.len()
        invariant
            start <= end <= chars@.len(),
            end - start == word@.len(),
            i <= word@.len(),
            forall|j: int| 0 <= j < i ==> chars@[start + j] == word@[j],
        decreases word@.len() - i,
    {
        if chars[start + i] != word[i] {
            assert(chars@.subrange(start as int, end as int)[i as int] != word@[i as int]);
            return false;
        }
        i = i + 1;
    }
    assert(chars@.subrange(start as int, end as int) =~= word@);
    true
}

/// Whether `word` is a prefix of `chars[start..end]`.
pub fn range_starts_with(chars: &Vec<char>, start: usize, end: usize, word: &Vec<char>) -> (b:
    bool)
    requires
        start <= end <= chars@.len(),
    ensures
        b == word@.is_prefix_of(chars@.subrange(start as int, end as int)),
{
    if word.len() > end - start {
        return false;
    }
    let mut i: usize = 0;
    while i < word.len()
        invariant
            start <= end <= chars@.len(),
            word@.len() <= end - start,
            i <= word@.len(),
            forall|j: int| 0 <= j < i ==> chars@[start + j] == word@[j],
        decreases word@.len() - i,
    {
        if chars[start + i] != word[i] {
            assert(chars@.subrange(start as int, end as int).subrange(0, word@.len() as int)[i as int]
                != word@[i as int]);
            return false;
        }
        i = i + 1;
    }
    assert(word@ =~= chars@.subrange(start as int, end as int).subrange(0, word@.len() as int));
    true
}

/// `s` split around the first occurrence of `sep`, as `str::split_once` does.
pub open spec fn split_once(s: Seq<char>, sep: char) -> Option<(Seq<char>, Seq<char>)> {
    match s.index_of_first(sep) {
        Some(i) => Some((s.take(i), s.skip(i + 1))),
        None => None,
    }
}

/// The position of the first `sep` in `chars[start..end]`, counted from the
/// start of `chars`.
pub fn find_in_range(chars: &Vec<char>, start: usize, end: usize, sep: char) -> (r: Option<usize>)
    requires
        start <= end <= chars@.len(),
    ensures
        match chars@.subrange(start as int, end as int).index_of_first(sep) {
            Some(i) => r is Some && r->0 == start + i,
            None => r is None,
        },
        r matches Some(p) ==> start <= p < end && chars@[p as int] == sep,
{
    let ghost s = chars@.subrange(start as int, end as int);
    let mut i: usize = start;
    while i < end
        invariant
            start <= i <= end <= chars@.len(),
            s == chars@.subrange(start as int, end as int),
            forall|j: int| start <= j < i ==> chars@[j] != sep,
        decreases end - i,
    {
        if chars[i] == sep {
            proof {
                s.index_of_first_ensures(sep);
                assert(s[i - start] == sep);
                let k = s.index_of_first(sep)->0;
                if k < i - start {
                    assert(s[k] == chars@[start + k]);
                }
            }
            return Some(i);
        }
        i = i + 1;
    }
    proof {
        s.index_of_first_ensures(sep);
        if s.contains(sep) {
            let k = s.index_of_first(sep)->0;
            assert(s[k] == chars@[start + k]);
        }
    }
    None
}

/// Whether `c` is one of the ASCII digits `0` to `9`.
pub open spec fn is_decimal_digit(c: char) -> bool {
    0x30 <= (c as u32) <= 0x39
}

/// The value of the digit `c`; zero for other characters.
pub open spec fn digit_value(c: char) -> nat {
    if is_decimal_digit(c) {
        ((c as u32) - 0x30) as nat
    } else {
        0
    }
}

/// The number that the digits of `s` spell in base ten.
pub open spec fn decimal_value(s: Seq<char>) -> nat
    decreases s.len(),
{
    if s.len() == 0 {
        0
    } else {
        decimal_value(s.drop_last()) * 10 + digit_value(s.last())
    }
}

/// The digits of a `u32` as `str::parse::<u32>` reads them: an optional
/// leading `+`, then one or more ASCII digits.
pub open spec fn unsigned_digits(s: Seq<char>) -> Seq<char> {
    if s.len() > 0 && s[0] == '+' {
        s.drop_first()
    } else {
        s
    }
}

/// What `str::parse::<u32>` gives for `s`: `None` for an empty digit string,
/// any character that is not an ASCII digit, or a value above `u32::MAX`.
pub open spec fn spec_parse_u32(s: Seq<char>) -> Option<u32> {
    let digits = unsigned_digits(s);
    if digits.len() > 0 && (forall|i: int| 0 <= i < digits.len() ==> is_decimal_digit(#[trigger] digits[i]))
        && decimal_value(digits) <= u32::MAX {
        Some(decimal_value(digits) as u32)
    } else {
        None
    }
}

/// The value of a longer prefix is never smaller.
pub proof fn lemma_decimal_value_prefix_monotone(s: Seq<char>, j: int, k: int)
    requires
        0 <= j <= k <= s.len(),
    ensures
        decimal_value(s.take(j)) <= decimal_value(s.take(k)),
    decreases k - j,
{
    if j < k {
        lemma_decimal_value_prefix_monotone(s, j, k - 1);
        assert(s.take(k).drop_last() =~= s.take(k - 1));
        let v = decimal_value(s.take(k - 1));
        assert(decimal_value(s.take(k)) == v * 10 + digit_value(s.take(k).last()));
        assert(v <= v * 10) by (nonlinear_arith)
            requires
                v >= 0,
        ;
    }
}

/// Reads `chars[start..end]` as `str::parse::<u32>` does.
pub fn parse_u32_range(chars: &Vec<char>, start: usize, end: usize) -> (r: Option<u32>)
    requires
        start <= end <= chars@.len(),
    ensures
        r == spec_parse_u32(chars@.subrange(start as int, end as int)),
{
    let ghost s = chars@.subrange(start as int, end as int);
    let mut first = start;
    if start < end && chars[start] == '+' {
        first = start + 1;
    }
    let ghost digits = chars@.subrange(first as int, end as int);
    assert(digits =~= unsigned_digits(s));
    if first == end {
        return None;
    }
    let mut value: u64 = 0;
    let mut i: usize = first;
    while i < end
        invariant
            start <= first <= i <= end <= chars@.len(),
            s == chars@.subrange(start as int, end as int),
            digits == chars@.subrange(first as int, end as int),
            digits == unsigned_digits(s),
            forall|j: int| first <= j < i ==> is_decimal_digit(#[trigger] chars@[j]),
            value == decimal_value(digits.take(i - first)),
            value <= u32::MAX,
        decreases end - i,
    {
        let c = chars[i];
        let n = c as u32;
        if n < 0x30 || n > 0x39 {
            proof {
                assert(digits[i - first] == c);
                assert(!is_decimal_digit(digits[i - first]));
            }
            return None;
        }
        let d = (n - 0x30) as u64;
        proof {
            assert(digits.take(i - first + 1).drop_last() =~= digits.take(i - first));
            assert(digits.take(i - first + 1).last() == c);
        }
        value = value * 10 + d;
        i = i + 1;
        if value > 0xffff_ffff {
            proof {
                if forall|j: int| 0 <= j < digits.len() ==> is_decimal_digit(#[trigger] digits[j]) {
                    lemma_decimal_value_prefix_monotone(digits, i - first, digits.len() as int);
                    assert(digits.take(digits.len() as int) =~= digits);
                }
            }
            return None;
        }
    }
    proof {
        assert(digits.take(digits.len() as int) =~= digits);
        assert forall|j: int| 0 <= j < digits.len() implies is_decimal_digit(#[trigger] digits[j]) by {
            assert(digits[j] == chars@[first + j]);
        }
    }
    Some(value as u32)
}

/// Whether `c` is `lower`, or its ASCII upper-case form.
pub open spec fn same_letter_ignoring_ascii_case(c: char, lower: char) -> bool {
    (c as u32) == (lower as u32) || (0x41 <= (c as u32) <= 0x5a && (c as u32) + 32 == (
        lower as u32))
}

/// Whether `word` (in lower case) occurs in `s` at position `i`, ignoring
/// ASCII case.
pub open spec fn matches_at_ignoring_ascii_case(s: Seq<char>, i: int, word: Seq<char>) -> bool {
    &&& 0 <= i
    &&& i + word.len() <= s.len()
    &&& forall|j: int| 0 <= j < word.len() ==> same_letter_ignoring_ascii_case(#[trigger] s[i + j], word[j])
}

/// Whether `word` (in lower case) occurs somewhere in `s`, ignoring ASCII case.
pub open spec fn contains_ignoring_ascii_case(s: Seq<char>, word: Seq<char>) -> bool {
    exists|i: int| matches_at_ignoring_ascii_case(s, i, word)
}

/// Whether `word` (in lower case) occurs in `chars[start..end]`, ignoring
/// ASCII case.
pub fn range_contains_ignoring_ascii_case(
    chars: &Vec<char>,
    start: usize,
    end: usize,
    word: &Vec<char>,
) -> (b: bool)
    requires
        start <= end <= chars@.len(),
    ensures
        b == contains_ignoring_ascii_case(chars@.subrange(start as int, end as int), word@),
{
    let ghost s = chars@.subrange(start as int, end as int);
    if word.len() > end - start {
        proof {
            assert forall|i: int| !matches_at_ignoring_ascii_case(s, i, word@) by {}
        }
        return false;
    }
    let last = end - word.len();
    let mut i: usize = start;
    while i <= last
        invariant
            start <= i <= last + 1,
            last + word@.len() == end,
            end <= chars@.len(),
            s == chars@.subrange(start as int, end as int),
            forall|p: int| 0 <= p < i - start ==> !matches_at_ignoring_ascii_case(s, p, word@),
        decreases last + 1 - i,
    {
        let mut j: usize = 0;
        let mut ok = true;
        while j < word.len()
            invariant
                start <= i <= last,
                last + word@.len() == end,
                end <= chars@.len(),
                j <= word@.len(),
                ok == forall|q: int| 0 <= q < j ==> same_letter_ignoring_ascii_case(
                    #[trigger] chars@[i + q],
                    word@[q],
                ),
            decreases word@.len() - j,
        {
            let c = chars[i + j];
            let w = word[j];
            let n = c as u32;
            let same = n == w as u32 || (0x41 <= n && n <= 0x5a && n + 32 == w as u32);
            if !same {
                ok = false;
            }
            j = j + 1;
        }
        proof {
            assert forall|q: int| 0 <= q < word@.len() implies #[trigger] s[(i - start) + q] == chars@[i + q] by {}
        }
        if ok {
            proof {
                assert(matches_at_ignoring_ascii_case(s, i - start, word@));
            }
            return true;
        }
        proof {
            if matches_at_ignoring_ascii_case(s, i - start, word@) {
                assert forall|q: int| 0 <= q < word@.len() implies same_letter_ignoring_ascii_case(
                    #[trigger] chars@[i + q],
                    word@[q],
                ) by {
                    assert(s[(i - start) + q] == chars@[i + q]);
                }
            }
        }
        i = i + 1;
    }
    proof {
        assert forall|p: int| !matches_at_ignoring_ascii_case(s, p, word@) by {
            if 0 <= p < i - start {
            }
        }
    }
    false
}

} // verus!
