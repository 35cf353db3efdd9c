//! Validation of the background color option.

use vstd::prelude::*;

verus! {

/// Whether `c` is an ASCII hexadecimal digit (`0-9`, `a-f`, `A-F`).
pub open spec fn is_hex_digit(c: char) -> bool {
    let n = c as u32;
    ||| 0x30 <= n <= 0x39
    ||| 0x41 <= n <= 0x46
    ||| 0x61 <= n <= 0x66
}

/// A color in hexadecimal RGB or RGBA: six or eight hexadecimal digits.
pub open spec fn is_valid_color(s: Seq<char>) -> bool {
    &&& (s.len() == 6 || s.len() == 8)
    &&& forall|i: int| 0 <= i < s.len() ==> is_hex_digit(#[trigger] s[i])
}

/// The message that rejects `value` as a color.
pub open spec fn invalid_color_message(value: Seq<char>) -> Seq<char> {
    "Invalid background color: "@ + value
        + ". Must be a 6 or 8 digit hexadecimal RGB(A) value."@
}

/// Validates a hexadecimal RGB or RGBA color string.
pub fn parse_color(value: &str) -> (r: Result<String, String>)
    ensures
        match r {
            Ok(color) => is_valid_color(value@) && color@ == value@,
            Err(message) => !is_valid_color(value@) && message@ == invalid_color_message(value@),
        },
{
    let chars = crate::text::chars_of(value);
    let n = chars.len();
    let mut all_hex = true;
    let mut i: usize = 0;
    while i < n
        invariant
            n == chars@.len(),
            chars@ == value@,
            i <= n,
            all_hex == forall|j: int| 0 <= j < i ==> is_hex_digit(#[trigger] chars@[j]),
        decreases n - i,
    {
        let code = chars[i] as u32;
        let hex = (0x30 <= code && code <= 0x39) || (0x41 <= code && code <= 0x46) || (0x61 <= code
            && code <= 0x66);
        if !hex {
            all_hex = false;
        }
        i = i + 1;
    }
    if (n != 6 && n != 8) || !all_hex {
        let mut message = "Invalid background color: ".to_owned();
        message.append(value);
        message.append(". Must be a 6 or 8 digit hexadecimal RGB(A) value.");
        return Err(message);
    }
    Ok(value.to_owned())
}

/// The hexadecimal digits are exactly the characters of the two hexadecimal
/// alphabets, lower-case and upper-case.
pub proof fn lemma_hex_digit_alphabets(c: char)
    ensures
        is_hex_digit(c) <==> ("0123456789abcdef"@.contains(c) || "0123456789ABCDEF"@.contains(c)),
{
    reveal_strlit("0123456789abcdef");
    reveal_strlit("0123456789ABCDEF");
    let lower = "0123456789abcdef"@;
    let upper = "0123456789ABCDEF"@;
    let n = c as u32;
    if 0x30 <= n <= 0x39 {
        assert(lower[n - 0x30] == c);
    } else if 0x61 <= n <= 0x66 {
        assert(lower[n - 0x61 + 10] == c);
    } else if 0x41 <= n <= 0x46 {
        assert(upper[n - 0x41 + 10] == c);
    }
    if lower.contains(c) {
        let i = choose|i: int| 0 <= i < lower.len() && lower[i] == c;
        assert(is_hex_digit(lower[i]));
    }
    if upper.contains(c) {
        let i = choose|i: int| 0 <= i < upper.len() && upper[i] == c;
        assert(is_hex_digit(upper[i]));
    }
}

/// A color is valid exactly when it has six or eight characters, each taken
/// from `0-9`, `a-f` or `A-F`.
pub proof fn lemma_valid_colors(s: Seq<char>)
    ensures
        is_valid_color(s) <==> ((s.len() == 6 || s.len() == 8) && forall|i: int|
            0 <= i < s.len() ==> ("0123456789abcdef"@.contains(#[trigger] s[i])
                || "0123456789ABCDEF"@.contains(s[i]))),
{
    assert forall|i: int| 0 <= i < s.len() implies (is_hex_digit(#[trigger] s[i]) <==> (
    "0123456789abcdef"@.contains(s[i]) || "0123456789ABCDEF"@.contains(s[i]))) by {
        lemma_hex_digit_alphabets(s[i]);
    }
}

} // verus!
