//! A JSON parser for response bodies.
//!
//! The grammar accepted is JSON restricted to integer numbers: objects,
//! arrays, strings (with the short escapes and `\u` escapes of basic-plane
//! scalar values), `true`, `false`, `null`, and integers that fit an `i64`.
//! The specification-level functions `spec_parse_json` and its helpers define
//! the grammar as a recursive descent over the text; the executable parser is
//! proved to return exactly what they describe.

use vstd::prelude::*;
use crate::json::{Json, JsonValue, json_views, json_member_views, escape_char,
    escape_text, quoted};
use crate::text::chars_to_string;

verus! {

/// Whether `c` is JSON whitespace.
pub open spec fn is_json_ws(c: char) -> bool {
    c == ' ' || c == '\t' || c == '\n' || c == '\r'
}

/// The first position at or after `i` that holds no whitespace.
pub open spec fn spec_skip_ws(s: Seq<char>, i: int) -> int
    decreases s.len() - i,
{
    if 0 <= i < s.len() && is_json_ws(s[i]) {
        spec_skip_ws(s, i + 1)
    } else {
        i
    }
}

fn skip_ws(s: &[char], i: usize) -> (r: usize)
    requires
        i <= s@.len(),
    ensures
        r == spec_skip_ws(s@, i as int),
        i <= r <= s@.len(),
{
    let mut k = i;
    while k < s.len() && (s[k] == ' ' || s[k] == '\t' || s[k] == '\n' || s[k] == '\r')
        invariant
            i <= k <= s@.len(),
            spec_skip_ws(s@, i as int) == spec_skip_ws(s@, k as int),
        decreases s@.len() - k,
    {
        k = k + 1;
    }
    k
}

/// Whether `c` is a decimal digit.
pub open spec fn is_digit(c: char) -> bool {
    48 <= c as u32 <= 57
}

/// The numeric value of a decimal digit character.
pub open spec fn digit_val(c: char) -> int {
    c as u32 - 48
}

/// The first position at or after `i` that holds no decimal digit.
pub open spec fn spec_digits_end(s: Seq<char>, i: int) -> int
    decreases s.len() - i,
{
    if 0 <= i < s.len() && is_digit(s[i]) {
        spec_digits_end(s, i + 1)
    } else {
        i
    }
}

proof fn lemma_digits_end(s: Seq<char>, i: int)
    requires
        0 <= i <= s.len(),
    ensures
        i <= spec_digits_end(s, i) <= s.len(),
        forall|k: int| i <= k < spec_digits_end(s, i) ==> is_digit(#[trigger] s[k]),
        spec_digits_end(s, i) < s.len() ==> !is_digit(s[spec_digits_end(s, i)]),
    decreases s.len() - i,
{
    if i < s.len() && is_digit(s[i]) {
        lemma_digits_end(s, i + 1);
    }
}

fn digits_end(s: &[char], i: usize) -> (r: usize)
    requires
        i <= s@.len(),
    ensures
        r == spec_digits_end(s@, i as int),
        i <= r <= s@.len(),
{
    let mut k = i;
    while k < s.len() && 48 <= (s[k] as u32) && (s[k] as u32) <= 57
        invariant
            i <= k <= s@.len(),
            spec_digits_end(s@, i as int) == spec_digits_end(s@, k as int),
        decreases s@.len() - k,
    {
        k = k + 1;
    }
    k
}

/// The value of the decimal digit run `s[i .. j)`.
pub open spec fn digits_val(s: Seq<char>, i: int, j: int) -> int
    decreases j - i,
{
    if i >= j {
        0
    } else {
        digits_val(s, i, j - 1) * 10 + digit_val(s[j - 1])
    }
}

/// Ten raised to the power `n`.
pub open spec fn pow10(n: nat) -> int
    decreases n,
{
    if n == 0 {
        1
    } else {
        10 * pow10((n - 1) as nat)
    }
}

proof fn lemma_digits_val_lower(s: Seq<char>, i: int, j: int)
    requires
        i < j,
        forall|k: int| i <= k < j ==> is_digit(#[trigger] s[k]),
        digit_val(s[i]) >= 1,
    ensures
        digits_val(s, i, j) >= pow10((j - i - 1) as nat),
    decreases j - i,
{
    if i == j - 1 {
        assert(digits_val(s, i, j) == digits_val(s, i, i) * 10 + digit_val(s[i]));
        assert(pow10(0) == 1);
    } else {
        lemma_digits_val_lower(s, i, j - 1);
        assert(digits_val(s, i, j) == digits_val(s, i, j - 1) * 10 + digit_val(s[j - 1]));
        assert(pow10((j - i - 1) as nat) == 10 * pow10((j - i - 2) as nat));
        assert(digits_val(s, i, j - 1) * 10 >= pow10((j - i - 2) as nat) * 10);
    }
}

proof fn lemma_pow10_mono(a: nat, b: nat)
    requires
        a <= b,
    ensures
        pow10(a) <= pow10(b),
        pow10(a) >= 1,
    decreases b,
{
    if a == b {
        if a > 0 {
            lemma_pow10_mono((a - 1) as nat, (a - 1) as nat);
        }
    } else {
        lemma_pow10_mono(a, (b - 1) as nat);
    }
}

/// The integer number at position `i`: an optional minus sign and a digit run
/// without a superfluous leading zero, not continued by a fraction or an
/// exponent. The value is returned as an unbounded integer together with the
/// position after the digits.
pub open spec fn spec_parse_number(s: Seq<char>, i: int) -> Option<(int, int)> {
    if !(0 <= i < s.len()) {
        None
    } else {
        let neg = s[i] == '-';
        let d0 = if neg {
            i + 1
        } else {
            i
        };
        if !(d0 < s.len() && is_digit(s[d0])) {
            None
        } else {
            let e = spec_digits_end(s, d0);
            if digit_val(s[d0]) == 0 && e > d0 + 1 {
                None
            } else if e < s.len() && (s[e] == '.' || s[e] == 'e' || s[e] == 'E') {
                None
            } else {
                let v = digits_val(s, d0, e);
                Some(
                    (
                        if neg {
                            -v
                        } else {
                            v
                        },
                        e,
                    ),
                )
            }
        }
    }
}

/// Parses the integer number at `i`, if any. `None` stands both for text that
/// is no integer of the grammar and for an integer that does not fit an
/// `i64`.
fn parse_number(s: &[char], i: usize) -> (r: Option<(i64, usize)>)
    requires
        i <= s@.len(),
    ensures
        r matches Some((v, j)) ==> spec_parse_number(s@, i as int) == Some((v as int, j as int))
            && i < j <= s@.len(),
        r is None ==> (match spec_parse_number(s@, i as int) {
            Some((v, _)) => v < i64::MIN || v > i64::MAX,
            None => true,
        }),
{
    if i >= s.len() {
        return None;
    }
    let neg = s[i] == '-';
    let d0 = if neg {
        i + 1
    } else {
        i
    };
    if d0 >= s.len() || !(48 <= (s[d0] as u32) && (s[d0] as u32) <= 57) {
        return None;
    }
    let e = digits_end(s, d0);
    proof {
        lemma_digits_end(s@, d0 as int);
        assert(e > d0) by {
            assert(spec_digits_end(s@, d0 as int) == spec_digits_end(s@, d0 as int + 1));
        }
    }
    if (s[d0] as u32) == 48 && e > d0 + 1 {
        return None;
    }
    if e < s.len() && (s[e] == '.' || s[e] == 'e' || s[e] == 'E') {
        return None;
    }
    if e - d0 > 19 {
        // at least twenty digits without a leading zero: the value exceeds any i64
        proof {
            assert(digit_val(s@[d0 as int]) >= 1);
            lemma_digits_val_lower(s@, d0 as int, e as int);
            lemma_pow10_mono(19, (e - d0 - 1) as nat);
            lemma_pow10_19();
        }
        return None;
    }
    let ghost sv = s@;
    let ghost d0i = d0 as int;
    let mut acc: u64 = 0;
    let mut k = d0;
    proof {
        lemma_pow10_19();
        lemma_pow10_mono((e - d0) as nat, 19);
    }
    while k < e
        invariant
            d0 <= k <= e <= sv.len(),
            e - d0 <= 19,
            sv == s@,
            d0i == d0 as int,
            forall|m: int| d0i <= m < e ==> is_digit(#[trigger] sv[m]),
            acc == digits_val(sv, d0i, k as int),
            acc < pow10((k - d0) as nat),
        decreases e - k,
    {
        proof {
            lemma_pow10_mono((k - d0 + 1) as nat, 19);
            lemma_pow10_19();
        }
        let d: u64 = (s[k] as u32 as u64) - 48;
        acc = acc * 10 + d;
        k = k + 1;
    }
    if neg {
        if acc > 0x8000_0000_0000_0000u64 {
            return None;
        }
        let v: i64 = if acc == 0x8000_0000_0000_0000u64 {
            i64::MIN
        } else {
            -(acc as i64)
        };
        Some((v, e))
    } else {
        if acc > 0x7fff_ffff_ffff_ffffu64 {
            return None;
        }
        Some((acc as i64, e))
    }
}

proof fn lemma_pow10_19()
    ensures
        pow10(19) == 10_000_000_000_000_000_000,
{
    reveal_with_fuel(pow10, 21);
}

/// The unescaped counterpart of a short escape character, `None` where the
/// character follows no backslash in well-formed text.
pub open spec fn unescape_char(e: char) -> Option<char> {
    if e == '"' {
        Some('"')
    } else if e == '\\' {
        Some('\\')
    } else if e == '/' {
        Some('/')
    } else if e == 'b' {
        Some('\u{8}')
    } else if e == 'f' {
        Some('\u{c}')
    } else if e == 'n' {
        Some('\n')
    } else if e == 'r' {
        Some('\r')
    } else if e == 't' {
        Some('\t')
    } else {
        None
    }
}

/// Whether `c` is a hexadecimal digit, either case.
pub open spec fn is_hex_digit(c: char) -> bool {
    48 <= c as u32 <= 57 || 97 <= c as u32 <= 102 || 65 <= c as u32 <= 70
}

/// The numeric value of a hexadecimal digit character.
pub open spec fn hex_val(c: char) -> int {
    if 48 <= c as u32 <= 57 {
        c as u32 - 48
    } else if 97 <= c as u32 <= 102 {
        c as u32 - 87
    } else {
        c as u32 - 55
    }
}

/// The value of the four hexadecimal digits `s[i .. i + 4)`.
pub open spec fn hex4_val(s: Seq<char>, i: int) -> int {
    hex_val(s[i]) * 4096 + hex_val(s[i + 1]) * 256 + hex_val(s[i + 2]) * 16 + hex_val(s[i + 3])
}

/// The remainder of a JSON string after its opening quote: the decoded
/// characters up to the closing quote, and the position after it. Escapes are
/// decoded; a `\u` escape must name a basic-plane scalar value, so a
/// surrogate escape — lone or paired — is rejected. Unescaped control
/// characters are rejected.
pub open spec fn spec_parse_string_rest(s: Seq<char>, i: int) -> Option<(Seq<char>, int)>
    decreases s.len() - i,
{
    if !(0 <= i < s.len()) {
        None
    } else {
        let c = s[i];
        if c == '"' {
            Some((Seq::empty(), i + 1))
        } else if c == '\\' {
            if i + 1 >= s.len() {
                None
            } else {
                let e = s[i + 1];
                if e == 'u' {
                    if i + 6 > s.len() {
                        None
                    } else if !(is_hex_digit(s[i + 2]) && is_hex_digit(s[i + 3]) && is_hex_digit(
                        s[i + 4],
                    ) && is_hex_digit(s[i + 5])) {
                        None
                    } else {
                        let code = hex4_val(s, i + 2);
                        if !(code < 0xD800 || 0xE000 <= code) {
                            None
                        } else {
                            match spec_parse_string_rest(s, i + 6) {
                                Some((t, j)) => Some((seq![code as char] + t, j)),
                                None => None,
                            }
                        }
                    }
                } else {
                    match unescape_char(e) {
                        Some(c2) => match spec_parse_string_rest(s, i + 2) {
                            Some((t, j)) => Some((seq![c2] + t, j)),
                            None => None,
                        },
                        None => None,
                    }
                }
            }
        } else if (c as u32) < 0x20 {
            None
        } else {
            match spec_parse_string_rest(s, i + 1) {
                Some((t, j)) => Some((seq![c] + t, j)),
                None => None,
            }
        }
    }
}

fn is_hex_digit_exec(c: char) -> (r: bool)
    ensures
        r == is_hex_digit(c),
{
    let u = c as u32;
    (48 <= u && u <= 57) || (97 <= u && u <= 102) || (65 <= u && u <= 70)
}

fn hex_val_exec(c: char) -> (r: u32)
    requires
        is_hex_digit(c),
    ensures
        r == hex_val(c),
        r < 16,
{
    let u = c as u32;
    if 48 <= u && u <= 57 {
        u - 48
    } else if 97 <= u && u <= 102 {
        u - 87
    } else {
        u - 55
    }
}

fn unescape_char_exec(e: char) -> (r: Option<char>)
    ensures
        r == unescape_char(e),
{
    if e == '"' {
        Some('"')
    } else if e == '\\' {
        Some('\\')
    } else if e == '/' {
        Some('/')
    } else if e == 'b' {
        Some('\u{8}')
    } else if e == 'f' {
        Some('\u{c}')
    } else if e == 'n' {
        Some('\n')
    } else if e == 'r' {
        Some('\r')
    } else if e == 't' {
        Some('\t')
    } else {
        None
    }
}

fn parse_string_rest(s: &[char], i: usize) -> (r: Option<(Vec<char>, usize)>)
    requires
        i <= s@.len(),
    ensures
        r matches Some((t, j)) ==> spec_parse_string_rest(s@, i as int) == Some((t@, j as int))
            && i < j <= s@.len(),
        r is None ==> spec_parse_string_rest(s@, i as int) is None,
    decreases s@.len() - i,
{
    if i >= s.len() {
        return None;
    }
    let c = s[i];
    if c == '"' {
        return Some((Vec::new(), i + 1));
    }
    if c == '\\' {
        if i + 1 >= s.len() {
            return None;
        }
        let e = s[i + 1];
        if e == 'u' {
            if s.len() - i < 6 {
                return None;
            }
            if !(is_hex_digit_exec(s[i + 2]) && is_hex_digit_exec(s[i + 3]) && is_hex_digit_exec(
                s[i + 4],
            ) && is_hex_digit_exec(s[i + 5])) {
                return None;
            }
            let code: u32 = hex_val_exec(s[i + 2]) * 4096 + hex_val_exec(s[i + 3]) * 256
                + hex_val_exec(s[i + 4]) * 16 + hex_val_exec(s[i + 5]);
            if !(code < 0xD800 || 0xE000 <= code) {
                return None;
            }
            let c2 = match crate::text::char_of_code(code) {
                Some(c2) => c2,
                None => {
                    proof {
                        assert(false);
                    }
                    return None;
                },
            };
            match parse_string_rest(s, i + 6) {
                Some((t, j)) => {
                    let mut t2 = t;
                    t2.insert(0, c2);
                    proof {
                        assert(t2@ =~= seq![code as char] + t2@.drop_first());
                    }
                    Some((t2, j))
                },
                None => None,
            }
        } else {
            match unescape_char_exec(e) {
                Some(c2) => match parse_string_rest(s, i + 2) {
                    Some((t, j)) => {
                        let mut t2 = t;
                        t2.insert(0, c2);
                        proof {
                            assert(t2@ =~= seq![c2] + t2@.drop_first());
                        }
                        Some((t2, j))
                    },
                    None => None,
                },
                None => None,
            }
        }
    } else if (c as u32) < 0x20 {
        None
    } else {
        match parse_string_rest(s, i + 1) {
            Some((t, j)) => {
                let mut t2 = t;
                t2.insert(0, c);
                proof {
                    assert(t2@ =~= seq![c] + t2@.drop_first());
                }
                Some((t2, j))
            },
            None => None,
        }
    }
}

/// The JSON value at position `i`, which must hold no leading whitespace: a
/// literal, a string, an integer that fits an `i64`, an array or an object,
/// together with the position after it.
pub open spec fn spec_parse_value(s: Seq<char>, i: int) -> Option<(Json, int)>
    decreases s.len() - i, 0int,
{
    if !(0 <= i < s.len()) {
        None
    } else {
        let c = s[i];
        if c == 'n' {
            if i + 4 <= s.len() && s[i + 1] == 'u' && s[i + 2] == 'l' && s[i + 3] == 'l' {
                Some((Json::Null, i + 4))
            } else {
                None
            }
        } else if c == 't' {
            if i + 4 <= s.len() && s[i + 1] == 'r' && s[i + 2] == 'u' && s[i + 3] == 'e' {
                Some((Json::Bool(true), i + 4))
            } else {
                None
            }
        } else if c == 'f' {
            if i + 5 <= s.len() && s[i + 1] == 'a' && s[i + 2] == 'l' && s[i + 3] == 's' && s[i + 4]
                == 'e' {
                Some((Json::Bool(false), i + 5))
            } else {
                None
            }
        } else if c == '"' {
            match spec_parse_string_rest(s, i + 1) {
                Some((t, j)) => Some((Json::Str(t), j)),
                None => None,
            }
        } else if c == '[' {
            let k = spec_skip_ws(s, i + 1);
            if !(i + 1 <= k < s.len()) {
                None
            } else if s[k] == ']' {
                Some((Json::Arr(Seq::empty()), k + 1))
            } else {
                match spec_parse_items(s, k) {
                    Some((elts, j)) => Some((Json::Arr(elts), j)),
                    None => None,
                }
            }
        } else if c == '{' {
            let k = spec_skip_ws(s, i + 1);
            if !(i + 1 <= k < s.len()) {
                None
            } else if s[k] == '}' {
                Some((Json::Obj(Seq::empty()), k + 1))
            } else {
                match spec_parse_members(s, k) {
                    Some((mem, j)) => Some((Json::Obj(mem), j)),
                    None => None,
                }
            }
        } else {
            match spec_parse_number(s, i) {
                Some((v, j)) => if i64::MIN <= v <= i64::MAX {
                    Some((Json::Int(v), j))
                } else {
                    None
                },
                None => None,
            }
        }
    }
}

/// The elements of an array from the first element at `i` (no leading
/// whitespace) up to and beyond the closing bracket.
pub open spec fn spec_parse_items(s: Seq<char>, i: int) -> Option<(Seq<Json>, int)>
    decreases s.len() - i, 1int,
{
    if !(0 <= i < s.len()) {
        None
    } else {
        match spec_parse_value(s, i) {
            Some((v, j)) => if !(i < j <= s.len()) {
                None
            } else {
                let k = spec_skip_ws(s, j);
                if !(j <= k < s.len()) {
                    None
                } else if s[k] == ']' {
                    Some((seq![v], k + 1))
                } else if s[k] == ',' {
                    let k2 = spec_skip_ws(s, k + 1);
                    if !(k + 1 <= k2 <= s.len()) {
                        None
                    } else {
                        match spec_parse_items(s, k2) {
                            Some((rest, e)) => Some((seq![v] + rest, e)),
                            None => None,
                        }
                    }
                } else {
                    None
                }
            },
            None => None,
        }
    }
}

/// The members of an object from the first key at `i` (no leading whitespace)
/// up to and beyond the closing brace.
pub open spec fn spec_parse_members(s: Seq<char>, i: int) -> Option<
    (Seq<(Seq<char>, Json)>, int),
>
    decreases s.len() - i, 1int,
{
    if !(0 <= i < s.len() && s[i] == '"') {
        None
    } else {
        match spec_parse_string_rest(s, i + 1) {
            Some((key, j)) => if !(i + 1 <= j <= s.len()) {
                None
            } else {
                let k = spec_skip_ws(s, j);
                if !(j <= k < s.len() && s[k] == ':') {
                    None
                } else {
                    let k2 = spec_skip_ws(s, k + 1);
                    if !(k + 1 <= k2 <= s.len()) {
                        None
                    } else {
                        match spec_parse_value(s, k2) {
                            Some((v, j2)) => if !(k2 < j2 <= s.len()) {
                                None
                            } else {
                                let k3 = spec_skip_ws(s, j2);
                                if !(j2 <= k3 < s.len()) {
                                    None
                                } else if s[k3] == '}' {
                                    Some((seq![(key, v)], k3 + 1))
                                } else if s[k3] == ',' {
                                    let k4 = spec_skip_ws(s, k3 + 1);
                                    if !(k3 + 1 <= k4 <= s.len()) {
                                        None
                                    } else {
                                        match spec_parse_members(s, k4) {
                                            Some((rest, e)) => Some((seq![(key, v)] + rest, e)),
                                            None => None,
                                        }
                                    }
                                } else {
                                    None
                                }
                            },
                            None => None,
                        }
                    }
                }
            },
            None => None,
        }
    }
}

fn parse_value(s: &[char], i: usize) -> (r: Option<(JsonValue, usize)>)
    requires
        i <= s@.len(),
    ensures
        r matches Some((v, j)) ==> spec_parse_value(s@, i as int) == Some((v@, j as int)) && i < j
            <= s@.len(),
        r is None ==> spec_parse_value(s@, i as int) is None,
    decreases s@.len() - i, 0int,
{
    if i >= s.len() {
        return None;
    }
    let c = s[i];
    if c == 'n' {
        if s.len() - i >= 4 && s[i + 1] == 'u' && s[i + 2] == 'l' && s[i + 3] == 'l' {
            Some((JsonValue::Null, i + 4))
        } else {
            None
        }
    } else if c == 't' {
        if s.len() - i >= 4 && s[i + 1] == 'r' && s[i + 2] == 'u' && s[i + 3] == 'e' {
            Some((JsonValue::Bool(true), i + 4))
        } else {
            None
        }
    } else if c == 'f' {
        if s.len() - i >= 5 && s[i + 1] == 'a' && s[i + 2] == 'l' && s[i + 3] == 's' && s[i + 4]
            == 'e' {
            Some((JsonValue::Bool(false), i + 5))
        } else {
            None
        }
    } else if c == '"' {
        match parse_string_rest(s, i + 1) {
            Some((t, j)) => Some((JsonValue::Str(chars_to_string(t.as_slice())), j)),
            None => None,
        }
    } else if c == '[' {
        let k = skip_ws(s, i + 1);
        if k >= s.len() {
            return None;
        }
        if s[k] == ']' {
            let elts: Vec<JsonValue> = Vec::new();
            proof {
                crate::json::lemma_json_views_index(elts@);
                assert(json_views(elts@) =~= Seq::<Json>::empty());
            }
            Some((JsonValue::Arr(elts), k + 1))
        } else {
            match parse_items(s, k) {
                Some((elts, j)) => Some((JsonValue::Arr(elts), j)),
                None => None,
            }
        }
    } else if c == '{' {
        let k = skip_ws(s, i + 1);
        if k >= s.len() {
            return None;
        }
        if s[k] == '}' {
            let mem: Vec<(String, JsonValue)> = Vec::new();
            proof {
                crate::json::lemma_json_member_views_index(mem@);
                assert(json_member_views(mem@) =~= Seq::<(Seq<char>, Json)>::empty());
            }
            Some((JsonValue::Obj(mem), k + 1))
        } else {
            match parse_members(s, k) {
                Some((mem, j)) => Some((JsonValue::Obj(mem), j)),
                None => None,
            }
        }
    } else {
        match parse_number(s, i) {
            Some((v, j)) => Some((JsonValue::Int(v), j)),
            None => None,
        }
    }
}

fn parse_items(s: &[char], i: usize) -> (r: Option<(Vec<JsonValue>, usize)>)
    requires
        i <= s@.len(),
    ensures
        r matches Some((elts, j)) ==> spec_parse_items(s@, i as int) == Some(
            (json_views(elts@), j as int),
        ) && i < j <= s@.len(),
        r is None ==> spec_parse_items(s@, i as int) is None,
    decreases s@.len() - i, 1int,
{
    if i >= s.len() {
        return None;
    }
    match parse_value(s, i) {
        Some((v, j)) => {
            let k = skip_ws(s, j);
            if k >= s.len() {
                return None;
            }
            if s[k] == ']' {
                let ghost vj = v@;
                let mut elts: Vec<JsonValue> = Vec::new();
                elts.push(v);
                proof {
                    crate::json::lemma_json_views_index(elts@);
                    assert(json_views(elts@) =~= seq![vj]);
                }
                Some((elts, k + 1))
            } else if s[k] == ',' {
                let k2 = skip_ws(s, k + 1);
                match parse_items(s, k2) {
                    Some((rest, e)) => {
                        let ghost restv = rest@;
                        let ghost vj = v@;
                        let ghost ve = v;
                        let mut elts = rest;
                        elts.insert(0, v);
                        proof {
                            restv.insert_ensures(0, ve);
                            crate::json::lemma_json_views_index(elts@);
                            crate::json::lemma_json_views_index(restv);
                            assert(json_views(elts@) =~= seq![vj] + json_views(restv));
                        }
                        Some((elts, e))
                    },
                    None => None,
                }
            } else {
                None
            }
        },
        None => None,
    }
}

fn parse_members(s: &[char], i: usize) -> (r: Option<(Vec<(String, JsonValue)>, usize)>)
    requires
        i <= s@.len(),
    ensures
        r matches Some((mem, j)) ==> spec_parse_members(s@, i as int) == Some(
            (json_member_views(mem@), j as int),
        ) && i < j <= s@.len(),
        r is None ==> spec_parse_members(s@, i as int) is None,
    decreases s@.len() - i, 1int,
{
    if i >= s.len() || s[i] != '"' {
        return None;
    }
    match parse_string_rest(s, i + 1) {
        Some((key, j)) => {
            let k = skip_ws(s, j);
            if k >= s.len() || s[k] != ':' {
                return None;
            }
            let k2 = skip_ws(s, k + 1);
            match parse_value(s, k2) {
                Some((v, j2)) => {
                    let k3 = skip_ws(s, j2);
                    if k3 >= s.len() {
                        return None;
                    }
                    let key_string = chars_to_string(key.as_slice());
                    if s[k3] == '}' {
                        let ghost kj = key@;
                        let ghost vj = v@;
                        let mut mem: Vec<(String, JsonValue)> = Vec::new();
                        mem.push((key_string, v));
                        proof {
                            crate::json::lemma_json_member_views_index(mem@);
                            assert(json_member_views(mem@) =~= seq![(kj, vj)]);
                        }
                        Some((mem, k3 + 1))
                    } else if s[k3] == ',' {
                        let k4 = skip_ws(s, k3 + 1);
                        match parse_members(s, k4) {
                            Some((rest, e)) => {
                                let ghost restv = rest@;
                                let ghost kj = key@;
                                let ghost vj = v@;
                                let ghost me = (key_string, v);
                                let mut mem = rest;
                                mem.insert(0, (key_string, v));
                                proof {
                                    restv.insert_ensures(0, me);
                                    crate::json::lemma_json_member_views_index(mem@);
                                    crate::json::lemma_json_member_views_index(restv);
                                    assert(json_member_views(mem@) =~= seq![(kj, vj)]
                                        + json_member_views(restv));
                                }
                                Some((mem, e))
                            },
                            None => None,
                        }
                    } else {
                        None
                    }
                },
                None => None,
            }
        },
        None => None,
    }
}

/// The JSON document the whole text holds: one value, between optional
/// whitespace that runs to both ends of the text.
pub open spec fn spec_parse_json(s: Seq<char>) -> Option<Json> {
    match spec_parse_value(s, spec_skip_ws(s, 0)) {
        Some((v, j)) => if spec_skip_ws(s, j) == s.len() {
            Some(v)
        } else {
            None
        },
        None => None,
    }
}

/// Parses a whole JSON document.
pub fn parse_json(s: &[char]) -> (r: Option<JsonValue>)
    ensures
        r matches Some(v) ==> spec_parse_json(s@) == Some(v@),
        r is None ==> spec_parse_json(s@) is None,
{
    let i = skip_ws(s, 0);
    match parse_value(s, i) {
        Some((v, j)) => {
            let k = skip_ws(s, j);
            if k == s.len() {
                Some(v)
            } else {
                None
            }
        },
        None => None,
    }
}

/// `escape_text` peels from the front as well: the escape of the first
/// character, then the escape of the rest.
proof fn lemma_escape_text_head(s: Seq<char>)
    requires
        s.len() > 0,
    ensures
        escape_text(s) == escape_char(s[0]) + escape_text(s.drop_first()),
    decreases s.len(),
{
    if s.len() == 1 {
        assert(s.drop_last() =~= Seq::<char>::empty());
        assert(s.drop_first() =~= Seq::<char>::empty());
        assert(escape_text(s) =~= escape_char(s[0]) + escape_text(s.drop_first()));
    } else {
        lemma_escape_text_head(s.drop_last());
        assert(s.drop_last()[0] == s[0]);
        assert(s.drop_last().drop_first() =~= s.drop_first().drop_last());
        assert(s.drop_first().last() == s.last());
        assert(escape_text(s.drop_first()) == escape_text(s.drop_first().drop_last())
            + escape_char(s.drop_first().last()));
        assert(escape_text(s) =~= escape_char(s[0]) + escape_text(s.drop_first()));
    }
}

proof fn lemma_hex_digit_char_val(v: int)
    requires
        0 <= v < 16,
    ensures
        is_hex_digit(crate::json::hex_digit_char(v)),
        hex_val(crate::json::hex_digit_char(v)) == v,
{
}

/// Parsing a string body at `i` on a text whose suffix there is the escaped
/// form of `s`, closed by a quote, recovers exactly `s`.
pub proof fn lemma_parse_escaped_at(t: Seq<char>, i: int, s: Seq<char>)
    requires
        0 <= i,
        i + escape_text(s).len() + 1 <= t.len(),
        t.subrange(i, i + escape_text(s).len() as int) == escape_text(s),
        t[i + escape_text(s).len() as int] == '"',
    ensures
        spec_parse_string_rest(t, i) == Some((s, i + escape_text(s).len() + 1)),
    decreases s.len(),
{
    let et = escape_text(s);
    if s.len() == 0 {
        assert(t[i] == '"');
        assert(s =~= Seq::<char>::empty());
    } else {
        lemma_escape_text_head(s);
        let c = s[0];
        let ec = escape_char(c);
        let tail = escape_text(s.drop_first());
        let i2 = i + ec.len();
        assert(et == ec + tail);
        assert forall|k: int| i <= k < i + et.len() implies #[trigger] t[k] == et[k - i] by {
            assert(t.subrange(i, i + et.len() as int)[k - i] == t[k]);
        }
        assert forall|k: int|
            0 <= k < tail.len() implies t.subrange(i2, i2 + tail.len() as int)[k] == tail[k] by {
            assert(t[i2 + k] == et[i2 + k - i]);
            assert(et[ec.len() + k] == tail[k]);
        }
        assert(t.subrange(i2, i2 + tail.len() as int) =~= tail);
        assert(t[i2 + tail.len() as int] == '"');
        lemma_parse_escaped_at(t, i2, s.drop_first());
        assert(seq![c] + s.drop_first() =~= s);
        assert forall|k: int| 0 <= k < ec.len() implies t[i + k] == ec[k] by {
            assert(t[i + k] == et[k]);
        }
        if c == '"' || c == '\\' || c == '\u{8}' || c == '\t' || c == '\n' || c == '\u{c}'
            || c == '\r' {
            assert(t[i] == '\\');
            assert(unescape_char(t[i + 1]) == Some(c));
        } else if (c as u32) < 0x20 {
            let cv = c as u32;
            assert(t[i] == '\\' && t[i + 1] == 'u' && t[i + 2] == '0' && t[i + 3] == '0');
            assert(t[i + 4] == crate::text::digit_char((cv / 16) as int));
            assert(t[i + 5] == crate::json::hex_digit_char((cv % 16) as int));
            lemma_hex_digit_char_val((cv / 16) as int);
            lemma_hex_digit_char_val((cv % 16) as int);
            assert(crate::text::digit_char((cv / 16) as int) == crate::json::hex_digit_char(
                (cv / 16) as int,
            ));
            assert(hex4_val(t, i + 2) == cv);
            vstd::utf8::char_u32_cast(c, cv);
            assert((cv as char) == c);
            assert((hex4_val(t, i + 2) as char) == c);
        } else {
            assert(t[i] == c);
            assert(c != '"' && c != '\\' && (c as u32) >= 0x20);
        }
    }
}

/// A serialized JSON string parses back to exactly the text it was made
/// from: quoting and escaping lose nothing.
pub proof fn lemma_quoted_round_trip(s: Seq<char>)
    ensures
        spec_parse_json(quoted(s)) == Some(Json::Str(s)),
{
    let t = quoted(s);
    assert(t[0] == '"');
    assert(t.subrange(1, 1 + escape_text(s).len() as int) =~= escape_text(s));
    assert(t[1 + escape_text(s).len() as int] == '"');
    lemma_parse_escaped_at(t, 1, s);
    assert(spec_skip_ws(t, 0) == 0);
    assert(spec_parse_value(t, 0) == Some((Json::Str(s), t.len() as int)));
    assert(spec_skip_ws(t, t.len() as int) == t.len());
}

} // verus!
