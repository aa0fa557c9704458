//! The configuration input surface: a JSON object with two independently
//! optional members, `crypto_thread_pool_size` (an unsigned integer that
//! fits in 32 bits) and `collect_backtrace` (a boolean).
//!
//! Accepted shape, stated by the spec functions below: optional whitespace,
//! one object of zero or more `"key": value` members, optional whitespace,
//! end of input. A known key must carry a value of its type; an unknown
//! member is tolerated and ignored, and may carry any JSON value — a
//! string with escapes, a signed or fractional number, `true`, `false`,
//! `null`, or an array or object nesting at most `NESTING_LIMIT` levels
//! deep. Member names are compared as written, without unescaping. If a
//! known key occurs twice, the later member wins. Anything else is
//! malformed.

use vstd::prelude::*;

verus! {

/// What a well-formed configuration object specifies. Fields are
/// independently optional: an absent member leaves its setting alone.
#[derive(Debug, PartialEq, Eq, Structural, Clone, Copy)]
pub struct ConfigDelta {
    pub crypto_thread_pool_size: Option<u32>,
    pub collect_backtrace: Option<bool>,
}

/// A delta that specifies nothing, as the empty object `{}` does.
pub open spec fn empty_delta() -> ConfigDelta {
    ConfigDelta { crypto_thread_pool_size: None, collect_backtrace: None }
}

pub open spec fn is_ws(b: u8) -> bool {
    b == 32 || b == 9 || b == 10 || b == 13
}

pub open spec fn is_digit(b: u8) -> bool {
    48 <= b <= 57
}

/// The first index at or after `i` holding a non-whitespace byte (or the
/// end of input).
pub open spec fn skip_ws(s: Seq<u8>, i: int) -> int
    decreases s.len() - i,
{
    if 0 <= i < s.len() && is_ws(s[i]) {
        skip_ws(s, i + 1)
    } else {
        i
    }
}

pub proof fn lemma_skip_ws_bounds(s: Seq<u8>, i: int)
    requires
        0 <= i <= s.len(),
    ensures
        i <= skip_ws(s, i) <= s.len(),
        skip_ws(s, i) < s.len() ==> !is_ws(s[skip_ws(s, i)]),
    decreases s.len() - i,
{
    if i < s.len() && is_ws(s[i]) {
        lemma_skip_ws_bounds(s, i + 1);
    }
}

/// The single-character escapes a string may hold after a backslash.
pub open spec fn is_simple_escape(b: u8) -> bool {
    b == 34 || b == 92 || b == 47 || b == 98 || b == 102 || b == 110 || b == 114 || b == 116
}

/// A hexadecimal digit, as `\u` escapes use them.
pub open spec fn is_hex(b: u8) -> bool {
    is_digit(b) || (97 <= b <= 102) || (65 <= b <= 70)
}

/// The closing quote of a string whose content starts at `i`: the first
/// unescaped `"` at or after `i`. A backslash must open a simple escape
/// or a `\u` escape with four hexadecimal digits; a bare control byte is
/// malformed.
pub open spec fn string_end(s: Seq<u8>, i: int) -> Option<int>
    decreases s.len() - i,
{
    if !(0 <= i < s.len()) {
        None
    } else if s[i] == 34 {
        Some(i)
    } else if s[i] == 92 {
        if i + 1 < s.len() && is_simple_escape(s[i + 1]) {
            string_end(s, i + 2)
        } else if i + 5 < s.len() && s[i + 1] == 117 && is_hex(s[i + 2]) && is_hex(s[i + 3])
            && is_hex(s[i + 4]) && is_hex(s[i + 5]) {
            string_end(s, i + 6)
        } else {
            None
        }
    } else if s[i] < 32 {
        None
    } else {
        string_end(s, i + 1)
    }
}

pub proof fn lemma_string_end_bounds(s: Seq<u8>, i: int)
    requires
        0 <= i <= s.len(),
    ensures
        match string_end(s, i) {
            Some(j) => i <= j < s.len(),
            None => true,
        },
    decreases s.len() - i,
{
    if 0 <= i < s.len() && s[i] != 34 {
        if s[i] == 92 {
            if i + 1 < s.len() && is_simple_escape(s[i + 1]) {
                lemma_string_end_bounds(s, i + 2);
            } else if i + 5 < s.len() && s[i + 1] == 117 && is_hex(s[i + 2]) && is_hex(s[i + 3])
                && is_hex(s[i + 4]) && is_hex(s[i + 5]) {
                lemma_string_end_bounds(s, i + 6);
            }
        } else if s[i] >= 32 {
            lemma_string_end_bounds(s, i + 1);
        }
    }
}

/// The first index at or after `i` holding a non-digit byte.
pub open spec fn digits_end(s: Seq<u8>, i: int) -> int
    decreases s.len() - i,
{
    if 0 <= i < s.len() && is_digit(s[i]) {
        digits_end(s, i + 1)
    } else {
        i
    }
}

pub proof fn lemma_digits_end_bounds(s: Seq<u8>, i: int)
    requires
        0 <= i <= s.len(),
    ensures
        i <= digits_end(s, i) <= s.len(),
    decreases s.len() - i,
{
    if i < s.len() && is_digit(s[i]) {
        lemma_digits_end_bounds(s, i + 1);
    }
}

/// The value of the decimal digit run `s[i..j)`.
pub open spec fn digits_value(s: Seq<u8>, i: int, j: int) -> nat
    decreases j - i,
{
    if i >= j {
        0
    } else {
        digits_value(s, i, j - 1) * 10 + (if s[j - 1] >= 48 {
            (s[j - 1] - 48) as nat
        } else {
            0
        })
    }
}

pub open spec fn true_at(s: Seq<u8>, i: int) -> bool {
    i + 4 <= s.len() && s[i] == 116 && s[i + 1] == 114 && s[i + 2] == 117 && s[i + 3] == 101
}

pub open spec fn false_at(s: Seq<u8>, i: int) -> bool {
    i + 5 <= s.len() && s[i] == 102 && s[i + 1] == 97 && s[i + 2] == 108 && s[i + 3] == 115
        && s[i + 4] == 101
}

pub open spec fn null_at(s: Seq<u8>, i: int) -> bool {
    i + 4 <= s.len() && s[i] == 110 && s[i + 1] == 117 && s[i + 2] == 108 && s[i + 3] == 108
}

/// A boolean value starting at `i`, with the index just past it.
pub open spec fn bool_at(s: Seq<u8>, i: int) -> Option<(bool, int)> {
    if true_at(s, i) {
        Some((true, i + 4))
    } else if false_at(s, i) {
        Some((false, i + 5))
    } else {
        None
    }
}

/// The index just past a JSON number starting at `i`: an optional minus,
/// an integer part (`0`, or digits not starting with `0`), an optional
/// fraction, an optional exponent. A malformed tail (`1.`, `1e`, `007`)
/// ends the number early and is then rejected by whatever must follow a
/// value.
pub open spec fn number_end(s: Seq<u8>, i: int) -> Option<int> {
    let i1 = if 0 <= i < s.len() && s[i] == 45 {
        i + 1
    } else {
        i
    };
    if !(0 <= i1 < s.len() && is_digit(s[i1])) {
        None
    } else {
        let i2 = if s[i1] == 48 {
            i1 + 1
        } else {
            digits_end(s, i1)
        };
        let i3 = if i2 < s.len() && s[i2] == 46 && i2 + 1 < s.len() && is_digit(s[i2 + 1]) {
            digits_end(s, i2 + 1)
        } else {
            i2
        };
        let i4 = if i3 < s.len() && (s[i3] == 101 || s[i3] == 69) {
            let ie = if i3 + 1 < s.len() && (s[i3 + 1] == 43 || s[i3 + 1] == 45) {
                i3 + 2
            } else {
                i3 + 1
            };
            if ie < s.len() && is_digit(s[ie]) {
                digits_end(s, ie)
            } else {
                i3
            }
        } else {
            i3
        };
        Some(i4)
    }
}

pub proof fn lemma_number_end_bounds(s: Seq<u8>, i: int)
    requires
        0 <= i <= s.len(),
    ensures
        match number_end(s, i) {
            Some(j) => i < j <= s.len(),
            None => true,
        },
{
    let i1 = if 0 <= i < s.len() && s[i] == 45 {
        i + 1
    } else {
        i
    };
    if 0 <= i1 < s.len() && is_digit(s[i1]) {
        lemma_digits_end_bounds(s, i1 + 1);
        assert(digits_end(s, i1) == digits_end(s, i1 + 1));
        let i2 = if s[i1] == 48 {
            i1 + 1
        } else {
            digits_end(s, i1)
        };
        if i2 < s.len() && s[i2] == 46 && i2 + 1 < s.len() && is_digit(s[i2 + 1]) {
            lemma_digits_end_bounds(s, i2 + 1);
        }
        let i3 = if i2 < s.len() && s[i2] == 46 && i2 + 1 < s.len() && is_digit(s[i2 + 1]) {
            digits_end(s, i2 + 1)
        } else {
            i2
        };
        if i3 < s.len() && (s[i3] == 101 || s[i3] == 69) {
            let ie = if i3 + 1 < s.len() && (s[i3 + 1] == 43 || s[i3 + 1] == 45) {
                i3 + 2
            } else {
                i3 + 1
            };
            if ie < s.len() && is_digit(s[ie]) {
                lemma_digits_end_bounds(s, ie);
            }
        }
    }
}

/// How deep an unknown member's value may nest, the way the original
/// parser capped recursion. Anything deeper is malformed.
pub const NESTING_LIMIT: u32 = 128;

/// The index just past any JSON value starting at `i`: a string, a
/// number, `true`, `false`, `null`, or — while `depth` allows — an array
/// or object of such values.
pub open spec fn json_value_end(s: Seq<u8>, i: int, depth: u32) -> Option<int>
    decreases s.len() - i, 0int,
{
    if !(0 <= i < s.len()) {
        None
    } else if s[i] == 34 {
        match string_end(s, i + 1) {
            Some(j) => Some(j + 1),
            None => None,
        }
    } else if s[i] == 45 || is_digit(s[i]) {
        number_end(s, i)
    } else if true_at(s, i) {
        Some(i + 4)
    } else if false_at(s, i) {
        Some(i + 5)
    } else if null_at(s, i) {
        Some(i + 4)
    } else if s[i] == 91 {
        if depth == 0 {
            None
        } else {
            let j = skip_ws(s, i + 1);
            if j < s.len() && s[j] == 93 {
                Some(j + 1)
            } else if i < j && j <= s.len() {
                json_array_items(s, j, (depth - 1) as u32)
            } else {
                None
            }
        }
    } else if s[i] == 123 {
        if depth == 0 {
            None
        } else {
            let j = skip_ws(s, i + 1);
            if j < s.len() && s[j] == 125 {
                Some(j + 1)
            } else if i < j && j <= s.len() {
                json_object_items(s, j, (depth - 1) as u32)
            } else {
                None
            }
        }
    } else {
        None
    }
}

/// The items of an array from the first value at `i` to just past the
/// closing bracket.
pub open spec fn json_array_items(s: Seq<u8>, i: int, depth: u32) -> Option<int>
    decreases s.len() - i, 1int,
{
    match json_value_end(s, i, depth) {
        None => None,
        Some(j) => {
            let j1 = skip_ws(s, j);
            if 0 <= j1 < s.len() && s[j1] == 44 {
                let j2 = skip_ws(s, j1 + 1);
                if i < j2 <= s.len() {
                    json_array_items(s, j2, depth)
                } else {
                    None
                }
            } else if 0 <= j1 < s.len() && s[j1] == 93 {
                Some(j1 + 1)
            } else {
                None
            }
        },
    }
}

/// The members of a nested object from the first key at `i` to just past
/// the closing brace.
pub open spec fn json_object_items(s: Seq<u8>, i: int, depth: u32) -> Option<int>
    decreases s.len() - i, 1int,
{
    if !(0 <= i < s.len() && s[i] == 34) {
        None
    } else {
        match string_end(s, i + 1) {
            None => None,
            Some(k) => {
                let j1 = skip_ws(s, k + 1);
                if !(j1 < s.len() && s[j1] == 58) {
                    None
                } else {
                    let j2 = skip_ws(s, j1 + 1);
                    if i < j2 <= s.len() {
                        match json_value_end(s, j2, depth) {
                            None => None,
                            Some(j3) => {
                                let j4 = skip_ws(s, j3);
                                if 0 <= j4 < s.len() && s[j4] == 44 {
                                    let j5 = skip_ws(s, j4 + 1);
                                    if i < j5 <= s.len() {
                                        json_object_items(s, j5, depth)
                                    } else {
                                        None
                                    }
                                } else if 0 <= j4 < s.len() && s[j4] == 125 {
                                    Some(j4 + 1)
                                } else {
                                    None
                                }
                            },
                        }
                    } else {
                        None
                    }
                }
            },
        }
    }
}

pub proof fn lemma_json_value_end_bounds(s: Seq<u8>, i: int, depth: u32)
    requires
        0 <= i <= s.len(),
    ensures
        match json_value_end(s, i, depth) {
            Some(j) => i < j <= s.len(),
            None => true,
        },
    decreases s.len() - i, 0int,
{
    if 0 <= i < s.len() {
        if s[i] == 34 {
            lemma_string_end_bounds(s, i + 1);
        } else if s[i] == 45 || is_digit(s[i]) {
            lemma_number_end_bounds(s, i);
        } else if s[i] == 91 && depth > 0 {
            let j = skip_ws(s, i + 1);
            lemma_skip_ws_bounds(s, i + 1);
            if !(j < s.len() && s[j] == 93) && i < j && j <= s.len() {
                lemma_json_array_items_bounds(s, j, (depth - 1) as u32);
            }
        } else if s[i] == 123 && depth > 0 {
            let j = skip_ws(s, i + 1);
            lemma_skip_ws_bounds(s, i + 1);
            if !(j < s.len() && s[j] == 125) && i < j && j <= s.len() {
                lemma_json_object_items_bounds(s, j, (depth - 1) as u32);
            }
        }
    }
}

pub proof fn lemma_json_array_items_bounds(s: Seq<u8>, i: int, depth: u32)
    requires
        0 <= i <= s.len(),
    ensures
        match json_array_items(s, i, depth) {
            Some(j) => i < j <= s.len(),
            None => true,
        },
    decreases s.len() - i, 1int,
{
    lemma_json_value_end_bounds(s, i, depth);
    match json_value_end(s, i, depth) {
        None => {},
        Some(j) => {
            let j1 = skip_ws(s, j);
            lemma_skip_ws_bounds(s, j);
            if 0 <= j1 < s.len() && s[j1] == 44 {
                let j2 = skip_ws(s, j1 + 1);
                if i < j2 <= s.len() {
                    lemma_json_array_items_bounds(s, j2, depth);
                }
            }
        },
    }
}

pub proof fn lemma_json_object_items_bounds(s: Seq<u8>, i: int, depth: u32)
    requires
        0 <= i <= s.len(),
    ensures
        match json_object_items(s, i, depth) {
            Some(j) => i < j <= s.len(),
            None => true,
        },
    decreases s.len() - i, 1int,
{
    if 0 <= i < s.len() && s[i] == 34 {
        lemma_string_end_bounds(s, i + 1);
        match string_end(s, i + 1) {
            None => {},
            Some(k) => {
                let j1 = skip_ws(s, k + 1);
                lemma_skip_ws_bounds(s, k + 1);
                if j1 < s.len() && s[j1] == 58 {
                    let j2 = skip_ws(s, j1 + 1);
                    lemma_skip_ws_bounds(s, j1 + 1);
                    if i < j2 <= s.len() {
                        lemma_json_value_end_bounds(s, j2, depth);
                        match json_value_end(s, j2, depth) {
                            None => {},
                            Some(j3) => {
                                let j4 = skip_ws(s, j3);
                                lemma_skip_ws_bounds(s, j3);
                                if 0 <= j4 < s.len() && s[j4] == 44 {
                                    let j5 = skip_ws(s, j4 + 1);
                                    if i < j5 <= s.len() {
                                        lemma_json_object_items_bounds(s, j5, depth);
                                    }
                                }
                            },
                        }
                    }
                }
            },
        }
    }
}

pub open spec fn pool_size_key() -> Seq<u8> {
    seq![
        99u8, 114, 121, 112, 116, 111, 95, 116, 104, 114, 101, 97, 100, 95, 112, 111, 111, 108,
        95, 115, 105, 122, 101,
    ]
}

pub open spec fn backtrace_key() -> Seq<u8> {
    seq![99u8, 111, 108, 108, 101, 99, 116, 95, 98, 97, 99, 107, 116, 114, 97, 99, 101]
}

/// One `"key": value` member starting at `i`, folded into `acc`:
/// a known key must carry a value of its type (an integer that fits 32
/// bits, respectively a boolean) and overwrites its field; an unknown key
/// may carry any accepted value and changes nothing.
pub open spec fn parse_pair(s: Seq<u8>, i: int, acc: ConfigDelta) -> Option<(ConfigDelta, int)> {
    if !(0 <= i < s.len() && s[i] == 34) {
        None
    } else {
        match string_end(s, i + 1) {
            None => None,
            Some(k) => {
                let key = s.subrange(i + 1, k);
                let j1 = skip_ws(s, k + 1);
                if !(j1 < s.len() && s[j1] == 58) {
                    None
                } else {
                    let j2 = skip_ws(s, j1 + 1);
                    if key == pool_size_key() {
                        let e = digits_end(s, j2);
                        if 0 <= j2 < s.len() && is_digit(s[j2]) && digits_value(s, j2, e)
                            <= u32::MAX {
                            Some(
                                (
                                    ConfigDelta {
                                        crypto_thread_pool_size: Some(
                                            digits_value(s, j2, e) as u32,
                                        ),
                                        collect_backtrace: acc.collect_backtrace,
                                    },
                                    e,
                                ),
                            )
                        } else {
                            None
                        }
                    } else if key == backtrace_key() {
                        match bool_at(s, j2) {
                            Some((b, j3)) => Some(
                                (
                                    ConfigDelta {
                                        crypto_thread_pool_size: acc.crypto_thread_pool_size,
                                        collect_backtrace: Some(b),
                                    },
                                    j3,
                                ),
                            ),
                            None => None,
                        }
                    } else {
                        match json_value_end(s, j2, NESTING_LIMIT) {
                            Some(j3) => Some((acc, j3)),
                            None => None,
                        }
                    }
                }
            },
        }
    }
}

pub proof fn lemma_parse_pair_bounds(s: Seq<u8>, i: int, acc: ConfigDelta)
    requires
        0 <= i <= s.len(),
    ensures
        match parse_pair(s, i, acc) {
            Some((d, j)) => i < j <= s.len(),
            None => true,
        },
{
    if 0 <= i < s.len() && s[i] == 34 {
        lemma_string_end_bounds(s, i + 1);
        match string_end(s, i + 1) {
            None => {},
            Some(k) => {
                lemma_skip_ws_bounds(s, k + 1);
                let j1 = skip_ws(s, k + 1);
                if j1 < s.len() && s[j1] == 58 {
                    lemma_skip_ws_bounds(s, j1 + 1);
                    let j2 = skip_ws(s, j1 + 1);
                    lemma_json_value_end_bounds(s, j2, NESTING_LIMIT);
                    if j2 < s.len() && is_digit(s[j2]) {
                        lemma_digits_end_bounds(s, j2 + 1);
                        assert(digits_end(s, j2) == digits_end(s, j2 + 1));
                    }
                }
            },
        }
    }
}

/// The members of an object from `i` on: one member, then either a comma
/// and further members or the index where the closing brace must stand
/// (whitespace already skipped).
pub open spec fn parse_members(s: Seq<u8>, i: int, acc: ConfigDelta) -> Option<
    (ConfigDelta, int),
>
    decreases s.len() - i,
{
    match parse_pair(s, i, acc) {
        None => None,
        Some((acc2, j)) => {
            let j1 = skip_ws(s, j);
            if 0 <= j1 < s.len() && s[j1] == 44 {
                let j2 = skip_ws(s, j1 + 1);
                if i < j2 <= s.len() {
                    parse_members(s, j2, acc2)
                } else {
                    None
                }
            } else {
                Some((acc2, j1))
            }
        },
    }
}

/// The whole configuration input: one object, surrounded by nothing but
/// whitespace. `None` means the input is malformed and is rejected with
/// the invalid-structure code.
pub open spec fn parse_config(s: Seq<u8>) -> Option<ConfigDelta> {
    let i0 = skip_ws(s, 0);
    if !(i0 < s.len() && s[i0] == 123) {
        None
    } else {
        let i1 = skip_ws(s, i0 + 1);
        if i1 < s.len() && s[i1] == 125 {
            if skip_ws(s, i1 + 1) == s.len() {
                Some(empty_delta())
            } else {
                None
            }
        } else {
            match parse_members(s, i1, empty_delta()) {
                None => None,
                Some((d, j)) => {
                    if j < s.len() && s[j] == 125 {
                        if skip_ws(s, j + 1) == s.len() {
                            Some(d)
                        } else {
                            None
                        }
                    } else {
                        None
                    }
                },
            }
        }
    }
}

fn skip_whitespace(s: &[u8], i: usize) -> (r: usize)
    requires
        i <= s@.len(),
    ensures
        r as int == skip_ws(s@, i as int),
        i <= r <= s@.len(),
{
    let mut k = i;
    while k < s.len() && (s[k] == 32 || s[k] == 9 || s[k] == 10 || s[k] == 13)
        invariant
            i <= k <= s@.len(),
            skip_ws(s@, i as int) == skip_ws(s@, k as int),
        decreases s@.len() - k,
    {
        k = k + 1;
    }
    k
}

fn hex_byte(b: u8) -> (r: bool)
    ensures
        r == is_hex(b),
{
    (48 <= b && b <= 57) || (97 <= b && b <= 102) || (65 <= b && b <= 70)
}

fn find_string_end(s: &[u8], i: usize) -> (r: Option<usize>)
    requires
        i <= s@.len(),
    ensures
        match r {
            Some(j) => string_end(s@, i as int) == Some(j as int) && i <= j < s@.len(),
            None => string_end(s@, i as int) is None,
        },
{
    let mut k = i;
    loop
        invariant
            i <= k <= s@.len(),
            string_end(s@, i as int) == string_end(s@, k as int),
        decreases s@.len() - k,
    {
        if k >= s.len() {
            return None;
        }
        let b = s[k];
        if b == 34 {
            return Some(k);
        }
        if b == 92 {
            if s.len() - k > 1 && (s[k + 1] == 34 || s[k + 1] == 92 || s[k + 1] == 47 || s[k + 1]
                == 98 || s[k + 1] == 102 || s[k + 1] == 110 || s[k + 1] == 114 || s[k + 1]
                == 116) {
                k = k + 2;
            } else if s.len() - k > 5 && s[k + 1] == 117 && hex_byte(s[k + 2]) && hex_byte(
                s[k + 3],
            ) && hex_byte(s[k + 4]) && hex_byte(s[k + 5]) {
                k = k + 6;
            } else {
                return None;
            }
        } else if b < 32 {
            return None;
        } else {
            k = k + 1;
        }
    }
}

/// Scan a run of decimal digits from `i`. The second component is the
/// index just past the run; the first is its value, or `None` when the
/// value does not fit in 32 bits.
fn scan_number(s: &[u8], i: usize) -> (r: (Option<u32>, usize))
    requires
        i <= s@.len(),
    ensures
        r.1 as int == digits_end(s@, i as int),
        i <= r.1 <= s@.len(),
        match r.0 {
            Some(v) => digits_value(s@, i as int, r.1 as int) <= u32::MAX && v as nat
                == digits_value(s@, i as int, r.1 as int),
            None => digits_value(s@, i as int, r.1 as int) > u32::MAX,
        },
{
    let mut k = i;
    let mut acc: u64 = 0;
    let mut over: bool = false;
    while k < s.len() && 48 <= s[k] && s[k] <= 57
        invariant
            i <= k <= s@.len(),
            digits_end(s@, i as int) == digits_end(s@, k as int),
            !over ==> acc as nat == digits_value(s@, i as int, k as int) && acc <= u32::MAX,
            over ==> digits_value(s@, i as int, k as int) > u32::MAX,
        decreases s@.len() - k,
    {
        let d = s[k] - 48;
        proof {
            assert(digits_value(s@, i as int, k + 1) == digits_value(s@, i as int, k as int)
                * 10 + d);
        }
        if !over {
            let acc2 = acc * 10 + (d as u64);
            if acc2 > 0xffff_ffff {
                over = true;
            } else {
                acc = acc2;
            }
        }
        k = k + 1;
    }
    if over {
        (None, k)
    } else {
        (Some(acc as u32), k)
    }
}

fn key_is_pool_size(s: &[u8], a: usize, b: usize) -> (r: bool)
    requires
        a <= b <= s@.len(),
    ensures
        r == (s@.subrange(a as int, b as int) == pool_size_key()),
{
    if b - a != 23 {
        proof {
            assert(pool_size_key().len() == 23);
        }
        return false;
    }
    let r = s[a] == 99 && s[a + 1] == 114 && s[a + 2] == 121 && s[a + 3] == 112 && s[a + 4]
        == 116 && s[a + 5] == 111 && s[a + 6] == 95 && s[a + 7] == 116 && s[a + 8] == 104 && s[a
        + 9] == 114 && s[a + 10] == 101 && s[a + 11] == 97 && s[a + 12] == 100 && s[a + 13] == 95
        && s[a + 14] == 112 && s[a + 15] == 111 && s[a + 16] == 111 && s[a + 17] == 108 && s[a
        + 18] == 95 && s[a + 19] == 115 && s[a + 20] == 105 && s[a + 21] == 122 && s[a + 22]
        == 101;
    proof {
        if r {
            assert(s@.subrange(a as int, b as int) =~= pool_size_key());
        } else {
            if s@.subrange(a as int, b as int) == pool_size_key() {
                assert forall|q: int| 0 <= q < 23 implies s@[a + q] == pool_size_key()[q] by {
                    assert(s@.subrange(a as int, b as int)[q] == s@[a + q]);
                }
            }
        }
    }
    r
}

fn key_is_backtrace(s: &[u8], a: usize, b: usize) -> (r: bool)
    requires
        a <= b <= s@.len(),
    ensures
        r == (s@.subrange(a as int, b as int) == backtrace_key()),
{
    if b - a != 17 {
        proof {
            assert(backtrace_key().len() == 17);
        }
        return false;
    }
    let r = s[a] == 99 && s[a + 1] == 111 && s[a + 2] == 108 && s[a + 3] == 108 && s[a + 4]
        == 101 && s[a + 5] == 99 && s[a + 6] == 116 && s[a + 7] == 95 && s[a + 8] == 98 && s[a
        + 9] == 97 && s[a + 10] == 99 && s[a + 11] == 107 && s[a + 12] == 116 && s[a + 13] == 114
        && s[a + 14] == 97 && s[a + 15] == 99 && s[a + 16] == 101;
    proof {
        if r {
            assert(s@.subrange(a as int, b as int) =~= backtrace_key());
        } else {
            if s@.subrange(a as int, b as int) == backtrace_key() {
                assert forall|q: int| 0 <= q < 17 implies s@[a + q] == backtrace_key()[q] by {
                    assert(s@.subrange(a as int, b as int)[q] == s@[a + q]);
                }
            }
        }
    }
    r
}

fn match_bool(s: &[u8], i: usize) -> (r: Option<(bool, usize)>)
    requires
        i <= s@.len(),
    ensures
        match r {
            Some((b, j)) => bool_at(s@, i as int) == Some((b, j as int)) && i < j <= s@.len(),
            None => bool_at(s@, i as int) is None,
        },
{
    if s.len() - i >= 4 && s[i] == 116 && s[i + 1] == 114 && s[i + 2] == 117 && s[i + 3] == 101 {
        Some((true, i + 4))
    } else if s.len() - i >= 5 && s[i] == 102 && s[i + 1] == 97 && s[i + 2] == 108 && s[i + 3]
        == 115 && s[i + 4] == 101 {
        Some((false, i + 5))
    } else {
        None
    }
}

fn skip_number(s: &[u8], i: usize) -> (r: Option<usize>)
    requires
        i <= s@.len(),
    ensures
        match r {
            Some(j) => number_end(s@, i as int) == Some(j as int) && i < j <= s@.len(),
            None => number_end(s@, i as int) is None,
        },
{
    proof {
        lemma_number_end_bounds(s@, i as int);
    }
    let start = if i < s.len() && s[i] == 45 {
        i + 1
    } else {
        i
    };
    if !(start < s.len() && 48 <= s[start] && s[start] <= 57) {
        return None;
    }
    let after_int = if s[start] == 48 {
        start + 1
    } else {
        let (_, e) = scan_number(s, start);
        e
    };
    let mut endpos = after_int;
    if endpos < s.len() && s[endpos] == 46 && s.len() - endpos > 1 && 48 <= s[endpos + 1]
        && s[endpos + 1] <= 57 {
        let (_, e2) = scan_number(s, endpos + 1);
        endpos = e2;
    }
    if endpos < s.len() && (s[endpos] == 101 || s[endpos] == 69) {
        let expstart = if s.len() - endpos > 1 && (s[endpos + 1] == 43 || s[endpos + 1] == 45) {
            endpos + 2
        } else {
            endpos + 1
        };
        if expstart < s.len() && 48 <= s[expstart] && s[expstart] <= 57 {
            let (_, e3) = scan_number(s, expstart);
            endpos = e3;
        }
    }
    Some(endpos)
}

fn skip_json_value(s: &[u8], i: usize, depth: u32) -> (r: Option<usize>)
    requires
        i <= s@.len(),
    ensures
        match r {
            Some(j) => json_value_end(s@, i as int, depth) == Some(j as int) && i < j
                <= s@.len(),
            None => json_value_end(s@, i as int, depth) is None,
        },
    decreases s@.len() - i, 0int,
{
    if i >= s.len() {
        return None;
    }
    let b = s[i];
    if b == 34 {
        match find_string_end(s, i + 1) {
            Some(j) => Some(j + 1),
            None => None,
        }
    } else if b == 45 || (48 <= b && b <= 57) {
        skip_number(s, i)
    } else if s.len() - i >= 4 && b == 116 && s[i + 1] == 114 && s[i + 2] == 117 && s[i + 3]
        == 101 {
        Some(i + 4)
    } else if s.len() - i >= 5 && b == 102 && s[i + 1] == 97 && s[i + 2] == 108 && s[i + 3]
        == 115 && s[i + 4] == 101 {
        Some(i + 5)
    } else if s.len() - i >= 4 && b == 110 && s[i + 1] == 117 && s[i + 2] == 108 && s[i + 3]
        == 108 {
        Some(i + 4)
    } else if b == 91 {
        if depth == 0 {
            return None;
        }
        let j = skip_whitespace(s, i + 1);
        if j < s.len() && s[j] == 93 {
            Some(j + 1)
        } else if i < j {
            skip_array_items(s, j, depth - 1)
        } else {
            None
        }
    } else if b == 123 {
        if depth == 0 {
            return None;
        }
        let j = skip_whitespace(s, i + 1);
        if j < s.len() && s[j] == 125 {
            Some(j + 1)
        } else if i < j {
            skip_object_items(s, j, depth - 1)
        } else {
            None
        }
    } else {
        None
    }
}

fn skip_array_items(s: &[u8], i: usize, depth: u32) -> (r: Option<usize>)
    requires
        i <= s@.len(),
    ensures
        match r {
            Some(j) => json_array_items(s@, i as int, depth) == Some(j as int) && i < j
                <= s@.len(),
            None => json_array_items(s@, i as int, depth) is None,
        },
    decreases s@.len() - i, 1int,
{
    let mut cur = i;
    loop
        invariant
            i <= cur <= s@.len(),
            json_array_items(s@, i as int, depth) == json_array_items(s@, cur as int, depth),
        decreases s@.len() - cur,
    {
        let j = match skip_json_value(s, cur, depth) {
            Some(j) => j,
            None => {
                return None;
            },
        };
        let j1 = skip_whitespace(s, j);
        if j1 < s.len() && s[j1] == 44 {
            let j2 = skip_whitespace(s, j1 + 1);
            if cur < j2 {
                cur = j2;
            } else {
                return None;
            }
        } else if j1 < s.len() && s[j1] == 93 {
            return Some(j1 + 1);
        } else {
            return None;
        }
    }
}

fn skip_object_items(s: &[u8], i: usize, depth: u32) -> (r: Option<usize>)
    requires
        i <= s@.len(),
    ensures
        match r {
            Some(j) => json_object_items(s@, i as int, depth) == Some(j as int) && i < j
                <= s@.len(),
            None => json_object_items(s@, i as int, depth) is None,
        },
    decreases s@.len() - i, 1int,
{
    let mut cur = i;
    loop
        invariant
            i <= cur <= s@.len(),
            json_object_items(s@, i as int, depth) == json_object_items(s@, cur as int, depth),
        decreases s@.len() - cur,
    {
        if cur >= s.len() || s[cur] != 34 {
            return None;
        }
        let k = match find_string_end(s, cur + 1) {
            Some(k) => k,
            None => {
                return None;
            },
        };
        let j1 = skip_whitespace(s, k + 1);
        if j1 >= s.len() || s[j1] != 58 {
            return None;
        }
        let j2 = skip_whitespace(s, j1 + 1);
        if !(cur < j2) {
            return None;
        }
        let j3 = match skip_json_value(s, j2, depth) {
            Some(j3) => j3,
            None => {
                return None;
            },
        };
        let j4 = skip_whitespace(s, j3);
        if j4 < s.len() && s[j4] == 44 {
            let j5 = skip_whitespace(s, j4 + 1);
            if cur < j5 {
                cur = j5;
            } else {
                return None;
            }
        } else if j4 < s.len() && s[j4] == 125 {
            return Some(j4 + 1);
        } else {
            return None;
        }
    }
}

fn parse_member(s: &[u8], i: usize, acc: ConfigDelta) -> (r: Option<(ConfigDelta, usize)>)
    requires
        i <= s@.len(),
    ensures
        match r {
            Some((d, j)) => parse_pair(s@, i as int, acc) == Some((d, j as int)) && i < j
                <= s@.len(),
            None => parse_pair(s@, i as int, acc) is None,
        },
{
    if i >= s.len() || s[i] != 34 {
        return None;
    }
    let k = match find_string_end(s, i + 1) {
        Some(k) => k,
        None => {
            return None;
        },
    };
    let j1 = skip_whitespace(s, k + 1);
    if j1 >= s.len() || s[j1] != 58 {
        return None;
    }
    let j2 = skip_whitespace(s, j1 + 1);
    if key_is_pool_size(s, i + 1, k) {
        if j2 < s.len() && 48 <= s[j2] && s[j2] <= 57 {
            let (v, e) = scan_number(s, j2);
            match v {
                Some(v) => Some(
                    (
                        ConfigDelta {
                            crypto_thread_pool_size: Some(v),
                            collect_backtrace: acc.collect_backtrace,
                        },
                        e,
                    ),
                ),
                None => None,
            }
        } else {
            None
        }
    } else if key_is_backtrace(s, i + 1, k) {
        match match_bool(s, j2) {
            Some((b, j3)) => Some(
                (
                    ConfigDelta {
                        crypto_thread_pool_size: acc.crypto_thread_pool_size,
                        collect_backtrace: Some(b),
                    },
                    j3,
                ),
            ),
            None => None,
        }
    } else {
        match skip_json_value(s, j2, NESTING_LIMIT) {
            Some(j3) => Some((acc, j3)),
            None => None,
        }
    }
}

fn parse_object_members(s: &[u8], i: usize, acc: ConfigDelta) -> (r: Option<
    (ConfigDelta, usize),
>)
    requires
        i <= s@.len(),
    ensures
        match r {
            Some((d, j)) => parse_members(s@, i as int, acc) == Some((d, j as int)) && j
                <= s@.len(),
            None => parse_members(s@, i as int, acc) is None,
        },
{
    let mut cur = i;
    let mut delta = acc;
    loop
        invariant
            cur <= s@.len(),
            parse_members(s@, i as int, acc) == parse_members(s@, cur as int, delta),
        decreases s@.len() - cur,
    {
        let (d2, j) = match parse_member(s, cur, delta) {
            Some(p) => p,
            None => {
                return None;
            },
        };
        let j1 = skip_whitespace(s, j);
        if j1 < s.len() && s[j1] == 44 {
            let j2 = skip_whitespace(s, j1 + 1);
            if cur < j2 && j2 <= s.len() {
                cur = j2;
                delta = d2;
            } else {
                return None;
            }
        } else {
            return Some((d2, j1));
        }
    }
}

/// Parse the configuration input. `Some` carries what the object
/// specifies; `None` means the input is malformed.
pub fn parse_config_bytes(s: &[u8]) -> (r: Option<ConfigDelta>)
    ensures
        r == parse_config(s@),
{
    let i0 = skip_whitespace(s, 0);
    if i0 >= s.len() || s[i0] != 123 {
        return None;
    }
    let i1 = skip_whitespace(s, i0 + 1);
    if i1 < s.len() && s[i1] == 125 {
        let i2 = skip_whitespace(s, i1 + 1);
        if i2 == s.len() {
            Some(ConfigDelta { crypto_thread_pool_size: None, collect_backtrace: None })
        } else {
            None
        }
    } else {
        match parse_object_members(
            s,
            i1,
            ConfigDelta { crypto_thread_pool_size: None, collect_backtrace: None },
        ) {
            None => None,
            Some((d, j)) => {
                if j < s.len() && s[j] == 125 {
                    if skip_whitespace(s, j + 1) == s.len() {
                        Some(d)
                    } else {
                        None
                    }
                } else {
                    None
                }
            },
        }
    }
}

} // verus!
