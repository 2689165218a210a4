//! Parsing of JSON text into `Json` values.
//!
//! The grammar is the wire format's: the literals `null`, `true`, `false`;
//! numbers without leading zeros; strings with the short escapes and
//! four-digit hexadecimal escapes, surrogate pairs combined, unescaped
//! control characters refused; arrays and objects nested at most
//! `MAX_DEPTH` deep; whitespace allowed around every token; nothing but
//! whitespace after the value. `spec_parse` states the exact result for
//! every input; `parse_json` computes it.

use vstd::prelude::*;
use crate::json::{Json, Jv};
use crate::json::jm;
use crate::chars::{char_of, char_from_u32, lemma_char_of};

verus! {

broadcast use vstd::std_specs::vec::group_vec_axioms;

/// Nesting depth that arrays and objects may not exceed.
pub const MAX_DEPTH: u32 = 128;

/// JSON whitespace.
pub open spec fn is_ws(c: char) -> bool {
    c == ' ' || c == '\t' || c == '\n' || c == '\r'
}

/// A decimal digit.
pub open spec fn is_digit(c: char) -> bool {
    0x30 <= c as u32 && c as u32 <= 0x39
}

/// The first index at or after `i` that holds no whitespace.
pub open spec fn skip_ws(s: Seq<char>, i: int) -> int
    decreases s.len() - i,
{
    if 0 <= i < s.len() && is_ws(s[i]) {
        skip_ws(s, i + 1)
    } else {
        i
    }
}

/// `skip_ws`, held inside `[i, s.len()]`; the two agree wherever parsing
/// looks, and the bound lets every later position be seen to advance.
pub open spec fn ws_to(s: Seq<char>, i: int) -> int {
    let r = skip_ws(s, i);
    if i <= r <= s.len() {
        r
    } else {
        i
    }
}

/// The first index at or after `i` that holds no digit.
pub open spec fn digits_end(s: Seq<char>, i: int) -> int
    decreases s.len() - i,
{
    if 0 <= i < s.len() && is_digit(s[i]) {
        digits_end(s, i + 1)
    } else {
        i
    }
}

/// `digits_end`, held inside `[i, s.len()]`.
pub open spec fn dig_to(s: Seq<char>, i: int) -> int {
    let r = digits_end(s, i);
    if i <= r <= s.len() {
        r
    } else {
        i
    }
}

/// An end position, held inside `(lo, n]` so that parsing always advances.
pub open spec fn clamp_end(lo: int, e: int, n: int) -> int {
    if lo < e <= n {
        e
    } else {
        lo + 1
    }
}

/// The value of a hexadecimal digit.
pub open spec fn hexv(c: char) -> Option<u32> {
    let n = c as u32;
    if 0x30 <= n && n <= 0x39 {
        Some((n - 0x30) as u32)
    } else if 0x61 <= n && n <= 0x66 {
        Some((n - 0x61 + 10) as u32)
    } else if 0x41 <= n && n <= 0x46 {
        Some((n - 0x41 + 10) as u32)
    } else {
        None
    }
}

/// The four hexadecimal digits at `i`, as one number, if all four are there.
pub open spec fn hex4(s: Seq<char>, i: int) -> Option<u32> {
    if 0 <= i && i + 4 <= s.len() {
        match (hexv(s[i]), hexv(s[i + 1]), hexv(s[i + 2]), hexv(s[i + 3])) {
            (Some(a), Some(b), Some(c), Some(d)) => Some((a * 0x1000 + b * 0x100 + c * 0x10 + d) as u32),
            _ => None,
        }
    } else {
        None
    }
}

/// The content of a string literal from `i` (just after the opening quote)
/// to its closing quote: the decoded characters and the index after the
/// quote. Unescaped control characters, bad escapes, and unpaired
/// surrogates give `None`.
pub open spec fn str_body(s: Seq<char>, i: int) -> Option<(Seq<char>, int)>
    decreases s.len() - i,
{
    if !(0 <= i < s.len()) {
        None
    } else {
        let c = s[i];
        if c == '"' {
            Some((Seq::empty(), i + 1))
        } else if c == '\\' {
            if i + 1 >= s.len() {
                None
            } else {
                let e = s[i + 1];
                if e == 'u' {
                    match hex4(s, i + 2) {
                        None => None,
                        Some(n) => {
                            if 0xD800 <= n && n < 0xDC00 {
                                // high surrogate: a low one must follow
                                if s.len() - i >= 12 && s[i + 6] == '\\' && s[i + 7] == 'u' {
                                    match hex4(s, i + 8) {
                                        None => None,
                                        Some(n2) => {
                                            if 0xDC00 <= n2 && n2 < 0xE000 {
                                                let m = (0x10000 + (n - 0xD800) * 0x400 + (n2
                                                    - 0xDC00)) as u32;
                                                match str_body(s, i + 12) {
                                                    None => None,
                                                    Some((cs, e2)) => Some(
                                                        (seq![char_of(m)] + cs, e2),
                                                    ),
                                                }
                                            } else {
                                                None
                                            }
                                        },
                                    }
                                } else {
                                    None
                                }
                            } else if 0xDC00 <= n && n < 0xE000 {
                                None
                            } else {
                                match str_body(s, i + 6) {
                                    None => None,
                                    Some((cs, e2)) => Some((seq![char_of(n)] + cs, e2)),
                                }
                            }
                        },
                    }
                } else {
                    let dec: Option<char> = if e == '"' {
                        Some('"')
                    } else if e == '\\' {
                        Some('\\')
                    } else if e == '/' {
                        Some('/')
                    } else if e == 'b' {
                        Some('\u{8}')
                    } else if e == 'f' {
                        Some('\u{c}')
                    } else if e == 'n' {
                        Some('\n')
                    } else if e == 'r' {
                        Some('\r')
                    } else if e == 't' {
                        Some('\t')
                    } else {
                        None
                    };
                    match dec {
                        None => None,
                        Some(d) => match str_body(s, i + 2) {
                            None => None,
                            Some((cs, e2)) => Some((seq![d] + cs, e2)),
                        },
                    }
                }
            }
        } else if (c as u32) < 0x20 {
            None
        } else {
            match str_body(s, i + 1) {
                None => None,
                Some((cs, e2)) => Some((seq![c] + cs, e2)),
            }
        }
    }
}

/// The index just past the number that starts at `i`, if a well-formed
/// number starts there: optional minus, an integer part without leading
/// zeros, optional fraction, optional exponent.
pub open spec fn num_end(s: Seq<char>, i: int) -> Option<int> {
    let j = if 0 <= i < s.len() && s[i] == '-' {
        i + 1
    } else {
        i
    };
    if !(0 <= j < s.len() && is_digit(s[j])) {
        None
    } else {
        let k = if s[j] == '0' {
            j + 1
        } else {
            dig_to(s, j)
        };
        let k2o: Option<int> = if k < s.len() && s[k] == '.' {
            if k + 1 < s.len() && is_digit(s[k + 1]) {
                Some(dig_to(s, k + 1))
            } else {
                None
            }
        } else {
            Some(k)
        };
        match k2o {
            None => None,
            Some(k2) => {
                if k2 < s.len() && (s[k2] == 'e' || s[k2] == 'E') {
                    let k3 = if k2 + 1 < s.len() && (s[k2 + 1] == '+' || s[k2 + 1] == '-') {
                        k2 + 2
                    } else {
                        k2 + 1
                    };
                    if k3 < s.len() && is_digit(s[k3]) {
                        Some(dig_to(s, k3))
                    } else {
                        None
                    }
                } else {
                    Some(k2)
                }
            },
        }
    }
}

/// The value that starts at or after `i` (whitespace skipped), and the
/// index just past it. `depth` bounds how deep arrays and objects may
/// still nest.
pub open spec fn value_at(s: Seq<char>, i: int, depth: int) -> Option<(Jv, int)>
    decreases s.len() - i, 0int,
{
    let j = ws_to(s, i);
    if j >= s.len() {
        None
    } else {
        let c = s[j];
        if c == 'n' {
            if j + 4 <= s.len() && s[j + 1] == 'u' && s[j + 2] == 'l' && s[j + 3] == 'l' {
                Some((Jv::Null, j + 4))
            } else {
                None
            }
        } else if c == 't' {
            if j + 4 <= s.len() && s[j + 1] == 'r' && s[j + 2] == 'u' && s[j + 3] == 'e' {
                Some((Jv::Bool(true), j + 4))
            } else {
                None
            }
        } else if c == 'f' {
            if j + 5 <= s.len() && s[j + 1] == 'a' && s[j + 2] == 'l' && s[j + 3] == 's' && s[j + 4]
                == 'e' {
                Some((Jv::Bool(false), j + 5))
            } else {
                None
            }
        } else if c == '"' {
            match str_body(s, j + 1) {
                None => None,
                Some((cs, e)) => Some((Jv::Str(cs), e)),
            }
        } else if c == '-' || is_digit(c) {
            match num_end(s, j) {
                None => None,
                Some(e) => {
                    let ec = clamp_end(j, e, s.len() as int);
                    Some((Jv::Num(s.subrange(j, ec)), ec))
                },
            }
        } else if c == '[' {
            if depth <= 0 {
                None
            } else {
                let w = ws_to(s, j + 1);
                if w < s.len() && s[w] == ']' {
                    Some((Jv::Arr(Seq::empty()), w + 1))
                } else {
                    match elems(s, j + 1, depth - 1) {
                        None => None,
                        Some((es, e)) => Some((Jv::Arr(es), e)),
                    }
                }
            }
        } else if c == '{' {
            if depth <= 0 {
                None
            } else {
                let w = ws_to(s, j + 1);
                if w < s.len() && s[w] == '}' {
                    Some((Jv::Obj(Seq::empty()), w + 1))
                } else {
                    match members(s, j + 1, depth - 1) {
                        None => None,
                        Some((fs, e)) => Some((Jv::Obj(fs), e)),
                    }
                }
            }
        } else {
            None
        }
    }
}

/// One or more array elements from `i`, up to and past the closing
/// bracket.
pub open spec fn elems(s: Seq<char>, i: int, depth: int) -> Option<(Seq<Jv>, int)>
    decreases s.len() - i, 1int,
{
    match value_at(s, i, depth) {
        None => None,
        Some((v, e)) => {
            let e1 = clamp_end(i, e, s.len() as int);
            let w = ws_to(s, e1);
            if w < s.len() && s[w] == ',' {
                match elems(s, w + 1, depth) {
                    None => None,
                    Some((rest, e2)) => Some((seq![v] + rest, e2)),
                }
            } else if w < s.len() && s[w] == ']' {
                Some((seq![v], w + 1))
            } else {
                None
            }
        },
    }
}

/// One or more object members from `i`, up to and past the closing brace.
pub open spec fn members(s: Seq<char>, i: int, depth: int) -> Option<
    (Seq<(Seq<char>, Jv)>, int),
>
    decreases s.len() - i, 1int,
{
    let w0 = ws_to(s, i);
    if !(w0 < s.len() && s[w0] == '"') {
        None
    } else {
        match str_body(s, w0 + 1) {
            None => None,
            Some((key, e0)) => {
                let e1 = clamp_end(w0, e0, s.len() as int);
                let w1 = ws_to(s, e1);
                if !(w1 < s.len() && s[w1] == ':') {
                    None
                } else {
                    match value_at(s, w1 + 1, depth) {
                        None => None,
                        Some((v, e2)) => {
                            let e3 = clamp_end(w1, e2, s.len() as int);
                            let w2 = ws_to(s, e3);
                            if w2 < s.len() && s[w2] == ',' {
                                match members(s, w2 + 1, depth) {
                                    None => None,
                                    Some((rest, e4)) => Some((seq![(key, v)] + rest, e4)),
                                }
                            } else if w2 < s.len() && s[w2] == '}' {
                                Some((seq![(key, v)], w2 + 1))
                            } else {
                                None
                            }
                        },
                    }
                }
            },
        }
    }
}

/// The value of a whole text: one value, whitespace allowed around it,
/// nothing after it.
pub open spec fn spec_parse(s: Seq<char>) -> Option<Jv> {
    match value_at(s, 0, MAX_DEPTH as int) {
        None => None,
        Some((m, e)) => {
            let ec = clamp_end(0, e, s.len() as int);
            if ws_to(s, ec) == s.len() {
                Some(m)
            } else {
                None
            }
        },
    }
}

/// Whitespace test, as `is_ws` states.
fn is_ws_x(c: char) -> (r: bool)
    ensures
        r == is_ws(c),
{
    c == ' ' || c == '\t' || c == '\n' || c == '\r'
}

/// Digit test, as `is_digit` states.
fn is_digit_x(c: char) -> (r: bool)
    ensures
        r == is_digit(c),
{
    let n = c as u32;
    0x30 <= n && n <= 0x39
}

/// The first non-whitespace index at or after `i`.
fn x_skip_ws(s: &Vec<char>, i: usize) -> (r: usize)
    requires
        i <= s@.len(),
    ensures
        i <= r <= s@.len(),
        r as int == ws_to(s@, i as int),
{
    let n: usize = s.len();
    let mut r: usize = i;
    while r < n && is_ws_x(s[r])
        invariant
            i <= r <= n,
            n == s@.len(),
            skip_ws(s@, i as int) == skip_ws(s@, r as int),
        decreases n - r,
    {
        r = r + 1;
    }
    proof {
        assert(skip_ws(s@, r as int) == r as int);
    }
    r
}

/// The first non-digit index at or after `i`.
fn x_digits_end(s: &Vec<char>, i: usize) -> (r: usize)
    requires
        i <= s@.len(),
    ensures
        i <= r <= s@.len(),
        r as int == dig_to(s@, i as int),
        i < s@.len() && is_digit(s@[i as int]) ==> i < r,
{
    let n: usize = s.len();
    let mut r: usize = i;
    while r < n && is_digit_x(s[r])
        invariant
            i <= r <= n,
            n == s@.len(),
            digits_end(s@, i as int) == digits_end(s@, r as int),
        decreases n - r,
    {
        r = r + 1;
    }
    proof {
        assert(digits_end(s@, r as int) == r as int);
    }
    r
}

/// The value of a hexadecimal digit, as `hexv` states.
fn x_hexv(c: char) -> (r: Option<u32>)
    ensures
        r == hexv(c),
{
    let n = c as u32;
    if 0x30 <= n && n <= 0x39 {
        Some(n - 0x30)
    } else if 0x61 <= n && n <= 0x66 {
        Some(n - 0x61 + 10)
    } else if 0x41 <= n && n <= 0x46 {
        Some(n - 0x41 + 10)
    } else {
        None
    }
}

/// The four hexadecimal digits at `i`, as `hex4` states.
fn x_hex4(s: &Vec<char>, i: usize) -> (r: Option<u32>)
    requires
        i <= s@.len(),
    ensures
        r == hex4(s@, i as int),
{
    if s.len() - i < 4 {
        return None;
    }
    let (a, b, c, d) = (x_hexv(s[i]), x_hexv(s[i + 1]), x_hexv(s[i + 2]), x_hexv(s[i + 3]));
    match (a, b, c, d) {
        (Some(a), Some(b), Some(c), Some(d)) => Some(a * 0x1000 + b * 0x100 + c * 0x10 + d),
        _ => None,
    }
}

/// String content from `i`, as `str_body` states.
fn x_str_body(s: &Vec<char>, i: usize) -> (r: Option<(Vec<char>, usize)>)
    requires
        i <= s@.len(),
    ensures
        match r {
            Some(p) => {
                &&& str_body(s@, i as int) == Some((p.0@, p.1 as int))
                &&& i < p.1 <= s@.len()
            },
            None => str_body(s@, i as int) is None,
        },
    decreases s@.len() - i,
{
    if i >= s.len() {
        return None;
    }
    let c = s[i];
    if c == '"' {
        Some((Vec::new(), i + 1))
    } else if c == '\\' {
        if i + 1 >= s.len() {
            return None;
        }
        let e = s[i + 1];
        if e == 'u' {
            match x_hex4(s, i + 2) {
                None => None,
                Some(n) => {
                    if 0xD800 <= n && n < 0xDC00 {
                        if s.len() - i >= 12 && s[i + 6] == '\\' && s[i + 7] == 'u' {
                            match x_hex4(s, i + 8) {
                                None => None,
                                Some(n2) => {
                                    if 0xDC00 <= n2 && n2 < 0xE000 {
                                        let m: u32 = 0x10000 + (n - 0xD800) * 0x400 + (n2 - 0xDC00);
                                        let co = char_from_u32(m);
                                        match co {
                                            None => {
                                                // unreachable: m is a valid scalar value
                                                proof {
                                                    assert(0x10000 <= m <= 0x10FFFF);
                                                }
                                                None
                                            },
                                            Some(ch) => {
                                                proof {
                                                    lemma_char_of(ch, m);
                                                }
                                                match x_str_body(s, i + 12) {
                                                    None => None,
                                                    Some((mut cs, e2)) => {
                                                        cs.insert(0, ch);
                                                        Some((cs, e2))
                                                    },
                                                }
                                            },
                                        }
                                    } else {
                                        None
                                    }
                                },
                            }
                        } else {
                            None
                        }
                    } else if 0xDC00 <= n && n < 0xE000 {
                        None
                    } else {
                        let co = char_from_u32(n);
                        match co {
                            None => {
                                proof {
                                    assert(n < 0xD800 || (0xE000 <= n && n <= 0xFFFF));
                                }
                                None
                            },
                            Some(ch) => {
                                proof {
                                    lemma_char_of(ch, n);
                                }
                                match x_str_body(s, i + 6) {
                                    None => None,
                                    Some((mut cs, e2)) => {
                                        cs.insert(0, ch);
                                        Some((cs, e2))
                                    },
                                }
                            },
                        }
                    }
                },
            }
        } else {
            let dec: Option<char> = if e == '"' {
                Some('"')
            } else if e == '\\' {
                Some('\\')
            } else if e == '/' {
                Some('/')
            } else if e == 'b' {
                Some('\u{8}')
            } else if e == 'f' {
                Some('\u{c}')
            } else if e == 'n' {
                Some('\n')
            } else if e == 'r' {
                Some('\r')
            } else if e == 't' {
                Some('\t')
            } else {
                None
            };
            match dec {
                None => None,
                Some(d) => match x_str_body(s, i + 2) {
                    None => None,
                    Some((mut cs, e2)) => {
                        cs.insert(0, d);
                        Some((cs, e2))
                    },
                },
            }
        }
    } else if (c as u32) < 0x20 {
        None
    } else {
        match x_str_body(s, i + 1) {
            None => None,
            Some((mut cs, e2)) => {
                cs.insert(0, c);
                Some((cs, e2))
            },
        }
    }
}

/// The end of a number starting at `i`, as `num_end` states.
fn x_num_end(s: &Vec<char>, i: usize) -> (r: Option<usize>)
    requires
        i <= s@.len(),
    ensures
        match r {
            Some(e) => num_end(s@, i as int) == Some(e as int) && i < e <= s@.len(),
            None => num_end(s@, i as int) is None,
        },
{
    let n = s.len();
    let j: usize = if i < n && s[i] == '-' {
        i + 1
    } else {
        i
    };
    if !(j < n && is_digit_x(s[j])) {
        return None;
    }
    let k: usize = if s[j] == '0' {
        j + 1
    } else {
        x_digits_end(s, j)
    };
    let k2: usize = if k < n && s[k] == '.' {
        if k + 1 < n && is_digit_x(s[k + 1]) {
            x_digits_end(s, k + 1)
        } else {
            return None;
        }
    } else {
        k
    };
    if k2 < n && (s[k2] == 'e' || s[k2] == 'E') {
        let k3: usize = if k2 + 1 < n && (s[k2 + 1] == '+' || s[k2 + 1] == '-') {
            k2 + 2
        } else {
            k2 + 1
        };
        if k3 < n && is_digit_x(s[k3]) {
            Some(x_digits_end(s, k3))
        } else {
            None
        }
    } else {
        Some(k2)
    }
}

/// The value at or after `i`, as `value_at` states.
fn x_value(s: &Vec<char>, i: usize, depth: u32) -> (r: Option<(Json, usize)>)
    requires
        i <= s@.len(),
    ensures
        match r {
            Some(p) => {
                &&& value_at(s@, i as int, depth as int) == Some((jm(p.0), p.1 as int))
                &&& i < p.1 <= s@.len()
            },
            None => value_at(s@, i as int, depth as int) is None,
        },
    decreases s@.len() - i, 0int,
{
    let n = s.len();
    let j = x_skip_ws(s, i);
    if j >= n {
        return None;
    }
    let c = s[j];
    if c == 'n' {
        if n - j >= 4 && s[j + 1] == 'u' && s[j + 2] == 'l' && s[j + 3] == 'l' {
            Some((Json::Null, j + 4))
        } else {
            None
        }
    } else if c == 't' {
        if n - j >= 4 && s[j + 1] == 'r' && s[j + 2] == 'u' && s[j + 3] == 'e' {
            Some((Json::Bool(true), j + 4))
        } else {
            None
        }
    } else if c == 'f' {
        if n - j >= 5 && s[j + 1] == 'a' && s[j + 2] == 'l' && s[j + 3] == 's' && s[j + 4] == 'e' {
            Some((Json::Bool(false), j + 5))
        } else {
            None
        }
    } else if c == '"' {
        match x_str_body(s, j + 1) {
            None => None,
            Some((cs, e)) => Some((Json::Str(cs), e)),
        }
    } else if c == '-' || is_digit_x(c) {
        match x_num_end(s, j) {
            None => None,
            Some(e) => {
                let mut text: Vec<char> = Vec::new();
                let mut t: usize = j;
                while t < e
                    invariant
                        j <= t <= e <= s@.len(),
                        text@ == s@.subrange(j as int, t as int),
                    decreases e - t,
                {
                    text.push(s[t]);
                    t = t + 1;
                    proof {
                        assert(text@ =~= s@.subrange(j as int, t as int));
                    }
                }
                proof {
                    assert(clamp_end(j as int, e as int, s@.len() as int) == e as int);
                }
                Some((Json::Num(text), e))
            },
        }
    } else if c == '[' {
        if depth == 0 {
            return None;
        }
        let w = x_skip_ws(s, j + 1);
        if w < n && s[w] == ']' {
            let empty: Vec<Json> = Vec::new();
            proof {
                assert(jm(Json::Arr(empty))->Arr_0 =~= Seq::<Jv>::empty());
            }
            Some((Json::Arr(empty), w + 1))
        } else {
            match x_elems(s, j + 1, depth - 1) {
                None => None,
                Some((es, e)) => Some((Json::Arr(es), e)),
            }
        }
    } else if c == '{' {
        if depth == 0 {
            return None;
        }
        let w = x_skip_ws(s, j + 1);
        if w < n && s[w] == '}' {
            let empty: Vec<(Vec<char>, Json)> = Vec::new();
            proof {
                assert(jm(Json::Obj(empty))->Obj_0 =~= Seq::<(Seq<char>, Jv)>::empty());
            }
            Some((Json::Obj(empty), w + 1))
        } else {
            match x_members(s, j + 1, depth - 1) {
                None => None,
                Some((fs, e)) => Some((Json::Obj(fs), e)),
            }
        }
    } else {
        None
    }
}

/// Array elements from `i`, as `elems` states.
fn x_elems(s: &Vec<char>, i: usize, depth: u32) -> (r: Option<(Vec<Json>, usize)>)
    requires
        i <= s@.len(),
    ensures
        match r {
            Some(p) => {
                &&& elems(s@, i as int, depth as int) matches Some(q) && q.0 == jm(
                    Json::Arr(p.0),
                )->Arr_0 && q.1 == p.1 as int
                &&& i < p.1 <= s@.len()
            },
            None => elems(s@, i as int, depth as int) is None,
        },
    decreases s@.len() - i, 1int,
{
    let n = s.len();
    match x_value(s, i, depth) {
        None => None,
        Some((v, e)) => {
            proof {
                assert(clamp_end(i as int, e as int, s@.len() as int) == e as int);
            }
            let w = x_skip_ws(s, e);
            if w < n && s[w] == ',' {
                match x_elems(s, w + 1, depth) {
                    None => None,
                    Some((mut rest, e2)) => {
                        rest.insert(0, v);
                        proof {
                            let q = elems(s@, i as int, depth as int)->0;
                            assert(jm(Json::Arr(rest))->Arr_0 =~= q.0);
                        }
                        Some((rest, e2))
                    },
                }
            } else if w < n && s[w] == ']' {
                let mut one: Vec<Json> = Vec::new();
                one.push(v);
                proof {
                    let q = elems(s@, i as int, depth as int)->0;
                    assert(jm(Json::Arr(one))->Arr_0 =~= q.0);
                }
                Some((one, w + 1))
            } else {
                None
            }
        },
    }
}

/// Object members from `i`, as `members` states.
fn x_members(s: &Vec<char>, i: usize, depth: u32) -> (r: Option<
    (Vec<(Vec<char>, Json)>, usize),
>)
    requires
        i <= s@.len(),
    ensures
        match r {
            Some(p) => {
                &&& members(s@, i as int, depth as int) matches Some(q) && q.0 == jm(
                    Json::Obj(p.0),
                )->Obj_0 && q.1 == p.1 as int
                &&& i < p.1 <= s@.len()
            },
            None => members(s@, i as int, depth as int) is None,
        },
    decreases s@.len() - i, 1int,
{
    let n = s.len();
    let w0 = x_skip_ws(s, i);
    if !(w0 < n && s[w0] == '"') {
        return None;
    }
    match x_str_body(s, w0 + 1) {
        None => None,
        Some((key, e0)) => {
            proof {
                assert(clamp_end(w0 as int, e0 as int, s@.len() as int) == e0 as int);
            }
            let w1 = x_skip_ws(s, e0);
            if !(w1 < n && s[w1] == ':') {
                return None;
            }
            match x_value(s, w1 + 1, depth) {
                None => None,
                Some((v, e2)) => {
                    proof {
                        assert(clamp_end(w1 as int, e2 as int, s@.len() as int) == e2 as int);
                    }
                    let w2 = x_skip_ws(s, e2);
                    if w2 < n && s[w2] == ',' {
                        match x_members(s, w2 + 1, depth) {
                            None => None,
                            Some((mut rest, e4)) => {
                                rest.insert(0, (key, v));
                                proof {
                                    let q = members(s@, i as int, depth as int)->0;
                                    assert(jm(Json::Obj(rest))->Obj_0 =~= q.0);
                                }
                                Some((rest, e4))
                            },
                        }
                    } else if w2 < n && s[w2] == '}' {
                        let mut one: Vec<(Vec<char>, Json)> = Vec::new();
                        one.push((key, v));
                        proof {
                            let q = members(s@, i as int, depth as int)->0;
                            assert(jm(Json::Obj(one))->Obj_0 =~= q.0);
                        }
                        Some((one, w2 + 1))
                    } else {
                        None
                    }
                },
            }
        },
    }
}

/// The value of a whole text, as `spec_parse` states.
pub fn parse_json(s: &Vec<char>) -> (r: Option<Json>)
    ensures
        match r {
            Some(j) => spec_parse(s@) == Some(jm(j)),
            None => spec_parse(s@) is None,
        },
{
    match x_value(s, 0, MAX_DEPTH) {
        None => None,
        Some((j, e)) => {
            proof {
                assert(clamp_end(0, e as int, s@.len() as int) == e as int);
            }
            let w = x_skip_ws(s, e);
            if w == s.len() {
                Some(j)
            } else {
                None
            }
        },
    }
}

} // verus!
