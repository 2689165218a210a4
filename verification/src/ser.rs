//! Serialization of `Json` values to compact JSON text.
//!
//! `ser` states the exact text of a value: no spaces, object members in
//! stored order, strings escaped as the wire format asks (quote, backslash,
//! and the control characters, five of them short and the rest as a
//! four-digit lowercase hexadecimal escape).

use vstd::prelude::*;
use crate::json::{Json, Jv, jm};
use crate::chars::chars_to_string;

verus! {

broadcast use vstd::std_specs::vec::group_vec_axioms;

/// The lowercase hexadecimal digit for `n & 0xf`.
pub open spec fn hex_digit(n: u32) -> char {
    let d = n & 0xf;
    if d == 0 {
        '0'
    } else if d == 1 {
        '1'
    } else if d == 2 {
        '2'
    } else if d == 3 {
        '3'
    } else if d == 4 {
        '4'
    } else if d == 5 {
        '5'
    } else if d == 6 {
        '6'
    } else if d == 7 {
        '7'
    } else if d == 8 {
        '8'
    } else if d == 9 {
        '9'
    } else if d == 10 {
        'a'
    } else if d == 11 {
        'b'
    } else if d == 12 {
        'c'
    } else if d == 13 {
        'd'
    } else if d == 14 {
        'e'
    } else {
        'f'
    }
}

/// The escape of one character inside a JSON string literal.
pub open spec fn esc_char(c: char) -> Seq<char> {
    if c == '"' {
        seq!['\\', '"']
    } else if c == '\\' {
        seq!['\\', '\\']
    } else if c == '\u{8}' {
        seq!['\\', 'b']
    } else if c == '\u{c}' {
        seq!['\\', 'f']
    } else if c == '\n' {
        seq!['\\', 'n']
    } else if c == '\r' {
        seq!['\\', 'r']
    } else if c == '\t' {
        seq!['\\', 't']
    } else if (c as u32) < 0x20 {
        seq!['\\', 'u', '0', '0', hex_digit((c as u32) >> 4), hex_digit(c as u32)]
    } else {
        seq![c]
    }
}

/// The escaped text of a whole string content.
pub open spec fn esc_seq(s: Seq<char>) -> Seq<char>
    decreases s.len(),
{
    if s.len() == 0 {
        Seq::empty()
    } else {
        esc_seq(s.drop_last()) + esc_char(s.last())
    }
}

/// The compact JSON text of a value.
pub open spec fn ser(m: Jv) -> Seq<char>
    decreases m,
{
    match m {
        Jv::Null => seq!['n', 'u', 'l', 'l'],
        Jv::Bool(b) => if b {
            seq!['t', 'r', 'u', 'e']
        } else {
            seq!['f', 'a', 'l', 's', 'e']
        },
        Jv::Num(s) => s,
        Jv::Str(s) => seq!['"'] + esc_seq(s) + seq!['"'],
        Jv::Arr(es) => seq!['['] + ser_elems(es) + seq![']'],
        Jv::Obj(fs) => seq!['{'] + ser_fields(fs) + seq!['}'],
    }
}

/// The comma-separated texts of array elements.
pub open spec fn ser_elems(es: Seq<Jv>) -> Seq<char>
    decreases es,
{
    if es.len() == 0 {
        Seq::empty()
    } else if es.len() == 1 {
        ser(es[0])
    } else {
        ser_elems(es.drop_last()) + seq![','] + ser(es[es.len() - 1])
    }
}

/// The comma-separated texts of object members, each `"key":value`.
pub open spec fn ser_field(f: (Seq<char>, Jv)) -> Seq<char>
    decreases f,
{
    seq!['"'] + esc_seq(f.0) + seq!['"', ':'] + ser(f.1)
}

pub open spec fn ser_fields(fs: Seq<(Seq<char>, Jv)>) -> Seq<char>
    decreases fs,
{
    if fs.len() == 0 {
        Seq::empty()
    } else if fs.len() == 1 {
        ser_field(fs[0])
    } else {
        ser_fields(fs.drop_last()) + seq![','] + ser_field(fs[fs.len() - 1])
    }
}

/// The lowercase hexadecimal digit of `n & 0xf`, as `hex_digit` states.
fn hex_digit_x(n: u32) -> (c: char)
    ensures
        c == hex_digit(n),
{
    let d = n & 0xf;
    if d == 0 {
        '0'
    } else if d == 1 {
        '1'
    } else if d == 2 {
        '2'
    } else if d == 3 {
        '3'
    } else if d == 4 {
        '4'
    } else if d == 5 {
        '5'
    } else if d == 6 {
        '6'
    } else if d == 7 {
        '7'
    } else if d == 8 {
        '8'
    } else if d == 9 {
        '9'
    } else if d == 10 {
        'a'
    } else if d == 11 {
        'b'
    } else if d == 12 {
        'c'
    } else if d == 13 {
        'd'
    } else if d == 14 {
        'e'
    } else {
        'f'
    }
}

/// Append the escape of one character.
fn write_esc_char(c: char, out: &mut Vec<char>)
    ensures
        final(out)@ == old(out)@ + esc_char(c),
{
    if c == '"' {
        out.push('\\');
        out.push('"');
    } else if c == '\\' {
        out.push('\\');
        out.push('\\');
    } else if c == '\u{8}' {
        out.push('\\');
        out.push('b');
    } else if c == '\u{c}' {
        out.push('\\');
        out.push('f');
    } else if c == '\n' {
        out.push('\\');
        out.push('n');
    } else if c == '\r' {
        out.push('\\');
        out.push('r');
    } else if c == '\t' {
        out.push('\\');
        out.push('t');
    } else if (c as u32) < 0x20 {
        out.push('\\');
        out.push('u');
        out.push('0');
        out.push('0');
        out.push(hex_digit_x((c as u32) >> 4));
        out.push(hex_digit_x(c as u32));
    } else {
        out.push(c);
    }
    proof {
        assert(out@ =~= old(out)@ + esc_char(c));
    }
}

/// Append the escaped content of a string.
fn write_escaped(s: &Vec<char>, out: &mut Vec<char>)
    ensures
        final(out)@ == old(out)@ + esc_seq(s@),
{
    let n: usize = s.len();
    let mut i: usize = 0;
    proof {
        assert(s@.subrange(0, 0) =~= Seq::<char>::empty());
    }
    while i < n
        invariant
            n == s@.len(),
            i <= n,
            out@ == old(out)@ + esc_seq(s@.subrange(0, i as int)),
        decreases n - i,
    {
        write_esc_char(s[i], out);
        i = i + 1;
        proof {
            let pre = s@.subrange(0, i as int);
            assert(pre.drop_last() =~= s@.subrange(0, i as int - 1));
            assert(pre.last() == s@[i as int - 1]);
        }
    }
    proof {
        assert(s@.subrange(0, n as int) =~= s@);
    }
}

/// Append the characters of a string slice.
fn write_str(s: &str, out: &mut Vec<char>)
    ensures
        final(out)@ == old(out)@ + s@,
{
    let n: usize = s.unicode_len();
    let mut i: usize = 0;
    while i < n
        invariant
            n == s@.len(),
            i <= n,
            out@ == old(out)@ + s@.subrange(0, i as int),
        decreases n - i,
    {
        out.push(s.get_char(i));
        i = i + 1;
        proof {
            assert(old(out)@ + s@.subrange(0, i as int) =~= (old(out)@ + s@.subrange(
                0,
                i as int - 1,
            )).push(s@[i as int - 1]));
        }
    }
    proof {
        assert(s@.subrange(0, n as int) =~= s@);
    }
}

/// Append the compact text of a value, as `ser` states it.
pub fn write_json(j: &Json, out: &mut Vec<char>)
    ensures
        final(out)@ == old(out)@ + ser(jm(*j)),
    decreases *j,
{
    match j {
        Json::Null => {
            write_str("null", out);
            proof {
                reveal_strlit("null");
                assert(out@ =~= old(out)@ + ser(jm(*j)));
            }
        },
        Json::Bool(b) => {
            if *b {
                write_str("true", out);
                proof {
                    reveal_strlit("true");
                    assert(out@ =~= old(out)@ + ser(jm(*j)));
                }
            } else {
                write_str("false", out);
                proof {
                    reveal_strlit("false");
                    assert(out@ =~= old(out)@ + ser(jm(*j)));
                }
            }
        },
        Json::Num(s) => {
            out.extend_from_slice(s.as_slice());
        },
        Json::Str(s) => {
            out.push('"');
            write_escaped(s, out);
            out.push('"');
            proof {
                assert(out@ =~= old(out)@ + ser(jm(*j)));
            }
        },
        Json::Arr(es) => {
            let ghost ems: Seq<Jv> = jm(*j)->Arr_0;
            out.push('[');
            let n: usize = es.len();
            let mut i: usize = 0;
            while i < n
                invariant
                    n == es@.len(),
                    i <= n,
                    ems.len() == n,
                    forall|t: int| 0 <= t < n ==> ems[t] == jm(es@[t]),
                    out@ == old(out)@ + seq!['['] + ser_elems(ems.subrange(0, i as int)),
                    *j == Json::Arr(*es),
                decreases n - i,
            {
                if i > 0 {
                    out.push(',');
                }
                proof {
                    assert(decreases_to!(*es => (*es)[i as int]));
                    assert(decreases_to!(*j => (*j)->Arr_0));
                    assert((*j)->Arr_0 == *es);
                }
                write_json(&es[i], out);
                i = i + 1;
                proof {
                    let pre = ems.subrange(0, i as int);
                    assert(pre.drop_last() =~= ems.subrange(0, i as int - 1));
                    assert(pre[i as int - 1] == ems[i as int - 1]);
                    assert(out@ =~= old(out)@ + seq!['['] + ser_elems(pre));
                }
            }
            out.push(']');
            proof {
                assert(ems.subrange(0, n as int) =~= ems);
                assert(out@ =~= old(out)@ + ser(jm(*j)));
            }
        },
        Json::Obj(fs) => {
            let ghost fms: Seq<(Seq<char>, Jv)> = jm(*j)->Obj_0;
            out.push('{');
            let n: usize = fs.len();
            let mut i: usize = 0;
            while i < n
                invariant
                    n == fs@.len(),
                    i <= n,
                    fms.len() == n,
                    forall|t: int| 0 <= t < n ==> fms[t] == (fs@[t].0@, jm(fs@[t].1)),
                    out@ == old(out)@ + seq!['{'] + ser_fields(fms.subrange(0, i as int)),
                    *j == Json::Obj(*fs),
                decreases n - i,
            {
                if i > 0 {
                    out.push(',');
                }
                out.push('"');
                write_escaped(&fs[i].0, out);
                out.push('"');
                out.push(':');
                proof {
                    assert(decreases_to!((*fs)[i as int] => (*fs)[i as int].1));
                    assert(decreases_to!(*fs => (*fs)[i as int]));
                    assert(decreases_to!(*j => (*j)->Obj_0));
                    assert((*j)->Obj_0 == *fs);
                }
                write_json(&fs[i].1, out);
                i = i + 1;
                proof {
                    let pre = fms.subrange(0, i as int);
                    assert(pre.drop_last() =~= fms.subrange(0, i as int - 1));
                    assert(pre[i as int - 1] == fms[i as int - 1]);
                    assert(ser_field(pre[i as int - 1]) =~= seq!['"'] + esc_seq(fs@[i as int - 1].0@)
                        + seq!['"', ':'] + ser(jm(fs@[i as int - 1].1)));
                    assert(out@ =~= old(out)@ + seq!['{'] + ser_fields(pre));
                }
            }
            out.push('}');
            proof {
                assert(fms.subrange(0, n as int) =~= fms);
                assert(out@ =~= old(out)@ + ser(jm(*j)));
            }
        },
    }
}

/// The compact text of a value, as a string.
pub fn to_json_string(j: &Json) -> (s: String)
    ensures
        s@ == ser(jm(*j)),
{
    let mut out: Vec<char> = Vec::new();
    write_json(j, &mut out);
    chars_to_string(&out)
}

} // verus!
