//! Deterministic JSON serialization of [`Value`] trees.
//!
//! [`json_of`] is the specification of the emitted text; [`to_json`]
//! produces exactly it.  Strings are escaped the way the common JSON
//! emitters escape them: quote, backslash and the named control
//! characters get two-character escapes, every other control character
//! a lowercase `\u00..` escape, and everything else passes through.

use vstd::prelude::*;

use crate::text::{push_char, to_chars};
use crate::value::Value;

verus! {

broadcast use vstd::std_specs::vec::axiom_vec_index_decreases;

/// The hexadecimal digit character for `d`, lowercase.
pub open spec fn hex_digit(d: u32) -> char {
    if d == 0 {
        '0'
    } else if d == 1 {
        '1'
    } else if d == 2 {
        '2'
    } else if d == 3 {
        '3'
    } else if d == 4 {
        '4'
    } else if d == 5 {
        '5'
    } else if d == 6 {
        '6'
    } else if d == 7 {
        '7'
    } else if d == 8 {
        '8'
    } else if d == 9 {
        '9'
    } else if d == 10 {
        'a'
    } else if d == 11 {
        'b'
    } else if d == 12 {
        'c'
    } else if d == 13 {
        'd'
    } else if d == 14 {
        'e'
    } else {
        'f'
    }
}

/// How one character is written inside a JSON string literal.
pub open spec fn escape_char(c: char) -> Seq<char> {
    if c == '"' {
        seq!['\\', '"']
    } else if c == '\\' {
        seq!['\\', '\\']
    } else if c == '\n' {
        seq!['\\', 'n']
    } else if c == '\r' {
        seq!['\\', 'r']
    } else if c == '\t' {
        seq!['\\', 't']
    } else if c == '\u{8}' {
        seq!['\\', 'b']
    } else if c == '\u{c}' {
        seq!['\\', 'f']
    } else if (c as u32) < 32 {
        seq!['\\', 'u', '0', '0', hex_digit((c as u32) / 16), hex_digit((c as u32) % 16)]
    } else {
        seq![c]
    }
}

/// A whole string escaped for a JSON string literal.
pub open spec fn json_escaped(s: Seq<char>) -> Seq<char>
    decreases s.len(),
{
    if s.len() == 0 {
        s
    } else {
        json_escaped(s.drop_last()) + escape_char(s.last())
    }
}

/// The JSON text of a value.
pub open spec fn json_of(v: Value) -> Seq<char>
    decreases v,
{
    match v {
        Value::Null => seq!['n', 'u', 'l', 'l'],
        Value::Bool(b) => if b {
            seq!['t', 'r', 'u', 'e']
        } else {
            seq!['f', 'a', 'l', 's', 'e']
        },
        Value::Num(s) => s@,
        Value::Str(s) => seq!['"'] + json_escaped(s@) + seq!['"'],
        Value::Arr(items) => seq!['['] + json_of_items(items@) + seq![']'],
        Value::Obj(pairs) => seq!['{'] + json_of_pairs(pairs@) + seq!['}'],
    }
}

/// Array elements' JSON texts joined with commas.
pub open spec fn json_of_items(items: Seq<Value>) -> Seq<char>
    decreases items,
{
    if items.len() == 0 {
        Seq::<char>::empty()
    } else if items.len() == 1 {
        json_of(items[0])
    } else {
        json_of_items(items.drop_last()) + seq![','] + json_of(items.last())
    }
}

/// One object field as JSON: the escaped key, a colon, the value.
pub open spec fn json_of_pair(p: (String, Value)) -> Seq<char>
    decreases p,
{
    seq!['"'] + json_escaped(p.0@) + seq!['"', ':'] + json_of(p.1)
}

/// Object fields' JSON texts joined with commas.
pub open spec fn json_of_pairs(pairs: Seq<(String, Value)>) -> Seq<char>
    decreases pairs,
{
    if pairs.len() == 0 {
        Seq::<char>::empty()
    } else if pairs.len() == 1 {
        json_of_pair(pairs[0])
    } else {
        json_of_pairs(pairs.drop_last()) + seq![','] + json_of_pair(pairs.last())
    }
}

/// The hexadecimal digit character, executably.
fn hex_digit_exec(d: u32) -> (c: char)
    requires
        d < 16,
    ensures
        c == hex_digit(d),
{
    if d == 0 {
        '0'
    } else if d == 1 {
        '1'
    } else if d == 2 {
        '2'
    } else if d == 3 {
        '3'
    } else if d == 4 {
        '4'
    } else if d == 5 {
        '5'
    } else if d == 6 {
        '6'
    } else if d == 7 {
        '7'
    } else if d == 8 {
        '8'
    } else if d == 9 {
        '9'
    } else if d == 10 {
        'a'
    } else if d == 11 {
        'b'
    } else if d == 12 {
        'c'
    } else if d == 13 {
        'd'
    } else if d == 14 {
        'e'
    } else {
        'f'
    }
}

/// Escapes `s` for use inside a JSON string literal.
pub fn json_escape_text(s: &str) -> (r: String)
    ensures
        r@ == json_escaped(s@),
{
    let v = to_chars(s);
    let mut out = String::new();
    let mut i: usize = 0;
    proof {
        assert(v@.subrange(0, 0) =~= Seq::<char>::empty());
    }
    while i < v.len()
        invariant
            i <= v@.len(),
            v@ == s@,
            out@ == json_escaped(v@.subrange(0, i as int)),
        decreases v@.len() - i,
    {
        let c = v[i];
        let ghost pre = v@.subrange(0, i as int);
        proof {
            assert(v@.subrange(0, i + 1 as int) =~= pre.push(c));
            assert(pre.push(c).drop_last() =~= pre);
            assert(json_escaped(pre.push(c)) == json_escaped(pre) + escape_char(c));
        }
        if c == '"' {
            proof {
                reveal_strlit("\\\"");
                assert("\\\""@ =~= escape_char(c));
            }
            out.append("\\\"");
        } else if c == '\\' {
            proof {
                reveal_strlit("\\\\");
                assert("\\\\"@ =~= escape_char(c));
            }
            out.append("\\\\");
        } else if c == '\n' {
            proof {
                reveal_strlit("\\n");
                assert("\\n"@ =~= escape_char(c));
            }
            out.append("\\n");
        } else if c == '\r' {
            proof {
                reveal_strlit("\\r");
                assert("\\r"@ =~= escape_char(c));
            }
            out.append("\\r");
        } else if c == '\t' {
            proof {
                reveal_strlit("\\t");
                assert("\\t"@ =~= escape_char(c));
            }
            out.append("\\t");
        } else if c == '\u{8}' {
            proof {
                reveal_strlit("\\b");
                assert("\\b"@ =~= escape_char(c));
            }
            out.append("\\b");
        } else if c == '\u{c}' {
            proof {
                reveal_strlit("\\f");
                assert("\\f"@ =~= escape_char(c));
            }
            out.append("\\f");
        } else if (c as u32) < 32 {
            proof {
                reveal_strlit("\\u00");
                assert("\\u00"@ =~= seq!['\\', 'u', '0', '0']);
            }
            out.append("\\u00");
            let d = c as u32;
            push_char(&mut out, hex_digit_exec(d / 16));
            push_char(&mut out, hex_digit_exec(d % 16));
            proof {
                assert(out@ =~= json_escaped(pre) + escape_char(c));
            }
        } else {
            push_char(&mut out, c);
            proof {
                assert(out@ =~= json_escaped(pre) + escape_char(c));
            }
        }
        i = i + 1;
    }
    proof {
        assert(v@.subrange(0, v@.len() as int) =~= v@);
    }
    out
}

/// The JSON text of `v`, exactly [`json_of`].
#[verifier::loop_isolation(false)]
pub fn to_json(v: &Value) -> (r: String)
    ensures
        r@ == json_of(*v),
    decreases v,
{
    match v {
        Value::Null => {
            let s = String::from_str("null");
            proof {
                reveal_strlit("null");
                assert(s@ =~= json_of(*v));
            }
            s
        },
        Value::Bool(b) => {
            if *b {
                let s = String::from_str("true");
                proof {
                    reveal_strlit("true");
                    assert(s@ =~= json_of(*v));
                }
                s
            } else {
                let s = String::from_str("false");
                proof {
                    reveal_strlit("false");
                    assert(s@ =~= json_of(*v));
                }
                s
            }
        },
        Value::Num(t) => t.clone(),
        Value::Str(t) => {
            let mut s = String::from_str("\"");
            proof {
                reveal_strlit("\"");
                assert(s@ =~= seq!['"']);
            }
            let inner = json_escape_text(t.as_str());
            s.append(inner.as_str());
            s.append("\"");
            proof {
                assert(s@ =~= json_of(*v));
            }
            s
        },
        Value::Arr(items) => {
            let mut s = String::from_str("[");
            proof {
                reveal_strlit("[");
                assert(s@ =~= seq!['[']);
                assert(items@.subrange(0, 0) =~= Seq::<Value>::empty());
            }
            let mut i: usize = 0;
            while i < items.len()
                invariant
                    i <= items@.len(),
                    s@ == seq!['['] + json_of_items(items@.subrange(0, i as int)),
                decreases items@.len() - i,
            {
                let ghost sub = items@.subrange(0, i as int);
                if i > 0 {
                    proof {
                        reveal_strlit(",");
                        assert(","@ =~= seq![',']);
                    }
                    s.append(",");
                }
                proof {
                    assert(decreases_to!(*v => *items));
                    assert(decreases_to!(*items => items@[i as int]));
                }
                let piece = to_json(&items[i]);
                s.append(piece.as_str());
                proof {
                    assert(items@.subrange(0, i + 1 as int) =~= sub.push(items@[i as int]));
                    assert(sub.push(items@[i as int]).drop_last() =~= sub);
                    if sub.len() == 0 {
                        assert(json_of_items(sub.push(items@[i as int])) == json_of(items@[
                            i as int]));
                        assert(s@ =~= seq!['['] + json_of_items(sub.push(items@[i as int])));
                    } else {
                        assert(json_of_items(sub.push(items@[i as int])) == json_of_items(sub)
                            + seq![','] + json_of(items@[i as int]));
                        assert(s@ =~= seq!['['] + json_of_items(sub.push(items@[i as int])));
                    }
                }
                i = i + 1;
            }
            proof {
                assert(items@.subrange(0, items@.len() as int) =~= items@);
                reveal_strlit("]");
                assert("]"@ =~= seq![']']);
            }
            s.append("]");
            proof {
                assert(s@ =~= json_of(*v));
            }
            s
        },
        Value::Obj(pairs) => {
            let mut s = String::from_str("{");
            proof {
                reveal_strlit("{");
                assert(s@ =~= seq!['{']);
                assert(pairs@.subrange(0, 0) =~= Seq::<(String, Value)>::empty());
            }
            let mut i: usize = 0;
            while i < pairs.len()
                invariant
                    i <= pairs@.len(),
                    s@ == seq!['{'] + json_of_pairs(pairs@.subrange(0, i as int)),
                decreases pairs@.len() - i,
            {
                let ghost sub = pairs@.subrange(0, i as int);
                if i > 0 {
                    proof {
                        reveal_strlit(",");
                        assert(","@ =~= seq![',']);
                    }
                    s.append(",");
                }
                proof {
                    reveal_strlit("\"");
                    assert("\""@ =~= seq!['"']);
                    reveal_strlit("\":");
                    assert("\":"@ =~= seq!['"', ':']);
                }
                s.append("\"");
                let key_text = json_escape_text(pairs[i].0.as_str());
                s.append(key_text.as_str());
                s.append("\":");
                proof {
                    assert(decreases_to!(*v => *pairs));
                    assert(decreases_to!(*pairs => pairs@[i as int]));
                    assert(decreases_to!(pairs@[i as int] => pairs@[i as int].1));
                }
                let piece = to_json(&pairs[i].1);
                s.append(piece.as_str());
                proof {
                    assert(pairs@.subrange(0, i + 1 as int) =~= sub.push(pairs@[i as int]));
                    assert(sub.push(pairs@[i as int]).drop_last() =~= sub);
                    assert(json_of_pair(pairs@[i as int]) == seq!['"'] + json_escaped(pairs@[
                        i as int].0@) + seq!['"', ':'] + json_of(pairs@[i as int].1));
                    if sub.len() == 0 {
                        assert(json_of_pairs(sub.push(pairs@[i as int])) == json_of_pair(pairs@[
                            i as int]));
                        assert(s@ =~= seq!['{'] + json_of_pairs(sub.push(pairs@[i as int])));
                    } else {
                        assert(json_of_pairs(sub.push(pairs@[i as int])) == json_of_pairs(sub)
                            + seq![','] + json_of_pair(pairs@[i as int]));
                        assert(s@ =~= seq!['{'] + json_of_pairs(sub.push(pairs@[i as int])));
                    }
                }
                i = i + 1;
            }
            proof {
                assert(pairs@.subrange(0, pairs@.len() as int) =~= pairs@);
                reveal_strlit("}");
                assert("}"@ =~= seq!['}']);
            }
            s.append("}");
            proof {
                assert(s@ =~= json_of(*v));
            }
            s
        },
    }
}

} // verus!
