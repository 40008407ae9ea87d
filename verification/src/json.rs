//! A small JSON reader for the check process's line-delimited output.
//!
//! Each output line is one compact JSON value.  The reader accepts the
//! whole value grammar (so unknown record fields of any shape can be
//! carried and skipped), stores numbers as their raw token text, and
//! decodes the common string escapes plus ASCII `\u00XX` forms.

use vstd::prelude::*;

use crate::text::{digit_val, digit_value, is_digit, is_digit_char, val_acc};

verus! {

/// An owned JSON value.  Numbers keep their raw token text; object
/// members keep their textual order.
pub enum JsonValue {
    Null,
    Bool(bool),
    Num(Vec<char>),
    Str(Vec<char>),
    Arr(Vec<JsonValue>),
    Obj(Vec<(Vec<char>, JsonValue)>),
}

/// View of a JSON value.
pub ghost enum JsonV {
    Null,
    Bool(bool),
    Num(Seq<char>),
    Str(Seq<char>),
    Arr(Seq<JsonV>),
    Obj(Seq<(Seq<char>, JsonV)>),
}

pub open spec fn json_v(v: JsonValue) -> JsonV
    decreases v, 1int,
{
    match v {
        JsonValue::Null => JsonV::Null,
        JsonValue::Bool(b) => JsonV::Bool(b),
        JsonValue::Num(t) => JsonV::Num(t@),
        JsonValue::Str(t) => JsonV::Str(t@),
        JsonValue::Arr(items) => JsonV::Arr(json_arr_v(items@)),
        JsonValue::Obj(members) => JsonV::Obj(json_obj_v(members@)),
    }
}

pub open spec fn json_arr_v(items: Seq<JsonValue>) -> Seq<JsonV>
    decreases items, 0int,
{
    if items.len() == 0 {
        Seq::empty()
    } else {
        seq![json_v(items[0])] + json_arr_v(items.drop_first())
    }
}

pub open spec fn json_obj_v(members: Seq<(Vec<char>, JsonValue)>) -> Seq<(Seq<char>, JsonV)>
    decreases members, 0int,
{
    if members.len() == 0 {
        Seq::empty()
    } else {
        seq![(members[0].0@, json_v(members[0].1))] + json_obj_v(members.drop_first())
    }
}

/// The single-character escapes.
pub open spec fn esc_char(c: char) -> Option<char> {
    if c == '"' {
        Some('"')
    } else if c == '\\' {
        Some('\\')
    } else if c == '/' {
        Some('/')
    } else if c == 'n' {
        Some('\n')
    } else if c == 't' {
        Some('\t')
    } else if c == 'r' {
        Some('\r')
    } else if c == 'b' {
        Some('\u{0008}')
    } else if c == 'f' {
        Some('\u{000c}')
    } else {
        None
    }
}

pub open spec fn is_hex_char(c: char) -> bool {
    is_digit_char(c) || c == 'a' || c == 'b' || c == 'c' || c == 'd' || c == 'e' || c == 'f' || c
        == 'A' || c == 'B' || c == 'C' || c == 'D' || c == 'E' || c == 'F'
}

pub open spec fn hex_val(c: char) -> nat {
    if is_digit_char(c) {
        digit_val(c)
    } else if c == 'a' || c == 'A' {
        10
    } else if c == 'b' || c == 'B' {
        11
    } else if c == 'c' || c == 'C' {
        12
    } else if c == 'd' || c == 'D' {
        13
    } else if c == 'e' || c == 'E' {
        14
    } else if c == 'f' || c == 'F' {
        15
    } else {
        0
    }
}

/// Scan of a string body after the opening quote, decoding escapes; the
/// `\u00XX` form is accepted for ASCII code points only.
pub open spec fn scan_jstr(s: Seq<char>, i: int) -> Option<(Seq<char>, int)>
    decreases s.len() - i,
{
    if i < 0 || i >= s.len() {
        None
    } else if s[i] == '"' {
        Some((Seq::empty(), i + 1))
    } else if s[i] == '\\' {
        if i + 2 > s.len() {
            None
        } else if s[i + 1] == 'u' {
            if i + 6 <= s.len() && s[i + 2] == '0' && s[i + 3] == '0' && is_hex_char(s[i + 4])
                && is_hex_char(s[i + 5]) && hex_val(s[i + 4]) * 16 + hex_val(s[i + 5]) < 128 {
                match scan_jstr(s, i + 6) {
                    None => None,
                    Some((cs, j)) => Some(
                        (seq![((hex_val(s[i + 4]) * 16 + hex_val(s[i + 5])) as u8) as char] + cs, j),
                    ),
                }
            } else {
                None
            }
        } else {
            match esc_char(s[i + 1]) {
                None => None,
                Some(e) => match scan_jstr(s, i + 2) {
                    None => None,
                    Some((cs, j)) => Some((seq![e] + cs, j)),
                },
            }
        }
    } else {
        match scan_jstr(s, i + 1) {
            None => None,
            Some((cs, j)) => Some((seq![s[i]] + cs, j)),
        }
    }
}

pub open spec fn is_num_char(c: char) -> bool {
    is_digit_char(c) || c == '-' || c == '+' || c == '.' || c == 'e' || c == 'E'
}

/// Maximal run of number-token characters starting at `i`.
pub open spec fn scan_numtok(s: Seq<char>, i: int) -> (Seq<char>, int)
    decreases s.len() - i,
{
    if i < 0 || i >= s.len() || !is_num_char(s[i]) {
        (Seq::empty(), i)
    } else {
        let (cs, j) = scan_numtok(s, i + 1);
        (seq![s[i]] + cs, j)
    }
}

/// Clamp used so that list parsing visibly consumes input.
pub open spec fn jbump(i: int, j: int) -> int {
    if j > i {
        j
    } else {
        i + 1
    }
}

pub open spec fn parse_jvalue(s: Seq<char>, i: int) -> Option<(JsonV, int)>
    decreases s.len() - i, 2int,
{
    if i < 0 || i >= s.len() {
        None
    } else if s[i] == 'n' {
        if i + 4 <= s.len() && s[i + 1] == 'u' && s[i + 2] == 'l' && s[i + 3] == 'l' {
            Some((JsonV::Null, i + 4))
        } else {
            None
        }
    } else if s[i] == 't' {
        if i + 4 <= s.len() && s[i + 1] == 'r' && s[i + 2] == 'u' && s[i + 3] == 'e' {
            Some((JsonV::Bool(true), i + 4))
        } else {
            None
        }
    } else if s[i] == 'f' {
        if i + 5 <= s.len() && s[i + 1] == 'a' && s[i + 2] == 'l' && s[i + 3] == 's' && s[i + 4]
            == 'e' {
            Some((JsonV::Bool(false), i + 5))
        } else {
            None
        }
    } else if s[i] == '"' {
        match scan_jstr(s, i + 1) {
            None => None,
            Some((cs, j)) => Some((JsonV::Str(cs), j)),
        }
    } else if s[i] == '[' {
        if i + 1 < s.len() && s[i + 1] == ']' {
            Some((JsonV::Arr(Seq::empty()), i + 2))
        } else {
            match parse_jarr_items(s, i + 1) {
                None => None,
                Some((items, j)) => Some((JsonV::Arr(items), j)),
            }
        }
    } else if s[i] == '{' {
        if i + 1 < s.len() && s[i + 1] == '}' {
            Some((JsonV::Obj(Seq::empty()), i + 2))
        } else {
            match parse_jobj_items(s, i + 1) {
                None => None,
                Some((members, j)) => Some((JsonV::Obj(members), j)),
            }
        }
    } else if is_num_char(s[i]) && (s[i] == '-' || is_digit_char(s[i])) {
        let (tok, j) = scan_numtok(s, i);
        Some((JsonV::Num(tok), j))
    } else {
        None
    }
}

pub open spec fn parse_jarr_items(s: Seq<char>, i: int) -> Option<(Seq<JsonV>, int)>
    decreases s.len() - i, 3int,
{
    if i < 0 || i > s.len() {
        None
    } else {
        match parse_jvalue(s, i) {
            None => None,
            Some((v, j)) => {
                if 0 <= j < s.len() && s[j] == ']' {
                    Some((seq![v], j + 1))
                } else if 0 <= j < s.len() && s[j] == ',' {
                    let k = jbump(i, j + 1);
                    if k > s.len() {
                        None
                    } else {
                        match parse_jarr_items(s, k) {
                            None => None,
                            Some((vs, e)) => Some((seq![v] + vs, e)),
                        }
                    }
                } else {
                    None
                }
            },
        }
    }
}

pub open spec fn parse_jobj_items(s: Seq<char>, i: int) -> Option<(Seq<(Seq<char>, JsonV)>, int)>
    decreases s.len() - i, 3int,
{
    if i < 0 || i + 1 > s.len() || s[i] != '"' {
        None
    } else {
        match scan_jstr(s, i + 1) {
            None => None,
            Some((key, j0)) => {
                if j0 < s.len() && s[j0] == ':' {
                    let jv = jbump(i, j0 + 1);
                    if jv > s.len() {
                        None
                    } else {
                        match parse_jvalue(s, jv) {
                            None => None,
                            Some((v, j1)) => {
                                if 0 <= j1 < s.len() && s[j1] == '}' {
                                    Some((seq![(key, v)], j1 + 1))
                                } else if 0 <= j1 < s.len() && s[j1] == ',' {
                                    let k = jbump(i, j1 + 1);
                                    if k > s.len() {
                                        None
                                    } else {
                                        match parse_jobj_items(s, k) {
                                            None => None,
                                            Some((ms, e)) => Some((seq![(key, v)] + ms, e)),
                                        }
                                    }
                                } else {
                                    None
                                }
                            },
                        }
                    }
                } else {
                    None
                }
            },
        }
    }
}

/// Parse of one output line: a single JSON value spanning the whole
/// line.
pub open spec fn parse_json_s(s: Seq<char>) -> Option<JsonV> {
    match parse_jvalue(s, 0) {
        None => None,
        Some((v, j)) => if j == s.len() {
            Some(v)
        } else {
            None
        },
    }
}

/// First member of an object with the given key, in textual order.
pub open spec fn obj_get(ms: Seq<(Seq<char>, JsonV)>, key: Seq<char>) -> Option<JsonV>
    decreases ms.len(),
{
    if ms.len() == 0 {
        None
    } else if ms[0].0 == key {
        Some(ms[0].1)
    } else {
        obj_get(ms.drop_first(), key)
    }
}

// ---------------------------------------------------------------------
// Executable reader
// ---------------------------------------------------------------------
fn esc_char_x(c: char) -> (r: Option<char>)
    ensures
        r == esc_char(c),
{
    if c == '"' {
        Some('"')
    } else if c == '\\' {
        Some('\\')
    } else if c == '/' {
        Some('/')
    } else if c == 'n' {
        Some('\n')
    } else if c == 't' {
        Some('\t')
    } else if c == 'r' {
        Some('\r')
    } else if c == 'b' {
        Some('\u{0008}')
    } else if c == 'f' {
        Some('\u{000c}')
    } else {
        None
    }
}

fn is_hex(c: char) -> (r: bool)
    ensures
        r == is_hex_char(c),
{
    is_digit(c) || c == 'a' || c == 'b' || c == 'c' || c == 'd' || c == 'e' || c == 'f' || c == 'A'
        || c == 'B' || c == 'C' || c == 'D' || c == 'E' || c == 'F'
}

fn hex_value(c: char) -> (r: u8)
    ensures
        r as nat == hex_val(c),
        r < 16,
{
    if is_digit(c) {
        digit_value(c) as u8
    } else if c == 'a' || c == 'A' {
        10
    } else if c == 'b' || c == 'B' {
        11
    } else if c == 'c' || c == 'C' {
        12
    } else if c == 'd' || c == 'D' {
        13
    } else if c == 'e' || c == 'E' {
        14
    } else if c == 'f' || c == 'F' {
        15
    } else {
        0
    }
}

fn p_jstr(s: &Vec<char>, i: usize) -> (r: Option<(Vec<char>, usize)>)
    requires
        i <= s.len(),
    ensures
        match r {
            Some((cs, j)) => scan_jstr(s@, i as int) == Some((cs@, j as int)) && i < j <= s.len(),
            None => scan_jstr(s@, i as int) is None,
        },
    decreases s.len() - i,
{
    if i == s.len() {
        return None;
    }
    if s[i] == '"' {
        let cs: Vec<char> = Vec::new();
        proof {
            assert(cs@ =~= Seq::<char>::empty());
        }
        return Some((cs, i + 1));
    }
    if s[i] == '\\' {
        if s.len() - i < 2 {
            return None;
        }
        if s[i + 1] == 'u' {
            if s.len() - i >= 6 && s[i + 2] == '0' && s[i + 3] == '0' && is_hex(s[i + 4]) && is_hex(
                s[i + 5],
            ) {
                let hv: u8 = hex_value(s[i + 4]) * 16 + hex_value(s[i + 5]);
                if hv < 128 {
                    match p_jstr(s, i + 6) {
                        None => None,
                        Some((rest, j)) => {
                            let mut cs = rest;
                            cs.insert(0, hv as char);
                            proof {
                                assert(cs@ =~= seq![(((hex_val(s@[i + 4]) * 16 + hex_val(
                                    s@[i + 5],
                                )) as u8) as char)] + cs@.drop_first());
                                assert(cs@.drop_first() =~= rest@);
                            }
                            Some((cs, j))
                        },
                    }
                } else {
                    None
                }
            } else {
                None
            }
        } else {
            match esc_char_x(s[i + 1]) {
                None => None,
                Some(e) => match p_jstr(s, i + 2) {
                    None => None,
                    Some((rest, j)) => {
                        let mut cs = rest;
                        cs.insert(0, e);
                        proof {
                            assert(cs@ =~= seq![e] + cs@.drop_first());
                            assert(cs@.drop_first() =~= rest@);
                        }
                        Some((cs, j))
                    },
                },
            }
        }
    } else {
        match p_jstr(s, i + 1) {
            None => None,
            Some((rest, j)) => {
                let mut cs = rest;
                cs.insert(0, s[i]);
                proof {
                    assert(cs@ =~= seq![s@[i as int]] + cs@.drop_first());
                    assert(cs@.drop_first() =~= rest@);
                }
                Some((cs, j))
            },
        }
    }
}

fn is_numch(c: char) -> (r: bool)
    ensures
        r == is_num_char(c),
{
    is_digit(c) || c == '-' || c == '+' || c == '.' || c == 'e' || c == 'E'
}

fn p_numtok(s: &Vec<char>, i: usize) -> (r: (Vec<char>, usize))
    requires
        i <= s.len(),
    ensures
        scan_numtok(s@, i as int) == (r.0@, r.1 as int),
        i <= r.1 <= s.len(),
    decreases s.len() - i,
{
    if i == s.len() || !is_numch(s[i]) {
        let cs: Vec<char> = Vec::new();
        proof {
            assert(cs@ =~= Seq::<char>::empty());
        }
        (cs, i)
    } else {
        let (rest, j) = p_numtok(s, i + 1);
        let mut cs = rest;
        cs.insert(0, s[i]);
        proof {
            assert(cs@ =~= seq![s@[i as int]] + cs@.drop_first());
            assert(cs@.drop_first() == scan_numtok(s@, i as int + 1).0);
        }
        (cs, j)
    }
}

#[verifier::rlimit(80)]
#[verifier::spinoff_prover]
fn p_jvalue(s: &Vec<char>, i: usize) -> (r: Option<(JsonValue, usize)>)
    requires
        i <= s.len(),
    ensures
        match r {
            Some((v, j)) => parse_jvalue(s@, i as int) == Some((json_v(v), j as int)) && i <= j
                <= s.len(),
            None => parse_jvalue(s@, i as int) is None,
        },
    decreases s.len() - i, 2int,
{
    if i == s.len() {
        return None;
    }
    let c = s[i];
    if c == 'n' {
        if s.len() - i >= 4 && s[i + 1] == 'u' && s[i + 2] == 'l' && s[i + 3] == 'l' {
            Some((JsonValue::Null, i + 4))
        } else {
            None
        }
    } else if c == 't' {
        if s.len() - i >= 4 && s[i + 1] == 'r' && s[i + 2] == 'u' && s[i + 3] == 'e' {
            Some((JsonValue::Bool(true), i + 4))
        } else {
            None
        }
    } else if c == 'f' {
        if s.len() - i >= 5 && s[i + 1] == 'a' && s[i + 2] == 'l' && s[i + 3] == 's' && s[i + 4]
            == 'e' {
            Some((JsonValue::Bool(false), i + 5))
        } else {
            None
        }
    } else if c == '"' {
        match p_jstr(s, i + 1) {
            None => None,
            Some((cs, j)) => Some((JsonValue::Str(cs), j)),
        }
    } else if c == '[' {
        if i + 1 < s.len() && s[i + 1] == ']' {
            let items: Vec<JsonValue> = Vec::new();
            proof {
                assert(json_arr_v(items@) =~= Seq::<JsonV>::empty());
            }
            Some((JsonValue::Arr(items), i + 2))
        } else {
            match p_jarr_items(s, i + 1) {
                None => None,
                Some((items, j)) => Some((JsonValue::Arr(items), j)),
            }
        }
    } else if c == '{' {
        if i + 1 < s.len() && s[i + 1] == '}' {
            let members: Vec<(Vec<char>, JsonValue)> = Vec::new();
            proof {
                assert(json_obj_v(members@) =~= Seq::<(Seq<char>, JsonV)>::empty());
            }
            Some((JsonValue::Obj(members), i + 2))
        } else {
            match p_jobj_items(s, i + 1) {
                None => None,
                Some((members, j)) => Some((JsonValue::Obj(members), j)),
            }
        }
    } else if is_numch(c) && (c == '-' || is_digit(c)) {
        let (tok, j) = p_numtok(s, i);
        Some((JsonValue::Num(tok), j))
    } else {
        None
    }
}

#[verifier::rlimit(80)]
#[verifier::spinoff_prover]
fn p_jarr_items(s: &Vec<char>, i: usize) -> (r: Option<(Vec<JsonValue>, usize)>)
    requires
        i <= s.len(),
    ensures
        match r {
            Some((items, j)) => parse_jarr_items(s@, i as int) == Some(
                (json_arr_v(items@), j as int),
            ) && i <= j <= s.len(),
            None => parse_jarr_items(s@, i as int) is None,
        },
    decreases s.len() - i, 3int,
{
    match p_jvalue(s, i) {
        None => None,
        Some((v, j)) => {
            if j < s.len() && s[j] == ']' {
                let ghost vv = json_v(v);
                let mut items: Vec<JsonValue> = Vec::new();
                items.push(v);
                proof {
                    assert(items@[0] == v);
                    assert(items@.drop_first() =~= Seq::<JsonValue>::empty());
                    assert(json_arr_v(items@.drop_first()) =~= Seq::<JsonV>::empty());
                    assert(json_arr_v(items@) =~= seq![vv]);
                }
                Some((items, j + 1))
            } else if j < s.len() && s[j] == ',' {
                if j + 1 <= i {
                    return None;
                }
                match p_jarr_items(s, j + 1) {
                    None => None,
                    Some((rest, e)) => {
                        let ghost restv = json_arr_v(rest@);
                        let ghost vv = json_v(v);
                        let mut items = rest;
                        items.insert(0, v);
                        proof {
                            assert(items@.drop_first() =~= items@.subrange(1, items@.len() as int));
                            assert(items@.drop_first() =~= rest@);
                            assert(json_arr_v(items@) =~= seq![vv] + restv);
                        }
                        Some((items, e))
                    },
                }
            } else {
                None
            }
        },
    }
}

#[verifier::rlimit(80)]
#[verifier::spinoff_prover]
fn p_jobj_items(s: &Vec<char>, i: usize) -> (r: Option<(Vec<(Vec<char>, JsonValue)>, usize)>)
    requires
        i <= s.len(),
    ensures
        match r {
            Some((ms, j)) => parse_jobj_items(s@, i as int) == Some(
                (json_obj_v(ms@), j as int),
            ) && i <= j <= s.len(),
            None => parse_jobj_items(s@, i as int) is None,
        },
    decreases s.len() - i, 3int,
{
    if i == s.len() || s[i] != '"' {
        return None;
    }
    match p_jstr(s, i + 1) {
        None => None,
        Some((key, j0)) => {
            if j0 < s.len() && s[j0] == ':' {
                match p_jvalue(s, j0 + 1) {
                    None => None,
                    Some((v, j1)) => {
                        if j1 < s.len() && s[j1] == '}' {
                            let ghost keyv = key@;
                            let ghost vv = json_v(v);
                            let mut ms: Vec<(Vec<char>, JsonValue)> = Vec::new();
                            ms.push((key, v));
                            proof {
                                assert(ms@[0].0 == key && ms@[0].1 == v);
                                assert(ms@.drop_first() =~= Seq::<(Vec<char>, JsonValue)>::empty());
                                assert(json_obj_v(ms@.drop_first()) =~= Seq::<(Seq<char>, JsonV)>::empty());
                                assert(json_obj_v(ms@) =~= seq![(keyv, vv)]);
                            }
                            Some((ms, j1 + 1))
                        } else if j1 < s.len() && s[j1] == ',' {
                            if j1 + 1 <= i {
                                return None;
                            }
                            match p_jobj_items(s, j1 + 1) {
                                None => None,
                                Some((rest, e)) => {
                                    let ghost restv = json_obj_v(rest@);
                                    let ghost keyv = key@;
                                    let ghost vv = json_v(v);
                                    let mut ms = rest;
                                    ms.insert(0, (key, v));
                                    proof {
                                        assert(ms@.drop_first() =~= rest@);
                                        assert(json_obj_v(ms@) =~= seq![(keyv, vv)] + restv);
                                    }
                                    Some((ms, e))
                                },
                            }
                        } else {
                            None
                        }
                    },
                }
            } else {
                None
            }
        },
    }
}

/// Reads one output line as a single JSON value; the whole line must be
/// consumed.
pub fn parse_json_line(s: &Vec<char>) -> (r: Option<JsonValue>)
    ensures
        match r {
            Some(v) => parse_json_s(s@) == Some(json_v(v)),
            None => parse_json_s(s@) is None,
        },
{
    match p_jvalue(s, 0) {
        None => None,
        Some((v, j)) => {
            if j == s.len() {
                Some(v)
            } else {
                None
            }
        },
    }
}

} // verus!
