//! The scene document's text form: a human-readable, pretty-printed
//! structured notation with named records, quoted identifiers and
//! fixed-point decimals.
//!
//! The serializer emits one canonical rendering; the parser accepts
//! exactly that grammar.  The round-trip law — parsing a serialized
//! document yields the document — is stated and proved at the bottom.

use vstd::prelude::*;

use crate::scene::{
    comp_v, entity_v, ofx_v, orgba_v, oshape_v, ovec3_v, rgba_v, scene_v, shape_v, vec3_v,
    wf_comp_v, wf_entity_v, wf_fx_v, wf_ofx_v, wf_orgba_v, wf_oshape_v, wf_ovec3_v,
    wf_scene_v, CompData, CompV, ComponentDoc, EntityDoc, EntityV, Fx, MeshShape, Rgba, SceneDoc,
    SceneV, ShapeV, Vec3, FX_LIMIT,
};
use crate::text::{
    chars_vec, push_chars, digit_char, digit_to_char, digit_val, expect_lit, is_digit,
    digit_value, is_digit_char,
    lemma_dec_digits, lemma_digit_char_val, lemma_scan_dec, lemma_scan_string, lemma_split_range,
    push_dec, push_lit, scan_digits, scan_string, spec_dec, spec_expect, spec_scan_digits,
    spec_scan_string, string_of,
};

verus! {

/// Largest whole-unit count a scalar's text form may carry.
pub const UNITS_CAP: u64 = 999_999_999_999_999;

// ---------------------------------------------------------------------
// Canonical rendering (specification)
// ---------------------------------------------------------------------
/// Last three decimal digits of `f`, zero padded.
pub open spec fn ser_frac3(f: int) -> Seq<char> {
    seq![
        digit_char((f / 100) as nat),
        digit_char(((f % 100) / 10) as nat),
        digit_char((f % 10) as nat),
    ]
}

/// A scalar renders as `-?UNITS.DDD`.
pub open spec fn ser_fx(m: int) -> Seq<char> {
    let a = if m < 0 {
        -m
    } else {
        m
    };
    (if m < 0 {
        seq!['-']
    } else {
        Seq::<char>::empty()
    }) + spec_dec((a / 1000) as nat) + seq!['.'] + ser_frac3(a % 1000)
}

pub open spec fn ser_ofx(o: Option<int>) -> Seq<char> {
    match o {
        None => "None"@,
        Some(m) => "Some("@ + ser_fx(m) + ")"@,
    }
}

pub open spec fn ser_vec3(t: (int, int, int)) -> Seq<char> {
    "("@ + ser_fx(t.0) + ", "@ + ser_fx(t.1) + ", "@ + ser_fx(t.2) + ")"@
}

pub open spec fn ser_ovec3(o: Option<(int, int, int)>) -> Seq<char> {
    match o {
        None => "None"@,
        Some(t) => "Some("@ + ser_vec3(t) + ")"@,
    }
}

pub open spec fn ser_rgba(t: (int, int, int, int)) -> Seq<char> {
    "("@ + ser_fx(t.0) + ", "@ + ser_fx(t.1) + ", "@ + ser_fx(t.2) + ", "@ + ser_fx(t.3) + ")"@
}

pub open spec fn ser_orgba(o: Option<(int, int, int, int)>) -> Seq<char> {
    match o {
        None => "None"@,
        Some(t) => "Some("@ + ser_rgba(t) + ")"@,
    }
}

pub open spec fn ser_obool(o: Option<bool>) -> Seq<char> {
    match o {
        None => "None"@,
        Some(true) => "Some(true)"@,
        Some(false) => "Some(false)"@,
    }
}

pub open spec fn ser_shape(sh: ShapeV) -> Seq<char> {
    match sh {
        ShapeV::Circle { radius } => "Circle(radius: "@ + ser_ofx(radius) + ")"@,
        ShapeV::Cuboid { x, y, z } => "Cuboid(x: "@ + ser_ofx(x) + ", y: "@ + ser_ofx(y) + ", z: "@
            + ser_ofx(z) + ")"@,
    }
}

pub open spec fn ser_oshape(o: Option<ShapeV>) -> Seq<char> {
    match o {
        None => "None"@,
        Some(sh) => "Some("@ + ser_shape(sh) + ")"@,
    }
}

// ---------------------------------------------------------------------
// Parsing (specification)
// ---------------------------------------------------------------------
/// Parse an unsigned scalar `UNITS.DDD`, yielding its value in
/// thousandths.
pub open spec fn parse_ufx_s(s: Seq<char>, i: int) -> Option<(int, int)> {
    if 0 <= i < s.len() && is_digit_char(s[i]) {
        match spec_scan_digits(s, i, 0, UNITS_CAP as nat) {
            None => None,
            Some((u, j)) => {
                if j + 4 <= s.len() && s[j] == '.' && is_digit_char(s[j + 1]) && is_digit_char(
                    s[j + 2],
                ) && is_digit_char(s[j + 3]) {
                    Some(
                        (
                            (u * 1000 + digit_val(s[j + 1]) * 100 + digit_val(s[j + 2]) * 10
                                + digit_val(s[j + 3])) as int,
                            j + 4,
                        ),
                    )
                } else {
                    None
                }
            },
        }
    } else {
        None
    }
}

pub open spec fn parse_fx_s(s: Seq<char>, i: int) -> Option<(int, int)> {
    if 0 <= i < s.len() && s[i] == '-' {
        match parse_ufx_s(s, i + 1) {
            None => None,
            Some((m, j)) => Some((-m, j)),
        }
    } else {
        parse_ufx_s(s, i)
    }
}

pub open spec fn parse_ofx_s(s: Seq<char>, i: int) -> Option<(Option<int>, int)> {
    match spec_expect(s, i, "None"@) {
        Some(j) => Some((None, j)),
        None => match spec_expect(s, i, "Some("@) {
            None => None,
            Some(j) => match parse_fx_s(s, j) {
                None => None,
                Some((m, k)) => match spec_expect(s, k, ")"@) {
                    None => None,
                    Some(e) => Some((Some(m), e)),
                },
            },
        },
    }
}

pub open spec fn parse_vec3_s(s: Seq<char>, i: int) -> Option<((int, int, int), int)> {
    match spec_expect(s, i, "("@) {
        None => None,
        Some(j0) => match parse_fx_s(s, j0) {
            None => None,
            Some((a, j1)) => match spec_expect(s, j1, ", "@) {
                None => None,
                Some(j2) => match parse_fx_s(s, j2) {
                    None => None,
                    Some((b, j3)) => match spec_expect(s, j3, ", "@) {
                        None => None,
                        Some(j4) => match parse_fx_s(s, j4) {
                            None => None,
                            Some((c, j5)) => match spec_expect(s, j5, ")"@) {
                                None => None,
                                Some(e) => Some(((a, b, c), e)),
                            },
                        },
                    },
                },
            },
        },
    }
}

pub open spec fn parse_ovec3_s(s: Seq<char>, i: int) -> Option<(Option<(int, int, int)>, int)> {
    match spec_expect(s, i, "None"@) {
        Some(j) => Some((None, j)),
        None => match spec_expect(s, i, "Some("@) {
            None => None,
            Some(j) => match parse_vec3_s(s, j) {
                None => None,
                Some((t, k)) => match spec_expect(s, k, ")"@) {
                    None => None,
                    Some(e) => Some((Some(t), e)),
                },
            },
        },
    }
}

pub open spec fn parse_rgba_s(s: Seq<char>, i: int) -> Option<((int, int, int, int), int)> {
    match spec_expect(s, i, "("@) {
        None => None,
        Some(j0) => match parse_fx_s(s, j0) {
            None => None,
            Some((a, j1)) => match spec_expect(s, j1, ", "@) {
                None => None,
                Some(j2) => match parse_fx_s(s, j2) {
                    None => None,
                    Some((b, j3)) => match spec_expect(s, j3, ", "@) {
                        None => None,
                        Some(j4) => match parse_fx_s(s, j4) {
                            None => None,
                            Some((c, j5)) => match spec_expect(s, j5, ", "@) {
                                None => None,
                                Some(j6) => match parse_fx_s(s, j6) {
                                    None => None,
                                    Some((d, j7)) => match spec_expect(s, j7, ")"@) {
                                        None => None,
                                        Some(e) => Some(((a, b, c, d), e)),
                                    },
                                },
                            },
                        },
                    },
                },
            },
        },
    }
}

pub open spec fn parse_orgba_s(s: Seq<char>, i: int) -> Option<
    (Option<(int, int, int, int)>, int),
> {
    match spec_expect(s, i, "None"@) {
        Some(j) => Some((None, j)),
        None => match spec_expect(s, i, "Some("@) {
            None => None,
            Some(j) => match parse_rgba_s(s, j) {
                None => None,
                Some((t, k)) => match spec_expect(s, k, ")"@) {
                    None => None,
                    Some(e) => Some((Some(t), e)),
                },
            },
        },
    }
}

pub open spec fn parse_obool_s(s: Seq<char>, i: int) -> Option<(Option<bool>, int)> {
    match spec_expect(s, i, "None"@) {
        Some(j) => Some((None, j)),
        None => match spec_expect(s, i, "Some(true)"@) {
            Some(j) => Some((Some(true), j)),
            None => match spec_expect(s, i, "Some(false)"@) {
                Some(j) => Some((Some(false), j)),
                None => None,
            },
        },
    }
}

pub open spec fn parse_shape_s(s: Seq<char>, i: int) -> Option<(ShapeV, int)> {
    match spec_expect(s, i, "Circle(radius: "@) {
        Some(j) => match parse_ofx_s(s, j) {
            None => None,
            Some((radius, k)) => match spec_expect(s, k, ")"@) {
                None => None,
                Some(e) => Some((ShapeV::Circle { radius }, e)),
            },
        },
        None => match spec_expect(s, i, "Cuboid(x: "@) {
            None => None,
            Some(j0) => match parse_ofx_s(s, j0) {
                None => None,
                Some((x, j1)) => match spec_expect(s, j1, ", y: "@) {
                    None => None,
                    Some(j2) => match parse_ofx_s(s, j2) {
                        None => None,
                        Some((y, j3)) => match spec_expect(s, j3, ", z: "@) {
                            None => None,
                            Some(j4) => match parse_ofx_s(s, j4) {
                                None => None,
                                Some((z, j5)) => match spec_expect(s, j5, ")"@) {
                                    None => None,
                                    Some(e) => Some((ShapeV::Cuboid { x, y, z }, e)),
                                },
                            },
                        },
                    },
                },
            },
        },
    }
}

pub open spec fn parse_oshape_s(s: Seq<char>, i: int) -> Option<(Option<ShapeV>, int)> {
    match spec_expect(s, i, "None"@) {
        Some(j) => Some((None, j)),
        None => match spec_expect(s, i, "Some("@) {
            None => None,
            Some(j) => match parse_shape_s(s, j) {
                None => None,
                Some((sh, k)) => match spec_expect(s, k, ")"@) {
                    None => None,
                    Some(e) => Some((Some(sh), e)),
                },
            },
        },
    }
}

// ---------------------------------------------------------------------
// Composite forms
// ---------------------------------------------------------------------
#[verifier::opaque]
pub open spec fn ser_comp(c: CompV) -> Seq<char> {
    match c {
        CompV::Transform { translation, look_at, rot_x_deg } => "Transform(\n          translation: "@
            + ser_ovec3(translation) + ",\n          look_at: "@ + ser_ovec3(look_at)
            + ",\n          rot_x_deg: "@ + ser_ofx(rot_x_deg) + ",\n        )"@,
        CompV::Mesh3d { shape } => "Mesh3d(\n          shape: "@ + ser_oshape(shape)
            + ",\n        )"@,
        CompV::Material3d { color } => "Material3d(\n          color: "@ + ser_orgba(color)
            + ",\n        )"@,
        CompV::PointLight { shadows_enabled } => "PointLight(\n          shadows_enabled: "@
            + ser_obool(shadows_enabled) + ",\n        )"@,
        CompV::Camera3d => "Camera3d()"@,
    }
}

pub open spec fn ser_comps_items(cs: Seq<CompV>) -> Seq<char>
    decreases cs.len(),
{
    if cs.len() == 0 {
        "      ]"@
    } else {
        "        "@ + ser_comp(cs[0]) + ",\n"@ + ser_comps_items(cs.drop_first())
    }
}

pub open spec fn ser_comps(cs: Seq<CompV>) -> Seq<char> {
    if cs.len() == 0 {
        "[]"@
    } else {
        "[\n"@ + ser_comps_items(cs)
    }
}

#[verifier::opaque]
pub open spec fn ser_entity(e: EntityV) -> Seq<char> {
    "EntityDoc(\n      id: \""@ + e.id + "\""@ + ",\n      components: "@ + ser_comps(e.components)
        + ",\n    )"@
}

pub open spec fn ser_entities_items(es: Seq<EntityV>) -> Seq<char>
    decreases es.len(),
{
    if es.len() == 0 {
        "  ]"@
    } else {
        "    "@ + ser_entity(es[0]) + ",\n"@ + ser_entities_items(es.drop_first())
    }
}

pub open spec fn ser_entities(es: Seq<EntityV>) -> Seq<char> {
    if es.len() == 0 {
        "[]"@
    } else {
        "[\n"@ + ser_entities_items(es)
    }
}

/// The canonical text of a whole scene document.
pub open spec fn ser_scene(v: SceneV) -> Seq<char> {
    "SceneDoc(\n  entities: "@ + ser_entities(v.entities) + ",\n)\n"@
}

/// Clamp used so that list parsing visibly consumes input.
pub open spec fn bump(i: int, j: int) -> int {
    if j > i {
        j
    } else {
        i + 1
    }
}

#[verifier::opaque]
pub open spec fn parse_comp_s(s: Seq<char>, i: int) -> Option<(CompV, int)> {
    match spec_expect(s, i, "Transform(\n          translation: "@) {
        Some(j0) => match parse_ovec3_s(s, j0) {
            None => None,
            Some((translation, j1)) => match spec_expect(s, j1, ",\n          look_at: "@) {
                None => None,
                Some(j2) => match parse_ovec3_s(s, j2) {
                    None => None,
                    Some((look_at, j3)) => match spec_expect(s, j3, ",\n          rot_x_deg: "@) {
                        None => None,
                        Some(j4) => match parse_ofx_s(s, j4) {
                            None => None,
                            Some((rot_x_deg, j5)) => match spec_expect(s, j5, ",\n        )"@) {
                                None => None,
                                Some(e) => Some(
                                    (CompV::Transform { translation, look_at, rot_x_deg }, e),
                                ),
                            },
                        },
                    },
                },
            },
        },
        None => match spec_expect(s, i, "Mesh3d(\n          shape: "@) {
            Some(j0) => match parse_oshape_s(s, j0) {
                None => None,
                Some((shape, j1)) => match spec_expect(s, j1, ",\n        )"@) {
                    None => None,
                    Some(e) => Some((CompV::Mesh3d { shape }, e)),
                },
            },
            None => match spec_expect(s, i, "Material3d(\n          color: "@) {
                Some(j0) => match parse_orgba_s(s, j0) {
                    None => None,
                    Some((color, j1)) => match spec_expect(s, j1, ",\n        )"@) {
                        None => None,
                        Some(e) => Some((CompV::Material3d { color }, e)),
                    },
                },
                None => match spec_expect(s, i, "PointLight(\n          shadows_enabled: "@) {
                    Some(j0) => match parse_obool_s(s, j0) {
                        None => None,
                        Some((shadows_enabled, j1)) => match spec_expect(s, j1, ",\n        )"@) {
                            None => None,
                            Some(e) => Some((CompV::PointLight { shadows_enabled }, e)),
                        },
                    },
                    None => match spec_expect(s, i, "Camera3d()"@) {
                        Some(e) => Some((CompV::Camera3d, e)),
                        None => None,
                    },
                },
            },
        },
    }
}

pub open spec fn parse_comps_items_s(s: Seq<char>, i: int) -> Option<(Seq<CompV>, int)>
    decreases s.len() - i,
{
    match spec_expect(s, i, "      ]"@) {
        Some(j) => Some((Seq::empty(), j)),
        None => match spec_expect(s, i, "        "@) {
            None => None,
            Some(j0) => match parse_comp_s(s, j0) {
                None => None,
                Some((c, j1)) => match spec_expect(s, j1, ",\n"@) {
                    None => None,
                    Some(j2) => {
                        let k = bump(i, j2);
                        if k > s.len() {
                            None
                        } else {
                            match parse_comps_items_s(s, k) {
                                None => None,
                                Some((cs, e)) => Some((seq![c] + cs, e)),
                            }
                        }
                    },
                },
            },
        },
    }
}

pub open spec fn parse_comps_s(s: Seq<char>, i: int) -> Option<(Seq<CompV>, int)> {
    match spec_expect(s, i, "[]"@) {
        Some(j) => Some((Seq::empty(), j)),
        None => match spec_expect(s, i, "[\n"@) {
            None => None,
            Some(j) => parse_comps_items_s(s, j),
        },
    }
}

#[verifier::opaque]
pub open spec fn parse_entity_s(s: Seq<char>, i: int) -> Option<(EntityV, int)> {
    match spec_expect(s, i, "EntityDoc(\n      id: \""@) {
        None => None,
        Some(j0) => match spec_scan_string(s, j0) {
            None => None,
            Some((id, j1)) => match spec_expect(s, j1, ",\n      components: "@) {
                None => None,
                Some(j2) => match parse_comps_s(s, j2) {
                    None => None,
                    Some((components, j3)) => match spec_expect(s, j3, ",\n    )"@) {
                        None => None,
                        Some(e) => Some((EntityV { id, components }, e)),
                    },
                },
            },
        },
    }
}

pub open spec fn parse_entities_items_s(s: Seq<char>, i: int) -> Option<(Seq<EntityV>, int)>
    decreases s.len() - i,
{
    match spec_expect(s, i, "  ]"@) {
        Some(j) => Some((Seq::empty(), j)),
        None => match spec_expect(s, i, "    "@) {
            None => None,
            Some(j0) => match parse_entity_s(s, j0) {
                None => None,
                Some((en, j1)) => match spec_expect(s, j1, ",\n"@) {
                    None => None,
                    Some(j2) => {
                        let k = bump(i, j2);
                        if k > s.len() {
                            None
                        } else {
                            match parse_entities_items_s(s, k) {
                                None => None,
                                Some((es, e)) => Some((seq![en] + es, e)),
                            }
                        }
                    },
                },
            },
        },
    }
}

pub open spec fn parse_entities_s(s: Seq<char>, i: int) -> Option<(Seq<EntityV>, int)> {
    match spec_expect(s, i, "[]"@) {
        Some(j) => Some((Seq::empty(), j)),
        None => match spec_expect(s, i, "[\n"@) {
            None => None,
            Some(j) => parse_entities_items_s(s, j),
        },
    }
}

/// Parse of a whole document: the canonical grammar, consuming the
/// entire text.
pub open spec fn parse_scene_s(s: Seq<char>) -> Option<SceneV> {
    match spec_expect(s, 0, "SceneDoc(\n  entities: "@) {
        None => None,
        Some(j0) => match parse_entities_s(s, j0) {
            None => None,
            Some((entities, j1)) => match spec_expect(s, j1, ",\n)\n"@) {
                None => None,
                Some(e) => if e == s.len() {
                    Some(SceneV { entities })
                } else {
                    None
                },
            },
        },
    }
}

// ---------------------------------------------------------------------
// Round-trip lemmas for the primitive forms
// ---------------------------------------------------------------------
/// A rendered block sits at `i` in `s`.
pub open spec fn at(s: Seq<char>, i: int, block: Seq<char>) -> bool {
    0 <= i && i + block.len() <= s.len() && s.subrange(i, i + block.len()) == block
}

/// `at` distributes over concatenation.
pub proof fn lemma_at_split(s: Seq<char>, i: int, x: Seq<char>, y: Seq<char>)
    requires
        at(s, i, x + y),
    ensures
        at(s, i, x),
        at(s, i + x.len(), y),
{
    lemma_split_range(s, i, x, y);
}

/// `at` of a literal gives a successful `spec_expect`.
pub proof fn lemma_at_expect(s: Seq<char>, i: int, lit: Seq<char>)
    requires
        at(s, i, lit),
    ensures
        spec_expect(s, i, lit) == Some(i + lit.len()),
{
}

#[verifier::rlimit(100)]
#[verifier::spinoff_prover]
pub proof fn lemma_rt_fx(s: Seq<char>, i: int, m: int)
    requires
        wf_fx_v(m),
        at(s, i, ser_fx(m)),
    ensures
        parse_fx_s(s, i) == Some((m, i + ser_fx(m).len())),
{
    let a = if m < 0 {
        -m
    } else {
        m
    };
    let u = (a / 1000) as nat;
    let f = a % 1000;
    vstd::arithmetic::div_mod::lemma_fundamental_div_mod(a, 1000);
    let sign: Seq<char> = if m < 0 {
        seq!['-']
    } else {
        Seq::<char>::empty()
    };
    let body = spec_dec(u) + seq!['.'] + ser_frac3(f);
    assert(ser_fx(m) =~= sign + body);
    lemma_at_split(s, i, sign, body);
    let i0 = i + sign.len();
    assert(body =~= spec_dec(u) + (seq!['.'] + ser_frac3(f)));
    lemma_at_split(s, i0, spec_dec(u), seq!['.'] + ser_frac3(f));
    let j = i0 + spec_dec(u).len();
    lemma_at_split(s, j, seq!['.'], ser_frac3(f));
    lemma_dec_digits(u);
    // the dot after the digit block stops the digit scan
    assert(s[j] == '.') by {
        assert(s.subrange(j, j + 1)[0] == s[j]);
    }
    assert(u <= UNITS_CAP as nat) by {
        vstd::arithmetic::div_mod::lemma_div_is_ordered(a, FX_LIMIT - 1, 1000);
        assert((FX_LIMIT - 1) as int / 1000 == UNITS_CAP as int);
    }
    lemma_scan_dec(s, i0, u, UNITS_CAP as nat);
    assert(0 <= f < 1000) by {
        vstd::arithmetic::div_mod::lemma_mod_bound(a, 1000);
    }
    let d1 = digit_char((f / 100) as nat);
    let d2 = digit_char(((f % 100) / 10) as nat);
    let d3 = digit_char((f % 10) as nat);
    assert(s[j + 1] == d1 && s[j + 2] == d2 && s[j + 3] == d3) by {
        assert(s.subrange(j + 1, j + 4)[0] == s[j + 1]);
        assert(s.subrange(j + 1, j + 4)[1] == s[j + 2]);
        assert(s.subrange(j + 1, j + 4)[2] == s[j + 3]);
    }
    assert(0 <= f % 100 < 100 && 0 <= f % 10 < 10) by {
        vstd::arithmetic::div_mod::lemma_mod_bound(f, 100);
        vstd::arithmetic::div_mod::lemma_mod_bound(f, 10);
    }
    lemma_digit_char_val((f / 100) as nat);
    lemma_digit_char_val(((f % 100) / 10) as nat);
    lemma_digit_char_val((f % 10) as nat);
    assert((f / 100) * 100 + ((f % 100) / 10) * 10 + (f % 10) == f) by {
        vstd::arithmetic::div_mod::lemma_fundamental_div_mod(f, 100);
        vstd::arithmetic::div_mod::lemma_fundamental_div_mod(f % 100, 10);
        vstd::arithmetic::div_mod::lemma_mod_mod(f, 10, 10);
    }
    assert(u * 1000 + f == a);
    assert(parse_ufx_s(s, i0) == Some((a, i0 + body.len())));
    if m < 0 {
        assert(s[i] == '-') by {
            assert(s.subrange(i, i + 1)[0] == s[i]);
        }
    } else {
        assert(s[i] == spec_dec(u)[0]) by {
            assert(s.subrange(i0, i0 + spec_dec(u).len())[0] == s[i0]);
        }
        assert(is_digit_char(s[i]) && s[i] != '-');
    }
}

/// Reads one character out of a block match.
pub proof fn lemma_at_index(s: Seq<char>, i: int, block: Seq<char>, k: int)
    requires
        at(s, i, block),
        0 <= k < block.len(),
    ensures
        s[i + k] == block[k],
{
    assert(s.subrange(i, i + block.len())[k] == s[i + k]);
}

/// A literal match fails when some character inside it disagrees.
pub proof fn lemma_expect_fail_at(s: Seq<char>, i: int, lit: Seq<char>, k: int)
    requires
        0 <= k < lit.len(),
        0 <= i,
        i + k < s.len(),
        s[i + k] != lit[k],
    ensures
        spec_expect(s, i, lit) is None,
{
    if i + lit.len() <= s.len() {
        assert(s.subrange(i, i + lit.len())[k] == s[i + k]);
    }
}

#[verifier::rlimit(100)]
#[verifier::spinoff_prover]
pub proof fn lemma_rt_ofx(s: Seq<char>, i: int, o: Option<int>)
    requires
        wf_ofx_v(o),
        at(s, i, ser_ofx(o)),
    ensures
        parse_ofx_s(s, i) == Some((o, i + ser_ofx(o).len())),
{
    reveal_strlit("None");
    reveal_strlit("Some(");
    reveal_strlit(")");
    match o {
        None => {
            lemma_at_expect(s, i, "None"@);
        },
        Some(m) => {
            assert(ser_ofx(o) =~= "Some("@ + (ser_fx(m) + ")"@));
            lemma_at_split(s, i, "Some("@, ser_fx(m) + ")"@);
            lemma_at_split(s, i + 5, ser_fx(m), ")"@);
            lemma_rt_fx(s, i + 5, m);
            lemma_at_expect(s, i, "Some("@);
            lemma_at_expect(s, i + 5 + ser_fx(m).len(), ")"@);
            lemma_at_index(s, i, "Some("@, 0);
            lemma_expect_fail_at(s, i, "None"@, 0);
        },
    }
}

#[verifier::rlimit(100)]
#[verifier::spinoff_prover]
pub proof fn lemma_rt_vec3(s: Seq<char>, i: int, t: (int, int, int))
    requires
        wf_fx_v(t.0),
        wf_fx_v(t.1),
        wf_fx_v(t.2),
        at(s, i, ser_vec3(t)),
    ensures
        parse_vec3_s(s, i) == Some((t, i + ser_vec3(t).len())),
{
    reveal_strlit("(");
    reveal_strlit(", ");
    reveal_strlit(")");
    let a = ser_fx(t.0);
    let b = ser_fx(t.1);
    let c = ser_fx(t.2);
    assert(ser_vec3(t) =~= "("@ + (a + (", "@ + (b + (", "@ + (c + ")"@))))));
    lemma_at_split(s, i, "("@, a + (", "@ + (b + (", "@ + (c + ")"@)))));
    let i1 = i + 1;
    lemma_at_split(s, i1, a, ", "@ + (b + (", "@ + (c + ")"@))));
    lemma_rt_fx(s, i1, t.0);
    let i2 = i1 + a.len();
    lemma_at_split(s, i2, ", "@, b + (", "@ + (c + ")"@)));
    let i3 = i2 + 2;
    lemma_at_split(s, i3, b, ", "@ + (c + ")"@));
    lemma_rt_fx(s, i3, t.1);
    let i4 = i3 + b.len();
    lemma_at_split(s, i4, ", "@, c + ")"@);
    let i5 = i4 + 2;
    lemma_at_split(s, i5, c, ")"@);
    lemma_rt_fx(s, i5, t.2);
    lemma_at_expect(s, i, "("@);
    lemma_at_expect(s, i2, ", "@);
    lemma_at_expect(s, i4, ", "@);
    lemma_at_expect(s, i5 + c.len(), ")"@);
}

#[verifier::rlimit(100)]
#[verifier::spinoff_prover]
pub proof fn lemma_rt_ovec3(s: Seq<char>, i: int, o: Option<(int, int, int)>)
    requires
        wf_ovec3_v(o),
        at(s, i, ser_ovec3(o)),
    ensures
        parse_ovec3_s(s, i) == Some((o, i + ser_ovec3(o).len())),
{
    reveal_strlit("None");
    reveal_strlit("Some(");
    reveal_strlit(")");
    match o {
        None => {
            lemma_at_expect(s, i, "None"@);
        },
        Some(t) => {
            assert(ser_ovec3(o) =~= "Some("@ + (ser_vec3(t) + ")"@));
            lemma_at_split(s, i, "Some("@, ser_vec3(t) + ")"@);
            lemma_at_split(s, i + 5, ser_vec3(t), ")"@);
            lemma_rt_vec3(s, i + 5, t);
            lemma_at_expect(s, i, "Some("@);
            lemma_at_expect(s, i + 5 + ser_vec3(t).len(), ")"@);
            lemma_at_index(s, i, "Some("@, 0);
            lemma_expect_fail_at(s, i, "None"@, 0);
        },
    }
}

#[verifier::rlimit(100)]
#[verifier::spinoff_prover]
pub proof fn lemma_rt_rgba(s: Seq<char>, i: int, t: (int, int, int, int))
    requires
        wf_fx_v(t.0),
        wf_fx_v(t.1),
        wf_fx_v(t.2),
        wf_fx_v(t.3),
        at(s, i, ser_rgba(t)),
    ensures
        parse_rgba_s(s, i) == Some((t, i + ser_rgba(t).len())),
{
    reveal_strlit("(");
    reveal_strlit(", ");
    reveal_strlit(")");
    let a = ser_fx(t.0);
    let b = ser_fx(t.1);
    let c = ser_fx(t.2);
    let d = ser_fx(t.3);
    assert(ser_rgba(t) =~= "("@ + (a + (", "@ + (b + (", "@ + (c + (", "@ + (d + ")"@))))))));
    lemma_at_split(s, i, "("@, a + (", "@ + (b + (", "@ + (c + (", "@ + (d + ")"@)))))));
    let i1 = i + 1;
    lemma_at_split(s, i1, a, ", "@ + (b + (", "@ + (c + (", "@ + (d + ")"@))))));
    lemma_rt_fx(s, i1, t.0);
    let i2 = i1 + a.len();
    lemma_at_split(s, i2, ", "@, b + (", "@ + (c + (", "@ + (d + ")"@)))));
    let i3 = i2 + 2;
    lemma_at_split(s, i3, b, ", "@ + (c + (", "@ + (d + ")"@))));
    lemma_rt_fx(s, i3, t.1);
    let i4 = i3 + b.len();
    lemma_at_split(s, i4, ", "@, c + (", "@ + (d + ")"@)));
    let i5 = i4 + 2;
    lemma_at_split(s, i5, c, ", "@ + (d + ")"@));
    lemma_rt_fx(s, i5, t.2);
    let i6 = i5 + c.len();
    lemma_at_split(s, i6, ", "@, d + ")"@);
    let i7 = i6 + 2;
    lemma_at_split(s, i7, d, ")"@);
    lemma_rt_fx(s, i7, t.3);
    lemma_at_expect(s, i, "("@);
    lemma_at_expect(s, i2, ", "@);
    lemma_at_expect(s, i4, ", "@);
    lemma_at_expect(s, i6, ", "@);
    lemma_at_expect(s, i7 + d.len(), ")"@);
}

#[verifier::rlimit(100)]
#[verifier::spinoff_prover]
pub proof fn lemma_rt_orgba(s: Seq<char>, i: int, o: Option<(int, int, int, int)>)
    requires
        wf_orgba_v(o),
        at(s, i, ser_orgba(o)),
    ensures
        parse_orgba_s(s, i) == Some((o, i + ser_orgba(o).len())),
{
    reveal_strlit("None");
    reveal_strlit("Some(");
    reveal_strlit(")");
    match o {
        None => {
            lemma_at_expect(s, i, "None"@);
        },
        Some(t) => {
            assert(ser_orgba(o) =~= "Some("@ + (ser_rgba(t) + ")"@));
            lemma_at_split(s, i, "Some("@, ser_rgba(t) + ")"@);
            lemma_at_split(s, i + 5, ser_rgba(t), ")"@);
            lemma_rt_rgba(s, i + 5, t);
            lemma_at_expect(s, i, "Some("@);
            lemma_at_expect(s, i + 5 + ser_rgba(t).len(), ")"@);
            lemma_at_index(s, i, "Some("@, 0);
            lemma_expect_fail_at(s, i, "None"@, 0);
        },
    }
}

#[verifier::rlimit(100)]
#[verifier::spinoff_prover]
pub proof fn lemma_rt_obool(s: Seq<char>, i: int, o: Option<bool>)
    requires
        at(s, i, ser_obool(o)),
    ensures
        parse_obool_s(s, i) == Some((o, i + ser_obool(o).len())),
{
    reveal_strlit("None");
    reveal_strlit("Some(true)");
    reveal_strlit("Some(false)");
    match o {
        None => {
            lemma_at_expect(s, i, "None"@);
        },
        Some(true) => {
            lemma_at_expect(s, i, "Some(true)"@);
            lemma_at_index(s, i, "Some(true)"@, 0);
            lemma_expect_fail_at(s, i, "None"@, 0);
        },
        Some(false) => {
            lemma_at_expect(s, i, "Some(false)"@);
            lemma_at_index(s, i, "Some(false)"@, 0);
            lemma_expect_fail_at(s, i, "None"@, 0);
            lemma_at_index(s, i, "Some(false)"@, 5);
            lemma_expect_fail_at(s, i, "Some(true)"@, 5);
        },
    }
}

#[verifier::rlimit(60)]
#[verifier::spinoff_prover]
pub proof fn lemma_rt_shape(s: Seq<char>, i: int, sh: ShapeV)
    requires
        wf_oshape_v(Some(sh)),
        at(s, i, ser_shape(sh)),
    ensures
        parse_shape_s(s, i) == Some((sh, i + ser_shape(sh).len())),
{
    reveal_strlit("Circle(radius: ");
    reveal_strlit("Cuboid(x: ");
    reveal_strlit(", y: ");
    reveal_strlit(", z: ");
    reveal_strlit(")");
    match sh {
        ShapeV::Circle { radius } => {
            assert(ser_shape(sh) =~= "Circle(radius: "@ + (ser_ofx(radius) + ")"@));
            lemma_at_split(s, i, "Circle(radius: "@, ser_ofx(radius) + ")"@);
            let i1 = i + 15;
            lemma_at_split(s, i1, ser_ofx(radius), ")"@);
            lemma_rt_ofx(s, i1, radius);
            lemma_at_expect(s, i, "Circle(radius: "@);
            lemma_at_expect(s, i1 + ser_ofx(radius).len(), ")"@);
        },
        ShapeV::Cuboid { x, y, z } => {
            let sx = ser_ofx(x);
            let sy = ser_ofx(y);
            let sz = ser_ofx(z);
            assert(ser_shape(sh) =~= "Cuboid(x: "@ + (sx + (", y: "@ + (sy + (", z: "@ + (sz
                + ")"@))))));
            lemma_at_split(s, i, "Cuboid(x: "@, sx + (", y: "@ + (sy + (", z: "@ + (sz + ")"@)))));
            let i1 = i + 10;
            lemma_at_split(s, i1, sx, ", y: "@ + (sy + (", z: "@ + (sz + ")"@))));
            lemma_rt_ofx(s, i1, x);
            let i2 = i1 + sx.len();
            lemma_at_split(s, i2, ", y: "@, sy + (", z: "@ + (sz + ")"@)));
            let i3 = i2 + 5;
            lemma_at_split(s, i3, sy, ", z: "@ + (sz + ")"@));
            lemma_rt_ofx(s, i3, y);
            let i4 = i3 + sy.len();
            lemma_at_split(s, i4, ", z: "@, sz + ")"@);
            let i5 = i4 + 5;
            lemma_at_split(s, i5, sz, ")"@);
            lemma_rt_ofx(s, i5, z);
            lemma_at_expect(s, i, "Cuboid(x: "@);
            lemma_at_expect(s, i2, ", y: "@);
            lemma_at_expect(s, i4, ", z: "@);
            lemma_at_expect(s, i5 + sz.len(), ")"@);
            lemma_at_index(s, i, "Cuboid(x: "@, 1);
            lemma_expect_fail_at(s, i, "Circle(radius: "@, 1);
        },
    }
}

#[verifier::rlimit(100)]
#[verifier::spinoff_prover]
pub proof fn lemma_rt_oshape(s: Seq<char>, i: int, o: Option<ShapeV>)
    requires
        wf_oshape_v(o),
        at(s, i, ser_oshape(o)),
    ensures
        parse_oshape_s(s, i) == Some((o, i + ser_oshape(o).len())),
{
    reveal_strlit("None");
    reveal_strlit("Some(");
    reveal_strlit(")");
    match o {
        None => {
            lemma_at_expect(s, i, "None"@);
        },
        Some(sh) => {
            assert(ser_oshape(o) =~= "Some("@ + (ser_shape(sh) + ")"@));
            lemma_at_split(s, i, "Some("@, ser_shape(sh) + ")"@);
            lemma_at_split(s, i + 5, ser_shape(sh), ")"@);
            lemma_rt_shape(s, i + 5, sh);
            lemma_at_expect(s, i, "Some("@);
            lemma_at_expect(s, i + 5 + ser_shape(sh).len(), ")"@);
            lemma_at_index(s, i, "Some("@, 0);
            lemma_expect_fail_at(s, i, "None"@, 0);
        },
    }
}

#[verifier::rlimit(100)]
#[verifier::spinoff_prover]
proof fn lemma_rt_comp_transform(
    s: Seq<char>,
    i: int,
    translation: Option<(int, int, int)>,
    look_at: Option<(int, int, int)>,
    rot_x_deg: Option<int>,
)
    requires
        wf_comp_v(CompV::Transform { translation, look_at, rot_x_deg }),
        at(s, i, ser_comp(CompV::Transform { translation, look_at, rot_x_deg })),
    ensures
        parse_comp_s(s, i) == Some(
            (
                CompV::Transform { translation, look_at, rot_x_deg },
                i + ser_comp(CompV::Transform { translation, look_at, rot_x_deg }).len(),
            ),
        ),
{
    reveal(ser_comp);
    reveal(parse_comp_s);
    reveal_strlit("Transform(\n          translation: ");
    reveal_strlit(",\n          look_at: ");
    reveal_strlit(",\n          rot_x_deg: ");
    reveal_strlit(",\n        )");
    let c = CompV::Transform { translation, look_at, rot_x_deg };
    let close = ",\n        )"@;
    let h = "Transform(\n          translation: "@;
    let l1 = ",\n          look_at: "@;
    let l2 = ",\n          rot_x_deg: "@;
    let a = ser_ovec3(translation);
    let b = ser_ovec3(look_at);
    let r = ser_ofx(rot_x_deg);
    assert(ser_comp(c) =~= h + (a + (l1 + (b + (l2 + (r + close))))));
    lemma_at_split(s, i, h, a + (l1 + (b + (l2 + (r + close)))));
    let i1 = i + h.len();
    lemma_at_split(s, i1, a, l1 + (b + (l2 + (r + close))));
    lemma_rt_ovec3(s, i1, translation);
    let i2 = i1 + a.len();
    lemma_at_split(s, i2, l1, b + (l2 + (r + close)));
    let i3 = i2 + l1.len();
    lemma_at_split(s, i3, b, l2 + (r + close));
    lemma_rt_ovec3(s, i3, look_at);
    let i4 = i3 + b.len();
    lemma_at_split(s, i4, l2, r + close);
    let i5 = i4 + l2.len();
    lemma_at_split(s, i5, r, close);
    lemma_rt_ofx(s, i5, rot_x_deg);
    lemma_at_expect(s, i, h);
    lemma_at_expect(s, i2, l1);
    lemma_at_expect(s, i4, l2);
    lemma_at_expect(s, i5 + r.len(), close);
}

#[verifier::rlimit(80)]
#[verifier::spinoff_prover]
proof fn lemma_rt_comp_mesh(s: Seq<char>, i: int, shape: Option<ShapeV>)
    requires
        wf_comp_v(CompV::Mesh3d { shape }),
        at(s, i, ser_comp(CompV::Mesh3d { shape })),
    ensures
        parse_comp_s(s, i) == Some(
            (CompV::Mesh3d { shape }, i + ser_comp(CompV::Mesh3d { shape }).len()),
        ),
{
    reveal(ser_comp);
    reveal(parse_comp_s);
    reveal_strlit("Transform(\n          translation: ");
    reveal_strlit("Mesh3d(\n          shape: ");
    reveal_strlit(",\n        )");
    let c = CompV::Mesh3d { shape };
    let close = ",\n        )"@;
    let h = "Mesh3d(\n          shape: "@;
    let a = ser_oshape(shape);
    assert(ser_comp(c) =~= h + (a + close));
    lemma_at_split(s, i, h, a + close);
    let i1 = i + h.len();
    lemma_at_split(s, i1, a, close);
    lemma_rt_oshape(s, i1, shape);
    lemma_at_expect(s, i, h);
    lemma_at_expect(s, i1 + a.len(), close);
    lemma_at_index(s, i, h, 0);
    lemma_expect_fail_at(s, i, "Transform(\n          translation: "@, 0);
}

#[verifier::rlimit(80)]
#[verifier::spinoff_prover]
proof fn lemma_rt_comp_material(s: Seq<char>, i: int, color: Option<(int, int, int, int)>)
    requires
        wf_comp_v(CompV::Material3d { color }),
        at(s, i, ser_comp(CompV::Material3d { color })),
    ensures
        parse_comp_s(s, i) == Some(
            (CompV::Material3d { color }, i + ser_comp(CompV::Material3d { color }).len()),
        ),
{
    reveal(ser_comp);
    reveal(parse_comp_s);
    reveal_strlit("Transform(\n          translation: ");
    reveal_strlit("Mesh3d(\n          shape: ");
    reveal_strlit("Material3d(\n          color: ");
    reveal_strlit(",\n        )");
    let c = CompV::Material3d { color };
    let close = ",\n        )"@;
    let h = "Material3d(\n          color: "@;
    let a = ser_orgba(color);
    assert(ser_comp(c) =~= h + (a + close));
    lemma_at_split(s, i, h, a + close);
    let i1 = i + h.len();
    lemma_at_split(s, i1, a, close);
    lemma_rt_orgba(s, i1, color);
    lemma_at_expect(s, i, h);
    lemma_at_expect(s, i1 + a.len(), close);
    lemma_at_index(s, i, h, 0);
    lemma_at_index(s, i, h, 1);
    lemma_expect_fail_at(s, i, "Transform(\n          translation: "@, 0);
    lemma_expect_fail_at(s, i, "Mesh3d(\n          shape: "@, 1);
}

#[verifier::rlimit(80)]
#[verifier::spinoff_prover]
proof fn lemma_rt_comp_pointlight(s: Seq<char>, i: int, shadows_enabled: Option<bool>)
    requires
        at(s, i, ser_comp(CompV::PointLight { shadows_enabled })),
    ensures
        parse_comp_s(s, i) == Some(
            (
                CompV::PointLight { shadows_enabled },
                i + ser_comp(CompV::PointLight { shadows_enabled }).len(),
            ),
        ),
{
    reveal(ser_comp);
    reveal(parse_comp_s);
    reveal_strlit("Transform(\n          translation: ");
    reveal_strlit("Mesh3d(\n          shape: ");
    reveal_strlit("Material3d(\n          color: ");
    reveal_strlit("PointLight(\n          shadows_enabled: ");
    reveal_strlit(",\n        )");
    let c = CompV::PointLight { shadows_enabled };
    let close = ",\n        )"@;
    let h = "PointLight(\n          shadows_enabled: "@;
    let a = ser_obool(shadows_enabled);
    assert(ser_comp(c) =~= h + (a + close));
    lemma_at_split(s, i, h, a + close);
    let i1 = i + h.len();
    lemma_at_split(s, i1, a, close);
    lemma_rt_obool(s, i1, shadows_enabled);
    lemma_at_expect(s, i, h);
    lemma_at_expect(s, i1 + a.len(), close);
    lemma_at_index(s, i, h, 0);
    lemma_expect_fail_at(s, i, "Transform(\n          translation: "@, 0);
    lemma_expect_fail_at(s, i, "Mesh3d(\n          shape: "@, 0);
    lemma_expect_fail_at(s, i, "Material3d(\n          color: "@, 0);
}

#[verifier::rlimit(80)]
#[verifier::spinoff_prover]
proof fn lemma_rt_comp_camera(s: Seq<char>, i: int)
    requires
        at(s, i, ser_comp(CompV::Camera3d)),
    ensures
        parse_comp_s(s, i) == Some((CompV::Camera3d, i + ser_comp(CompV::Camera3d).len())),
{
    reveal(ser_comp);
    reveal(parse_comp_s);
    reveal_strlit("Transform(\n          translation: ");
    reveal_strlit("Mesh3d(\n          shape: ");
    reveal_strlit("Material3d(\n          color: ");
    reveal_strlit("PointLight(\n          shadows_enabled: ");
    reveal_strlit("Camera3d()");
    let h = "Camera3d()"@;
    lemma_at_expect(s, i, h);
    lemma_at_index(s, i, h, 0);
    lemma_expect_fail_at(s, i, "Transform(\n          translation: "@, 0);
    lemma_expect_fail_at(s, i, "Mesh3d(\n          shape: "@, 0);
    lemma_expect_fail_at(s, i, "Material3d(\n          color: "@, 0);
    lemma_expect_fail_at(s, i, "PointLight(\n          shadows_enabled: "@, 0);
}

pub proof fn lemma_rt_comp(s: Seq<char>, i: int, c: CompV)
    requires
        wf_comp_v(c),
        at(s, i, ser_comp(c)),
    ensures
        parse_comp_s(s, i) == Some((c, i + ser_comp(c).len())),
{
    match c {
        CompV::Transform { translation, look_at, rot_x_deg } => {
            lemma_rt_comp_transform(s, i, translation, look_at, rot_x_deg);
        },
        CompV::Mesh3d { shape } => {
            lemma_rt_comp_mesh(s, i, shape);
        },
        CompV::Material3d { color } => {
            lemma_rt_comp_material(s, i, color);
        },
        CompV::PointLight { shadows_enabled } => {
            lemma_rt_comp_pointlight(s, i, shadows_enabled);
        },
        CompV::Camera3d => {
            lemma_rt_comp_camera(s, i);
        },
    }
}

#[verifier::rlimit(80)]
#[verifier::spinoff_prover]
pub proof fn lemma_rt_comps_items(s: Seq<char>, i: int, cs: Seq<CompV>)
    requires
        forall|k: int| 0 <= k < cs.len() ==> wf_comp_v(#[trigger] cs[k]),
        at(s, i, ser_comps_items(cs)),
    ensures
        parse_comps_items_s(s, i) == Some((cs, i + ser_comps_items(cs).len())),
    decreases cs.len(),
{
    reveal_strlit("      ]");
    reveal_strlit("        ");
    reveal_strlit(",\n");
    if cs.len() == 0 {
        lemma_at_expect(s, i, "      ]"@);
    } else {
        let ind = "        "@;
        let sep = ",\n"@;
        let head = ser_comp(cs[0]);
        let rest = ser_comps_items(cs.drop_first());
        assert(ser_comps_items(cs) =~= ind + (head + (sep + rest)));
        lemma_at_split(s, i, ind, head + (sep + rest));
        let i1 = i + 8;
        lemma_at_split(s, i1, head, sep + rest);
        lemma_rt_comp(s, i1, cs[0]);
        let i2 = i1 + head.len();
        lemma_at_split(s, i2, sep, rest);
        let i3 = i2 + 2;
        assert(forall|k: int|
            0 <= k < cs.drop_first().len() ==> wf_comp_v(#[trigger] cs.drop_first()[k]));
        lemma_rt_comps_items(s, i3, cs.drop_first());
        lemma_at_expect(s, i, ind);
        lemma_at_expect(s, i2, sep);
        lemma_at_index(s, i, ind, 6);
        lemma_expect_fail_at(s, i, "      ]"@, 6);
        assert(bump(i, i3) == i3);
        assert(seq![cs[0]] + cs.drop_first() =~= cs);
    }
}

#[verifier::rlimit(100)]
#[verifier::spinoff_prover]
pub proof fn lemma_rt_comps(s: Seq<char>, i: int, cs: Seq<CompV>)
    requires
        forall|k: int| 0 <= k < cs.len() ==> wf_comp_v(#[trigger] cs[k]),
        at(s, i, ser_comps(cs)),
    ensures
        parse_comps_s(s, i) == Some((cs, i + ser_comps(cs).len())),
{
    reveal_strlit("[]");
    reveal_strlit("[\n");
    if cs.len() == 0 {
        lemma_at_expect(s, i, "[]"@);
    } else {
        assert(ser_comps(cs) =~= "[\n"@ + ser_comps_items(cs));
        lemma_at_split(s, i, "[\n"@, ser_comps_items(cs));
        lemma_rt_comps_items(s, i + 2, cs);
        lemma_at_expect(s, i, "[\n"@);
        lemma_at_index(s, i, "[\n"@, 1);
        lemma_expect_fail_at(s, i, "[]"@, 1);
    }
}

#[verifier::rlimit(100)]
#[verifier::spinoff_prover]
pub proof fn lemma_rt_entity(s: Seq<char>, i: int, e: EntityV)
    requires
        wf_entity_v(e),
        at(s, i, ser_entity(e)),
    ensures
        parse_entity_s(s, i) == Some((e, i + ser_entity(e).len())),
{
    reveal(ser_entity);
    reveal(parse_entity_s);
    reveal_strlit("EntityDoc(\n      id: \"");
    reveal_strlit("\"");
    reveal_strlit(",\n      components: ");
    reveal_strlit(",\n    )");
    let h = "EntityDoc(\n      id: \""@;
    let q = "\""@;
    let l1 = ",\n      components: "@;
    let close = ",\n    )"@;
    let comps = ser_comps(e.components);
    assert(ser_entity(e) =~= h + (e.id + (q + (l1 + (comps + close)))));
    lemma_at_split(s, i, h, e.id + (q + (l1 + (comps + close))));
    let i1 = i + h.len();
    lemma_at_split(s, i1, e.id, q + (l1 + (comps + close)));
    let i2 = i1 + e.id.len();
    lemma_at_split(s, i2, q, l1 + (comps + close));
    let i3 = i2 + 1;
    lemma_at_split(s, i3, l1, comps + close);
    let i4 = i3 + l1.len();
    lemma_at_split(s, i4, comps, close);
    lemma_rt_comps(s, i4, e.components);
    lemma_at_expect(s, i, h);
    lemma_at_index(s, i2, q, 0);
    lemma_scan_string(s, i1, e.id);
    lemma_at_expect(s, i3, l1);
    lemma_at_expect(s, i4 + comps.len(), close);
}

#[verifier::rlimit(100)]
#[verifier::spinoff_prover]
pub proof fn lemma_rt_entities_items(s: Seq<char>, i: int, es: Seq<EntityV>)
    requires
        forall|k: int| 0 <= k < es.len() ==> wf_entity_v(#[trigger] es[k]),
        at(s, i, ser_entities_items(es)),
    ensures
        parse_entities_items_s(s, i) == Some((es, i + ser_entities_items(es).len())),
    decreases es.len(),
{
    reveal_strlit("  ]");
    reveal_strlit("    ");
    reveal_strlit(",\n");
    if es.len() == 0 {
        lemma_at_expect(s, i, "  ]"@);
    } else {
        let ind = "    "@;
        let sep = ",\n"@;
        let head = ser_entity(es[0]);
        let rest = ser_entities_items(es.drop_first());
        assert(ser_entities_items(es) =~= ind + (head + (sep + rest)));
        lemma_at_split(s, i, ind, head + (sep + rest));
        let i1 = i + 4;
        lemma_at_split(s, i1, head, sep + rest);
        lemma_rt_entity(s, i1, es[0]);
        let i2 = i1 + head.len();
        lemma_at_split(s, i2, sep, rest);
        let i3 = i2 + 2;
        assert(forall|k: int|
            0 <= k < es.drop_first().len() ==> wf_entity_v(#[trigger] es.drop_first()[k]));
        lemma_rt_entities_items(s, i3, es.drop_first());
        lemma_at_expect(s, i, ind);
        lemma_at_expect(s, i2, sep);
        lemma_at_index(s, i, ind, 2);
        lemma_expect_fail_at(s, i, "  ]"@, 2);
        assert(bump(i, i3) == i3);
        assert(seq![es[0]] + es.drop_first() =~= es);
    }
}

#[verifier::rlimit(100)]
#[verifier::spinoff_prover]
pub proof fn lemma_rt_entities(s: Seq<char>, i: int, es: Seq<EntityV>)
    requires
        forall|k: int| 0 <= k < es.len() ==> wf_entity_v(#[trigger] es[k]),
        at(s, i, ser_entities(es)),
    ensures
        parse_entities_s(s, i) == Some((es, i + ser_entities(es).len())),
{
    reveal_strlit("[]");
    reveal_strlit("[\n");
    if es.len() == 0 {
        lemma_at_expect(s, i, "[]"@);
    } else {
        assert(ser_entities(es) =~= "[\n"@ + ser_entities_items(es));
        lemma_at_split(s, i, "[\n"@, ser_entities_items(es));
        lemma_rt_entities_items(s, i + 2, es);
        lemma_at_expect(s, i, "[\n"@);
        lemma_at_index(s, i, "[\n"@, 1);
        lemma_expect_fail_at(s, i, "[]"@, 1);
    }
}

/// Round-trip law: parsing the canonical text of any well-formed scene
/// document yields exactly that document, entity order and component
/// order preserved.
#[verifier::rlimit(100)]
#[verifier::spinoff_prover]
pub proof fn lemma_scene_round_trip(v: SceneV)
    requires
        wf_scene_v(v),
    ensures
        parse_scene_s(ser_scene(v)) == Some(v),
{
    reveal_strlit("SceneDoc(\n  entities: ");
    reveal_strlit(",\n)\n");
    let s = ser_scene(v);
    let h = "SceneDoc(\n  entities: "@;
    let close = ",\n)\n"@;
    let ents = ser_entities(v.entities);
    assert(s =~= h + (ents + close));
    assert(at(s, 0, s)) by {
        assert(s.subrange(0, s.len() as int) =~= s);
    }
    lemma_at_split(s, 0, h, ents + close);
    let i1 = h.len() as int;
    lemma_at_split(s, i1, ents, close);
    lemma_rt_entities(s, i1, v.entities);
    let i2 = i1 + ents.len();
    lemma_at_expect(s, 0, h);
    lemma_at_expect(s, i2, close);
    assert(i2 + close.len() == s.len());
}

// ---------------------------------------------------------------------
// Executable serializer
// ---------------------------------------------------------------------
fn push_fx(out: &mut Vec<char>, f: &Fx)
    requires
        f.wf(),
    ensures
        final(out)@ == old(out)@ + ser_fx(f.view()),
{
    let neg = f.milli < 0;
    let a: u64 = if neg {
        (-f.milli) as u64
    } else {
        f.milli as u64
    };
    if neg {
        out.push('-');
    }
    push_dec(out, a / 1000);
    out.push('.');
    let fr = a % 1000;
    out.push(digit_to_char(fr / 100));
    out.push(digit_to_char((fr % 100) / 10));
    out.push(digit_to_char(fr % 10));
    proof {
        assert(out@ =~= old(out)@ + ser_fx(f.view()));
    }
}

fn push_ofx(out: &mut Vec<char>, o: &Option<Fx>)
    requires
        wf_ofx_v(ofx_v(*o)),
    ensures
        final(out)@ == old(out)@ + ser_ofx(ofx_v(*o)),
{
    match o {
        None => push_lit(out, "None"),
        Some(f) => {
            push_lit(out, "Some(");
            push_fx(out, f);
            push_lit(out, ")");
            proof {
                assert(out@ =~= old(out)@ + ser_ofx(ofx_v(*o)));
            }
        },
    }
}

fn push_vec3(out: &mut Vec<char>, v: &Vec3)
    requires
        wf_ovec3_v(Some(vec3_v(*v))),
    ensures
        final(out)@ == old(out)@ + ser_vec3(vec3_v(*v)),
{
    push_lit(out, "(");
    push_fx(out, &v.x);
    push_lit(out, ", ");
    push_fx(out, &v.y);
    push_lit(out, ", ");
    push_fx(out, &v.z);
    push_lit(out, ")");
    proof {
        assert(out@ =~= old(out)@ + ser_vec3(vec3_v(*v)));
    }
}

fn push_ovec3(out: &mut Vec<char>, o: &Option<Vec3>)
    requires
        wf_ovec3_v(ovec3_v(*o)),
    ensures
        final(out)@ == old(out)@ + ser_ovec3(ovec3_v(*o)),
{
    match o {
        None => push_lit(out, "None"),
        Some(v) => {
            push_lit(out, "Some(");
            push_vec3(out, v);
            push_lit(out, ")");
            proof {
                assert(out@ =~= old(out)@ + ser_ovec3(ovec3_v(*o)));
            }
        },
    }
}

fn push_rgba(out: &mut Vec<char>, v: &Rgba)
    requires
        wf_orgba_v(Some(rgba_v(*v))),
    ensures
        final(out)@ == old(out)@ + ser_rgba(rgba_v(*v)),
{
    push_lit(out, "(");
    push_fx(out, &v.r);
    push_lit(out, ", ");
    push_fx(out, &v.g);
    push_lit(out, ", ");
    push_fx(out, &v.b);
    push_lit(out, ", ");
    push_fx(out, &v.a);
    push_lit(out, ")");
    proof {
        assert(out@ =~= old(out)@ + ser_rgba(rgba_v(*v)));
    }
}

fn push_orgba(out: &mut Vec<char>, o: &Option<Rgba>)
    requires
        wf_orgba_v(orgba_v(*o)),
    ensures
        final(out)@ == old(out)@ + ser_orgba(orgba_v(*o)),
{
    match o {
        None => push_lit(out, "None"),
        Some(v) => {
            push_lit(out, "Some(");
            push_rgba(out, v);
            push_lit(out, ")");
            proof {
                assert(out@ =~= old(out)@ + ser_orgba(orgba_v(*o)));
            }
        },
    }
}

fn push_obool(out: &mut Vec<char>, o: &Option<bool>)
    ensures
        final(out)@ == old(out)@ + ser_obool(*o),
{
    match o {
        None => push_lit(out, "None"),
        Some(true) => push_lit(out, "Some(true)"),
        Some(false) => push_lit(out, "Some(false)"),
    }
}

fn push_shape(out: &mut Vec<char>, sh: &MeshShape)
    requires
        wf_oshape_v(Some(shape_v(*sh))),
    ensures
        final(out)@ == old(out)@ + ser_shape(shape_v(*sh)),
{
    match sh {
        MeshShape::Circle { radius } => {
            push_lit(out, "Circle(radius: ");
            push_ofx(out, radius);
            push_lit(out, ")");
        },
        MeshShape::Cuboid { x, y, z } => {
            push_lit(out, "Cuboid(x: ");
            push_ofx(out, x);
            push_lit(out, ", y: ");
            push_ofx(out, y);
            push_lit(out, ", z: ");
            push_ofx(out, z);
            push_lit(out, ")");
        },
    }
    proof {
        assert(out@ =~= old(out)@ + ser_shape(shape_v(*sh)));
    }
}

fn push_oshape(out: &mut Vec<char>, o: &Option<MeshShape>)
    requires
        wf_oshape_v(oshape_v(*o)),
    ensures
        final(out)@ == old(out)@ + ser_oshape(oshape_v(*o)),
{
    match o {
        None => push_lit(out, "None"),
        Some(sh) => {
            push_lit(out, "Some(");
            push_shape(out, sh);
            push_lit(out, ")");
            proof {
                assert(out@ =~= old(out)@ + ser_oshape(oshape_v(*o)));
            }
        },
    }
}

#[verifier::rlimit(100)]
#[verifier::spinoff_prover]
fn push_comp(out: &mut Vec<char>, c: &ComponentDoc)
    requires
        wf_comp_v(comp_v(*c)),
    ensures
        final(out)@ == old(out)@ + ser_comp(comp_v(*c)),
{
    proof {
        reveal(ser_comp);
    }
    match &c.data {
        CompData::Transform { translation, look_at, rot_x_deg } => {
            push_lit(out, "Transform(\n          translation: ");
            push_ovec3(out, translation);
            push_lit(out, ",\n          look_at: ");
            push_ovec3(out, look_at);
            push_lit(out, ",\n          rot_x_deg: ");
            push_ofx(out, rot_x_deg);
            push_lit(out, ",\n        )");
        },
        CompData::Mesh3d { shape } => {
            push_lit(out, "Mesh3d(\n          shape: ");
            push_oshape(out, shape);
            push_lit(out, ",\n        )");
        },
        CompData::Material3d { color } => {
            push_lit(out, "Material3d(\n          color: ");
            push_orgba(out, color);
            push_lit(out, ",\n        )");
        },
        CompData::PointLight { shadows_enabled } => {
            push_lit(out, "PointLight(\n          shadows_enabled: ");
            push_obool(out, shadows_enabled);
            push_lit(out, ",\n        )");
        },
        CompData::Camera3d => {
            push_lit(out, "Camera3d()");
        },
    }
    proof {
        assert(out@ =~= old(out)@ + ser_comp(comp_v(*c)));
    }
}

fn push_comps_items(out: &mut Vec<char>, comps: &Vec<ComponentDoc>, from: usize)
    requires
        from <= comps.len(),
        forall|k: int| 0 <= k < comps@.len() ==> wf_comp_v(comp_v(#[trigger] comps@[k])),
    ensures
        final(out)@ == old(out)@ + ser_comps_items(
            comps@.map_values(|c: ComponentDoc| comp_v(c)).skip(from as int),
        ),
    decreases comps.len() - from,
{
    let ghost views = comps@.map_values(|c: ComponentDoc| comp_v(c));
    if from == comps.len() {
        push_lit(out, "      ]");
        proof {
            assert(views.skip(from as int) =~= Seq::<CompV>::empty());
        }
    } else {
        push_lit(out, "        ");
        push_comp(out, &comps[from]);
        push_lit(out, ",\n");
        push_comps_items(out, comps, from + 1);
        proof {
            assert(views.skip(from as int)[0] == comp_v(comps@[from as int]));
            assert(views.skip(from as int).drop_first() =~= views.skip(from as int + 1));
            assert(out@ =~= old(out)@ + ser_comps_items(views.skip(from as int)));
        }
    }
}

fn push_comps(out: &mut Vec<char>, comps: &Vec<ComponentDoc>)
    requires
        forall|k: int| 0 <= k < comps@.len() ==> wf_comp_v(comp_v(#[trigger] comps@[k])),
    ensures
        final(out)@ == old(out)@ + ser_comps(comps@.map_values(|c: ComponentDoc| comp_v(c))),
{
    let ghost views = comps@.map_values(|c: ComponentDoc| comp_v(c));
    if comps.len() == 0 {
        push_lit(out, "[]");
    } else {
        push_lit(out, "[\n");
        push_comps_items(out, comps, 0);
        proof {
            assert(views.skip(0) =~= views);
            assert(out@ =~= old(out)@ + ser_comps(views));
        }
    }
}

fn push_entity(out: &mut Vec<char>, e: &EntityDoc)
    requires
        wf_entity_v(entity_v(*e)),
    ensures
        final(out)@ == old(out)@ + ser_entity(entity_v(*e)),
{
    proof {
        reveal(ser_entity);
    }
    push_lit(out, "EntityDoc(\n      id: \"");
    let idv = chars_vec(e.id.as_str());
    push_chars(out, &idv);
    push_lit(out, "\"");
    push_lit(out, ",\n      components: ");
    proof {
        assert forall|k: int| 0 <= k < e.components@.len() implies wf_comp_v(
            comp_v(#[trigger] e.components@[k]),
        ) by {
            assert(entity_v(*e).components[k] == comp_v(e.components@[k]));
        }
    }
    push_comps(out, &e.components);
    push_lit(out, ",\n    )");
    proof {
        assert(out@ =~= old(out)@ + ser_entity(entity_v(*e)));
    }
}

fn push_entities_items(out: &mut Vec<char>, ents: &Vec<EntityDoc>, from: usize)
    requires
        from <= ents.len(),
        forall|k: int| 0 <= k < ents@.len() ==> wf_entity_v(entity_v(#[trigger] ents@[k])),
    ensures
        final(out)@ == old(out)@ + ser_entities_items(
            ents@.map_values(|e: EntityDoc| entity_v(e)).skip(from as int),
        ),
    decreases ents.len() - from,
{
    let ghost views = ents@.map_values(|e: EntityDoc| entity_v(e));
    if from == ents.len() {
        push_lit(out, "  ]");
        proof {
            assert(views.skip(from as int) =~= Seq::<EntityV>::empty());
        }
    } else {
        push_lit(out, "    ");
        push_entity(out, &ents[from]);
        push_lit(out, ",\n");
        push_entities_items(out, ents, from + 1);
        proof {
            assert(views.skip(from as int)[0] == entity_v(ents@[from as int]));
            assert(views.skip(from as int).drop_first() =~= views.skip(from as int + 1));
            assert(out@ =~= old(out)@ + ser_entities_items(views.skip(from as int)));
        }
    }
}

fn push_entities(out: &mut Vec<char>, ents: &Vec<EntityDoc>)
    requires
        forall|k: int| 0 <= k < ents@.len() ==> wf_entity_v(entity_v(#[trigger] ents@[k])),
    ensures
        final(out)@ == old(out)@ + ser_entities(ents@.map_values(|e: EntityDoc| entity_v(e))),
{
    let ghost views = ents@.map_values(|e: EntityDoc| entity_v(e));
    if ents.len() == 0 {
        push_lit(out, "[]");
    } else {
        push_lit(out, "[\n");
        push_entities_items(out, ents, 0);
        proof {
            assert(views.skip(0) =~= views);
            assert(out@ =~= old(out)@ + ser_entities(views));
        }
    }
}

/// Renders `d` in the canonical pretty-printed text form.
pub fn serialize_scene(d: &SceneDoc) -> (r: String)
    requires
        wf_scene_v(scene_v(*d)),
    ensures
        r@ == ser_scene(scene_v(*d)),
{
    let mut out: Vec<char> = Vec::new();
    push_lit(&mut out, "SceneDoc(\n  entities: ");
    proof {
        assert forall|k: int| 0 <= k < d.entities@.len() implies wf_entity_v(
            entity_v(#[trigger] d.entities@[k]),
        ) by {
            assert(scene_v(*d).entities[k] == entity_v(d.entities@[k]));
        }
    }
    push_entities(&mut out, &d.entities);
    push_lit(&mut out, ",\n)\n");
    proof {
        assert(out@ =~= ser_scene(scene_v(*d)));
    }
    string_of(out)
}

// ---------------------------------------------------------------------
// Executable parser
// ---------------------------------------------------------------------
fn p_ufx(s: &Vec<char>, i: usize) -> (r: Option<(Fx, usize)>)
    requires
        i <= s.len(),
    ensures
        match r {
            Some((f, j)) => parse_ufx_s(s@, i as int) == Some((f.view(), j as int)) && f.wf()
                && i <= j <= s.len(),
            None => parse_ufx_s(s@, i as int) is None,
        },
{
    if i == s.len() || !is_digit(s[i]) {
        return None;
    }
    match scan_digits(s, i, UNITS_CAP) {
        None => None,
        Some((u, j)) => {
            if s.len() - j < 4 {
                return None;
            }
            if s[j] != '.' || !is_digit(s[j + 1]) || !is_digit(s[j + 2]) || !is_digit(s[j + 3]) {
                return None;
            }
            let d1 = digit_value(s[j + 1]);
            let d2 = digit_value(s[j + 2]);
            let d3 = digit_value(s[j + 3]);
            let v: u64 = u * 1000 + d1 * 100 + d2 * 10 + d3;
            Some((Fx { milli: v as i64 }, j + 4))
        },
    }
}

fn p_fx(s: &Vec<char>, i: usize) -> (r: Option<(Fx, usize)>)
    requires
        i <= s.len(),
    ensures
        match r {
            Some((f, j)) => parse_fx_s(s@, i as int) == Some((f.view(), j as int)) && f.wf()
                && i <= j <= s.len(),
            None => parse_fx_s(s@, i as int) is None,
        },
{
    if i < s.len() && s[i] == '-' {
        match p_ufx(s, i + 1) {
            None => None,
            Some((f, j)) => Some((Fx { milli: -f.milli }, j)),
        }
    } else {
        p_ufx(s, i)
    }
}

fn p_ofx(s: &Vec<char>, i: usize) -> (r: Option<(Option<Fx>, usize)>)
    requires
        i <= s.len(),
    ensures
        match r {
            Some((o, j)) => parse_ofx_s(s@, i as int) == Some((ofx_v(o), j as int)) && wf_ofx_v(
                ofx_v(o),
            ) && i <= j <= s.len(),
            None => parse_ofx_s(s@, i as int) is None,
        },
{
    match expect_lit(s, i, "None") {
        Some(j) => Some((None, j)),
        None => match expect_lit(s, i, "Some(") {
            None => None,
            Some(j) => match p_fx(s, j) {
                None => None,
                Some((f, k)) => match expect_lit(s, k, ")") {
                    None => None,
                    Some(e) => Some((Some(f), e)),
                },
            },
        },
    }
}

fn p_vec3(s: &Vec<char>, i: usize) -> (r: Option<(Vec3, usize)>)
    requires
        i <= s.len(),
    ensures
        match r {
            Some((v, j)) => parse_vec3_s(s@, i as int) == Some((vec3_v(v), j as int))
                && wf_ovec3_v(Some(vec3_v(v))) && i <= j <= s.len(),
            None => parse_vec3_s(s@, i as int) is None,
        },
{
    match expect_lit(s, i, "(") {
        None => None,
        Some(j0) => match p_fx(s, j0) {
            None => None,
            Some((a, j1)) => match expect_lit(s, j1, ", ") {
                None => None,
                Some(j2) => match p_fx(s, j2) {
                    None => None,
                    Some((b, j3)) => match expect_lit(s, j3, ", ") {
                        None => None,
                        Some(j4) => match p_fx(s, j4) {
                            None => None,
                            Some((c, j5)) => match expect_lit(s, j5, ")") {
                                None => None,
                                Some(e) => Some((Vec3 { x: a, y: b, z: c }, e)),
                            },
                        },
                    },
                },
            },
        },
    }
}

fn p_ovec3(s: &Vec<char>, i: usize) -> (r: Option<(Option<Vec3>, usize)>)
    requires
        i <= s.len(),
    ensures
        match r {
            Some((o, j)) => parse_ovec3_s(s@, i as int) == Some((ovec3_v(o), j as int))
                && wf_ovec3_v(ovec3_v(o)) && i <= j <= s.len(),
            None => parse_ovec3_s(s@, i as int) is None,
        },
{
    match expect_lit(s, i, "None") {
        Some(j) => Some((None, j)),
        None => match expect_lit(s, i, "Some(") {
            None => None,
            Some(j) => match p_vec3(s, j) {
                None => None,
                Some((v, k)) => match expect_lit(s, k, ")") {
                    None => None,
                    Some(e) => Some((Some(v), e)),
                },
            },
        },
    }
}

fn p_rgba(s: &Vec<char>, i: usize) -> (r: Option<(Rgba, usize)>)
    requires
        i <= s.len(),
    ensures
        match r {
            Some((v, j)) => parse_rgba_s(s@, i as int) == Some((rgba_v(v), j as int))
                && wf_orgba_v(Some(rgba_v(v))) && i <= j <= s.len(),
            None => parse_rgba_s(s@, i as int) is None,
        },
{
    match expect_lit(s, i, "(") {
        None => None,
        Some(j0) => match p_fx(s, j0) {
            None => None,
            Some((a, j1)) => match expect_lit(s, j1, ", ") {
                None => None,
                Some(j2) => match p_fx(s, j2) {
                    None => None,
                    Some((b, j3)) => match expect_lit(s, j3, ", ") {
                        None => None,
                        Some(j4) => match p_fx(s, j4) {
                            None => None,
                            Some((c, j5)) => match expect_lit(s, j5, ", ") {
                                None => None,
                                Some(j6) => match p_fx(s, j6) {
                                    None => None,
                                    Some((d, j7)) => match expect_lit(s, j7, ")") {
                                        None => None,
                                        Some(e) => Some(
                                            (Rgba { r: a, g: b, b: c, a: d }, e),
                                        ),
                                    },
                                },
                            },
                        },
                    },
                },
            },
        },
    }
}

fn p_orgba(s: &Vec<char>, i: usize) -> (r: Option<(Option<Rgba>, usize)>)
    requires
        i <= s.len(),
    ensures
        match r {
            Some((o, j)) => parse_orgba_s(s@, i as int) == Some((orgba_v(o), j as int))
                && wf_orgba_v(orgba_v(o)) && i <= j <= s.len(),
            None => parse_orgba_s(s@, i as int) is None,
        },
{
    match expect_lit(s, i, "None") {
        Some(j) => Some((None, j)),
        None => match expect_lit(s, i, "Some(") {
            None => None,
            Some(j) => match p_rgba(s, j) {
                None => None,
                Some((v, k)) => match expect_lit(s, k, ")") {
                    None => None,
                    Some(e) => Some((Some(v), e)),
                },
            },
        },
    }
}

fn p_obool(s: &Vec<char>, i: usize) -> (r: Option<(Option<bool>, usize)>)
    requires
        i <= s.len(),
    ensures
        match r {
            Some((o, j)) => parse_obool_s(s@, i as int) == Some((o, j as int)) && i <= j
                <= s.len(),
            None => parse_obool_s(s@, i as int) is None,
        },
{
    match expect_lit(s, i, "None") {
        Some(j) => Some((None, j)),
        None => match expect_lit(s, i, "Some(true)") {
            Some(j) => Some((Some(true), j)),
            None => match expect_lit(s, i, "Some(false)") {
                Some(j) => Some((Some(false), j)),
                None => None,
            },
        },
    }
}

fn p_shape(s: &Vec<char>, i: usize) -> (r: Option<(MeshShape, usize)>)
    requires
        i <= s.len(),
    ensures
        match r {
            Some((sh, j)) => parse_shape_s(s@, i as int) == Some((shape_v(sh), j as int))
                && wf_oshape_v(Some(shape_v(sh))) && i <= j <= s.len(),
            None => parse_shape_s(s@, i as int) is None,
        },
{
    match expect_lit(s, i, "Circle(radius: ") {
        Some(j) => match p_ofx(s, j) {
            None => None,
            Some((radius, k)) => match expect_lit(s, k, ")") {
                None => None,
                Some(e) => Some((MeshShape::Circle { radius }, e)),
            },
        },
        None => match expect_lit(s, i, "Cuboid(x: ") {
            None => None,
            Some(j0) => match p_ofx(s, j0) {
                None => None,
                Some((x, j1)) => match expect_lit(s, j1, ", y: ") {
                    None => None,
                    Some(j2) => match p_ofx(s, j2) {
                        None => None,
                        Some((y, j3)) => match expect_lit(s, j3, ", z: ") {
                            None => None,
                            Some(j4) => match p_ofx(s, j4) {
                                None => None,
                                Some((z, j5)) => match expect_lit(s, j5, ")") {
                                    None => None,
                                    Some(e) => Some((MeshShape::Cuboid { x, y, z }, e)),
                                },
                            },
                        },
                    },
                },
            },
        },
    }
}

fn p_oshape(s: &Vec<char>, i: usize) -> (r: Option<(Option<MeshShape>, usize)>)
    requires
        i <= s.len(),
    ensures
        match r {
            Some((o, j)) => parse_oshape_s(s@, i as int) == Some((oshape_v(o), j as int))
                && wf_oshape_v(oshape_v(o)) && i <= j <= s.len(),
            None => parse_oshape_s(s@, i as int) is None,
        },
{
    match expect_lit(s, i, "None") {
        Some(j) => Some((None, j)),
        None => match expect_lit(s, i, "Some(") {
            None => None,
            Some(j) => match p_shape(s, j) {
                None => None,
                Some((sh, k)) => match expect_lit(s, k, ")") {
                    None => None,
                    Some(e) => Some((Some(sh), e)),
                },
            },
        },
    }
}

#[verifier::rlimit(80)]
#[verifier::spinoff_prover]
fn p_comp(s: &Vec<char>, i: usize) -> (r: Option<(ComponentDoc, usize)>)
    requires
        i <= s.len(),
    ensures
        match r {
            Some((c, j)) => parse_comp_s(s@, i as int) == Some((comp_v(c), j as int))
                && wf_comp_v(comp_v(c)) && i <= j <= s.len(),
            None => parse_comp_s(s@, i as int) is None,
        },
{
    proof {
        reveal(parse_comp_s);
    }
    match expect_lit(s, i, "Transform(\n          translation: ") {
        Some(j0) => match p_ovec3(s, j0) {
            None => None,
            Some((translation, j1)) => match expect_lit(s, j1, ",\n          look_at: ") {
                None => None,
                Some(j2) => match p_ovec3(s, j2) {
                    None => None,
                    Some((look_at, j3)) => match expect_lit(s, j3, ",\n          rot_x_deg: ") {
                        None => None,
                        Some(j4) => match p_ofx(s, j4) {
                            None => None,
                            Some((rot_x_deg, j5)) => match expect_lit(s, j5, ",\n        )") {
                                None => None,
                                Some(e) => Some(
                                    (
                                        ComponentDoc {
                                            data: CompData::Transform {
                                                translation,
                                                look_at,
                                                rot_x_deg,
                                            },
                                        },
                                        e,
                                    ),
                                ),
                            },
                        },
                    },
                },
            },
        },
        None => match expect_lit(s, i, "Mesh3d(\n          shape: ") {
            Some(j0) => match p_oshape(s, j0) {
                None => None,
                Some((shape, j1)) => match expect_lit(s, j1, ",\n        )") {
                    None => None,
                    Some(e) => Some((ComponentDoc { data: CompData::Mesh3d { shape } }, e)),
                },
            },
            None => match expect_lit(s, i, "Material3d(\n          color: ") {
                Some(j0) => match p_orgba(s, j0) {
                    None => None,
                    Some((color, j1)) => match expect_lit(s, j1, ",\n        )") {
                        None => None,
                        Some(e) => Some(
                            (ComponentDoc { data: CompData::Material3d { color } }, e),
                        ),
                    },
                },
                None => match expect_lit(s, i, "PointLight(\n          shadows_enabled: ") {
                    Some(j0) => match p_obool(s, j0) {
                        None => None,
                        Some((shadows_enabled, j1)) => match expect_lit(s, j1, ",\n        )") {
                            None => None,
                            Some(e) => Some(
                                (
                                    ComponentDoc {
                                        data: CompData::PointLight { shadows_enabled },
                                    },
                                    e,
                                ),
                            ),
                        },
                    },
                    None => match expect_lit(s, i, "Camera3d()") {
                        Some(e) => Some((ComponentDoc { data: CompData::Camera3d }, e)),
                        None => None,
                    },
                },
            },
        },
    }
}

#[verifier::rlimit(80)]
#[verifier::spinoff_prover]
fn p_comps_items(s: &Vec<char>, i: usize) -> (r: Option<(Vec<ComponentDoc>, usize)>)
    requires
        i <= s.len(),
    ensures
        match r {
            Some((cs, j)) => parse_comps_items_s(s@, i as int) == Some(
                (cs@.map_values(|c: ComponentDoc| comp_v(c)), j as int),
            ) && (forall|k: int| 0 <= k < cs@.len() ==> wf_comp_v(comp_v(#[trigger] cs@[k]))) && i
                <= j <= s.len(),
            None => parse_comps_items_s(s@, i as int) is None,
        },
    decreases s.len() - i,
{
    match expect_lit(s, i, "      ]") {
        Some(j) => {
            let cs: Vec<ComponentDoc> = Vec::new();
            proof {
                assert(cs@.map_values(|c: ComponentDoc| comp_v(c)) =~= Seq::<CompV>::empty());
            }
            Some((cs, j))
        },
        None => match expect_lit(s, i, "        ") {
            None => None,
            Some(j0) => match p_comp(s, j0) {
                None => None,
                Some((c, j1)) => match expect_lit(s, j1, ",\n") {
                    None => None,
                    Some(j2) => {
                        proof {
                            reveal_strlit("        ");
                            reveal_strlit(",\n");
                            assert(j2 > i);
                            assert(bump(i as int, j2 as int) == j2 as int);
                        }
                        match p_comps_items(s, j2) {
                            None => None,
                            Some((rest, e)) => {
                                let mut cs = rest;
                                cs.insert(0, c);
                                proof {
                                    assert(cs@.map_values(|x: ComponentDoc| comp_v(x)) =~= seq![
                                        comp_v(c),
                                    ] + cs@.drop_first().map_values(
                                        |x: ComponentDoc| comp_v(x),
                                    ));
                                    assert(cs@.drop_first() =~= rest@);
                                }
                                Some((cs, e))
                            },
                        }
                    },
                },
            },
        },
    }
}

fn p_comps(s: &Vec<char>, i: usize) -> (r: Option<(Vec<ComponentDoc>, usize)>)
    requires
        i <= s.len(),
    ensures
        match r {
            Some((cs, j)) => parse_comps_s(s@, i as int) == Some(
                (cs@.map_values(|c: ComponentDoc| comp_v(c)), j as int),
            ) && (forall|k: int| 0 <= k < cs@.len() ==> wf_comp_v(comp_v(#[trigger] cs@[k]))) && i
                <= j <= s.len(),
            None => parse_comps_s(s@, i as int) is None,
        },
{
    match expect_lit(s, i, "[]") {
        Some(j) => {
            let cs: Vec<ComponentDoc> = Vec::new();
            proof {
                assert(cs@.map_values(|c: ComponentDoc| comp_v(c)) =~= Seq::<CompV>::empty());
            }
            Some((cs, j))
        },
        None => match expect_lit(s, i, "[\n") {
            None => None,
            Some(j) => p_comps_items(s, j),
        },
    }
}

#[verifier::rlimit(80)]
#[verifier::spinoff_prover]
fn p_entity(s: &Vec<char>, i: usize) -> (r: Option<(EntityDoc, usize)>)
    requires
        i <= s.len(),
    ensures
        match r {
            Some((en, j)) => parse_entity_s(s@, i as int) == Some((entity_v(en), j as int))
                && wf_entity_v(entity_v(en)) && i <= j <= s.len(),
            None => parse_entity_s(s@, i as int) is None,
        },
{
    proof {
        reveal(parse_entity_s);
    }
    match expect_lit(s, i, "EntityDoc(\n      id: \"") {
        None => None,
        Some(j0) => match scan_string(s, j0) {
            None => None,
            Some((idv, j1)) => match expect_lit(s, j1, ",\n      components: ") {
                None => None,
                Some(j2) => match p_comps(s, j2) {
                    None => None,
                    Some((components, j3)) => match expect_lit(s, j3, ",\n    )") {
                        None => None,
                        Some(e) => {
                            let ghost idseq = idv@;
                            let id = string_of(idv);
                            let en = EntityDoc { id, components };
                            proof {
                                assert(entity_v(en).id == idseq);
                                assert(entity_v(en).components == en.components@.map_values(
                                    |c: ComponentDoc| comp_v(c),
                                ));
                            }
                            Some((en, e))
                        },
                    },
                },
            },
        },
    }
}

#[verifier::rlimit(80)]
#[verifier::spinoff_prover]
fn p_entities_items(s: &Vec<char>, i: usize) -> (r: Option<(Vec<EntityDoc>, usize)>)
    requires
        i <= s.len(),
    ensures
        match r {
            Some((es, j)) => parse_entities_items_s(s@, i as int) == Some(
                (es@.map_values(|e: EntityDoc| entity_v(e)), j as int),
            ) && (forall|k: int| 0 <= k < es@.len() ==> wf_entity_v(entity_v(#[trigger] es@[k])))
                && i <= j <= s.len(),
            None => parse_entities_items_s(s@, i as int) is None,
        },
    decreases s.len() - i,
{
    match expect_lit(s, i, "  ]") {
        Some(j) => {
            let es: Vec<EntityDoc> = Vec::new();
            proof {
                assert(es@.map_values(|e: EntityDoc| entity_v(e)) =~= Seq::<EntityV>::empty());
            }
            Some((es, j))
        },
        None => match expect_lit(s, i, "    ") {
            None => None,
            Some(j0) => match p_entity(s, j0) {
                None => None,
                Some((en, j1)) => match expect_lit(s, j1, ",\n") {
                    None => None,
                    Some(j2) => {
                        proof {
                            reveal_strlit("    ");
                            reveal_strlit(",\n");
                            assert(j2 > i);
                            assert(bump(i as int, j2 as int) == j2 as int);
                        }
                        match p_entities_items(s, j2) {
                            None => None,
                            Some((rest, e)) => {
                                let mut es = rest;
                                es.insert(0, en);
                                proof {
                                    assert(es@.map_values(|x: EntityDoc| entity_v(x)) =~= seq![
                                        entity_v(en),
                                    ] + es@.drop_first().map_values(|x: EntityDoc| entity_v(x)));
                                    assert(es@.drop_first() =~= rest@);
                                }
                                Some((es, e))
                            },
                        }
                    },
                },
            },
        },
    }
}

fn p_entities(s: &Vec<char>, i: usize) -> (r: Option<(Vec<EntityDoc>, usize)>)
    requires
        i <= s.len(),
    ensures
        match r {
            Some((es, j)) => parse_entities_s(s@, i as int) == Some(
                (es@.map_values(|e: EntityDoc| entity_v(e)), j as int),
            ) && (forall|k: int| 0 <= k < es@.len() ==> wf_entity_v(entity_v(#[trigger] es@[k])))
                && i <= j <= s.len(),
            None => parse_entities_s(s@, i as int) is None,
        },
{
    match expect_lit(s, i, "[]") {
        Some(j) => {
            let es: Vec<EntityDoc> = Vec::new();
            proof {
                assert(es@.map_values(|e: EntityDoc| entity_v(e)) =~= Seq::<EntityV>::empty());
            }
            Some((es, j))
        },
        None => match expect_lit(s, i, "[\n") {
            None => None,
            Some(j) => p_entities_items(s, j),
        },
    }
}

/// Parses the canonical text form of a scene document.  Returns the
/// document exactly when the whole text follows the grammar; any parsed
/// document is well formed.
pub fn parse_scene(text: &str) -> (r: Option<SceneDoc>)
    ensures
        match r {
            Some(d) => parse_scene_s(text@) == Some(scene_v(d)) && wf_scene_v(scene_v(d)),
            None => parse_scene_s(text@) is None,
        },
{
    let s = chars_vec(text);
    match expect_lit(&s, 0, "SceneDoc(\n  entities: ") {
        None => None,
        Some(j0) => match p_entities(&s, j0) {
            None => None,
            Some((entities, j1)) => match expect_lit(&s, j1, ",\n)\n") {
                None => None,
                Some(e) => {
                    if e == s.len() {
                        let d = SceneDoc { entities };
                        proof {
                            assert(scene_v(d).entities == d.entities@.map_values(
                                |x: EntityDoc| entity_v(x),
                            ));
                            assert forall|k: int|
                                0 <= k < scene_v(d).entities.len() implies wf_entity_v(
                                #[trigger] scene_v(d).entities[k],
                            ) by {
                                assert(scene_v(d).entities[k] == entity_v(d.entities@[k]));
                            }
                        }
                        Some(d)
                    } else {
                        None
                    }
                },
            },
        },
    }
}

/// The two directions together, on concrete documents: serializing a
/// well-formed document and parsing the text yields an equal document.
pub proof fn lemma_document_round_trip(d: SceneDoc)
    requires
        wf_scene_v(scene_v(d)),
    ensures
        parse_scene_s(ser_scene(scene_v(d))) == Some(scene_v(d)),
{
    lemma_scene_round_trip(scene_v(d));
}

} // verus!

