//! The in-memory scene document model: an ordered sequence of entities,
//! each carrying an ordered sequence of typed components.
//!
//! Fractional quantities are held as [`Fx`] fixed-point scalars so that
//! the on-disk text form round-trips exactly.

use vstd::prelude::*;

verus! {

/// Fixed-point scalar: a signed count of thousandths.
#[derive(Clone, Copy, PartialEq, Eq, Structural, Debug)]
pub struct Fx {
    pub milli: i64,
}

/// Bound on the magnitude of a scalar, in thousandths.
pub const FX_LIMIT: i64 = 1_000_000_000_000_000_000;

impl Fx {
    /// The mathematical value of this scalar, in thousandths.
    pub open spec fn view(&self) -> int {
        self.milli as int
    }

    /// A scalar is well formed when its magnitude stays below `FX_LIMIT`.
    pub open spec fn wf(&self) -> bool {
        -(FX_LIMIT as int) < (self.milli as int) && (self.milli as int) < (FX_LIMIT as int)
    }

    /// Builds a scalar from whole units and positive thousandths.
    pub fn from_parts(units: i32, thousandths: u16) -> (r: Fx)
        requires
            thousandths < 1000,
        ensures
            r.wf(),
            r.view() == units * 1000 + (if units < 0 { -(thousandths as int) } else {
                thousandths as int
            }),
    {
        let base: i64 = (units as i64) * 1000;
        if units < 0 {
            Fx { milli: base - thousandths as i64 }
        } else {
            Fx { milli: base + thousandths as i64 }
        }
    }
}

/// A position or direction, one scalar per axis.
#[derive(Clone, Copy, PartialEq, Eq, Structural, Debug)]
pub struct Vec3 {
    pub x: Fx,
    pub y: Fx,
    pub z: Fx,
}

/// An RGBA color with fixed-point channels.
#[derive(Clone, Copy, PartialEq, Eq, Structural, Debug)]
pub struct Rgba {
    pub r: Fx,
    pub g: Fx,
    pub b: Fx,
    pub a: Fx,
}

/// The geometry carried by a mesh component.
#[derive(Clone, Copy, PartialEq, Eq, Structural, Debug)]
pub enum MeshShape {
    Circle { radius: Option<Fx> },
    Cuboid { x: Option<Fx>, y: Option<Fx>, z: Option<Fx> },
}

/// A component's payload, keyed by component kind.  Every field is
/// optional, mirroring the authoring format where absent fields fall
/// back to runtime defaults.
#[derive(Clone, Copy, PartialEq, Eq, Structural, Debug)]
pub enum CompData {
    Transform { translation: Option<Vec3>, look_at: Option<Vec3>, rot_x_deg: Option<Fx> },
    Mesh3d { shape: Option<MeshShape> },
    Material3d { color: Option<Rgba> },
    PointLight { shadows_enabled: Option<bool> },
    Camera3d,
}

/// One component of an entity.
#[derive(Clone, Copy, PartialEq, Eq, Structural, Debug)]
pub struct ComponentDoc {
    pub data: CompData,
}

/// One authored entity: an identifier used as a UI key (uniqueness is
/// expected but deliberately not enforced) and its components, in
/// authoring order.
#[derive(Clone, Debug)]
pub struct EntityDoc {
    pub id: String,
    pub components: Vec<ComponentDoc>,
}

/// The root scene aggregate: entities in authoring order.
#[derive(Clone, Debug)]
pub struct SceneDoc {
    pub entities: Vec<EntityDoc>,
}

// ---------------------------------------------------------------------
// Mathematical views
// ---------------------------------------------------------------------
/// View of a mesh shape, with scalars as integers.
pub ghost enum ShapeV {
    Circle { radius: Option<int> },
    Cuboid { x: Option<int>, y: Option<int>, z: Option<int> },
}

/// View of a component payload.
pub ghost enum CompV {
    Transform {
        translation: Option<(int, int, int)>,
        look_at: Option<(int, int, int)>,
        rot_x_deg: Option<int>,
    },
    Mesh3d { shape: Option<ShapeV> },
    Material3d { color: Option<(int, int, int, int)> },
    PointLight { shadows_enabled: Option<bool> },
    Camera3d,
}

/// View of an entity.
pub ghost struct EntityV {
    pub id: Seq<char>,
    pub components: Seq<CompV>,
}

/// View of a whole scene document.
pub ghost struct SceneV {
    pub entities: Seq<EntityV>,
}

pub open spec fn ofx_v(o: Option<Fx>) -> Option<int> {
    match o {
        None => None,
        Some(f) => Some(f.view()),
    }
}

pub open spec fn vec3_v(v: Vec3) -> (int, int, int) {
    (v.x.view(), v.y.view(), v.z.view())
}

pub open spec fn ovec3_v(o: Option<Vec3>) -> Option<(int, int, int)> {
    match o {
        None => None,
        Some(v) => Some(vec3_v(v)),
    }
}

pub open spec fn rgba_v(c: Rgba) -> (int, int, int, int) {
    (c.r.view(), c.g.view(), c.b.view(), c.a.view())
}

pub open spec fn orgba_v(o: Option<Rgba>) -> Option<(int, int, int, int)> {
    match o {
        None => None,
        Some(c) => Some(rgba_v(c)),
    }
}

pub open spec fn shape_v(s: MeshShape) -> ShapeV {
    match s {
        MeshShape::Circle { radius } => ShapeV::Circle { radius: ofx_v(radius) },
        MeshShape::Cuboid { x, y, z } => ShapeV::Cuboid {
            x: ofx_v(x),
            y: ofx_v(y),
            z: ofx_v(z),
        },
    }
}

pub open spec fn oshape_v(o: Option<MeshShape>) -> Option<ShapeV> {
    match o {
        None => None,
        Some(s) => Some(shape_v(s)),
    }
}

pub open spec fn comp_v(c: ComponentDoc) -> CompV {
    match c.data {
        CompData::Transform { translation, look_at, rot_x_deg } => CompV::Transform {
            translation: ovec3_v(translation),
            look_at: ovec3_v(look_at),
            rot_x_deg: ofx_v(rot_x_deg),
        },
        CompData::Mesh3d { shape } => CompV::Mesh3d { shape: oshape_v(shape) },
        CompData::Material3d { color } => CompV::Material3d { color: orgba_v(color) },
        CompData::PointLight { shadows_enabled } => CompV::PointLight { shadows_enabled },
        CompData::Camera3d => CompV::Camera3d,
    }
}

pub open spec fn entity_v(e: EntityDoc) -> EntityV {
    EntityV { id: e.id@, components: e.components@.map_values(|c: ComponentDoc| comp_v(c)) }
}

pub open spec fn scene_v(d: SceneDoc) -> SceneV {
    SceneV { entities: d.entities@.map_values(|e: EntityDoc| entity_v(e)) }
}

// ---------------------------------------------------------------------
// Well-formedness
// ---------------------------------------------------------------------
/// A scalar view is well formed when its magnitude stays below the
/// fixed-point limit.
pub open spec fn wf_fx_v(m: int) -> bool {
    -(FX_LIMIT as int) < m && m < (FX_LIMIT as int)
}

pub open spec fn wf_ofx_v(o: Option<int>) -> bool {
    match o {
        None => true,
        Some(m) => wf_fx_v(m),
    }
}

pub open spec fn wf_ovec3_v(o: Option<(int, int, int)>) -> bool {
    match o {
        None => true,
        Some(t) => wf_fx_v(t.0) && wf_fx_v(t.1) && wf_fx_v(t.2),
    }
}

pub open spec fn wf_orgba_v(o: Option<(int, int, int, int)>) -> bool {
    match o {
        None => true,
        Some(t) => wf_fx_v(t.0) && wf_fx_v(t.1) && wf_fx_v(t.2) && wf_fx_v(t.3),
    }
}

pub open spec fn wf_oshape_v(o: Option<ShapeV>) -> bool {
    match o {
        None => true,
        Some(ShapeV::Circle { radius }) => wf_ofx_v(radius),
        Some(ShapeV::Cuboid { x, y, z }) => wf_ofx_v(x) && wf_ofx_v(y) && wf_ofx_v(z),
    }
}

pub open spec fn wf_comp_v(c: CompV) -> bool {
    match c {
        CompV::Transform { translation, look_at, rot_x_deg } => wf_ovec3_v(translation)
            && wf_ovec3_v(look_at) && wf_ofx_v(rot_x_deg),
        CompV::Mesh3d { shape } => wf_oshape_v(shape),
        CompV::Material3d { color } => wf_orgba_v(color),
        CompV::PointLight { shadows_enabled: _ } => true,
        CompV::Camera3d => true,
    }
}

/// An identifier may hold any character except a double quote, which
/// delimits it in the text form.
pub open spec fn wf_id_v(id: Seq<char>) -> bool {
    forall|k: int| 0 <= k < id.len() ==> #[trigger] id[k] != '"'
}

pub open spec fn wf_entity_v(e: EntityV) -> bool {
    wf_id_v(e.id) && forall|k: int|
        0 <= k < e.components.len() ==> wf_comp_v(#[trigger] e.components[k])
}

/// A scene document is well formed when every identifier is quotable
/// and every scalar stays within the fixed-point range.
pub open spec fn wf_scene_v(v: SceneV) -> bool {
    forall|k: int| 0 <= k < v.entities.len() ==> wf_entity_v(#[trigger] v.entities[k])
}

// ---------------------------------------------------------------------
// Executable well-formedness and equality checks
// ---------------------------------------------------------------------
fn fx_wf(f: &Fx) -> (r: bool)
    ensures
        r == wf_fx_v(f.view()),
{
    -FX_LIMIT < f.milli && f.milli < FX_LIMIT
}

fn ofx_wf(o: &Option<Fx>) -> (r: bool)
    ensures
        r == wf_ofx_v(ofx_v(*o)),
{
    match o {
        None => true,
        Some(f) => fx_wf(f),
    }
}

fn comp_wf(c: &ComponentDoc) -> (r: bool)
    ensures
        r == wf_comp_v(comp_v(*c)),
{
    match &c.data {
        CompData::Transform { translation, look_at, rot_x_deg } => {
            let tr_ok = match translation {
                None => true,
                Some(v) => fx_wf(&v.x) && fx_wf(&v.y) && fx_wf(&v.z),
            };
            let la_ok = match look_at {
                None => true,
                Some(v) => fx_wf(&v.x) && fx_wf(&v.y) && fx_wf(&v.z),
            };
            tr_ok && la_ok && ofx_wf(rot_x_deg)
        },
        CompData::Mesh3d { shape } => match shape {
            None => true,
            Some(MeshShape::Circle { radius }) => ofx_wf(radius),
            Some(MeshShape::Cuboid { x, y, z }) => ofx_wf(x) && ofx_wf(y) && ofx_wf(z),
        },
        CompData::Material3d { color } => match color {
            None => true,
            Some(c) => fx_wf(&c.r) && fx_wf(&c.g) && fx_wf(&c.b) && fx_wf(&c.a),
        },
        CompData::PointLight { shadows_enabled: _ } => true,
        CompData::Camera3d => true,
    }
}

fn id_wf(id: &String) -> (r: bool)
    ensures
        r == wf_id_v(id@),
{
    let v = crate::text::chars_vec(id.as_str());
    let mut k: usize = 0;
    while k < v.len()
        invariant
            k <= v.len(),
            v@ == id@,
            forall|m: int| 0 <= m < k ==> #[trigger] id@[m] != '"',
        decreases v.len() - k,
    {
        if v[k] == '"' {
            return false;
        }
        k = k + 1;
    }
    true
}

/// Whether every identifier and scalar of `d` is storable in the text
/// form; serialization requires this.
pub fn scene_wf(d: &SceneDoc) -> (r: bool)
    ensures
        r == wf_scene_v(scene_v(*d)),
{
    let mut i: usize = 0;
    while i < d.entities.len()
        invariant
            i <= d.entities.len(),
            forall|m: int| 0 <= m < i ==> wf_entity_v(#[trigger] scene_v(*d).entities[m]),
        decreases d.entities.len() - i,
    {
        let e = &d.entities[i];
        if !id_wf(&e.id) {
            proof {
                assert(scene_v(*d).entities[i as int] == entity_v(d.entities@[i as int]));
            }
            return false;
        }
        let mut j: usize = 0;
        while j < e.components.len()
            invariant
                i < d.entities.len(),
                j <= e.components.len(),
                e == &d.entities[i as int],
                wf_id_v(e.id@),
                forall|m: int| 0 <= m < j ==> wf_comp_v(#[trigger] entity_v(*e).components[m]),
            decreases e.components.len() - j,
        {
            if !comp_wf(&e.components[j]) {
                proof {
                    assert(scene_v(*d).entities[i as int] == entity_v(d.entities@[i as int]));
                    assert(entity_v(*e).components[j as int] == comp_v(e.components@[j as int]));
                }
                return false;
            }
            proof {
                assert(entity_v(*e).components[j as int] == comp_v(e.components@[j as int]));
            }
            j = j + 1;
        }
        proof {
            assert(scene_v(*d).entities[i as int] == entity_v(d.entities@[i as int]));
        }
        i = i + 1;
    }
    true
}

fn comp_eq(a: &ComponentDoc, b: &ComponentDoc) -> (r: bool)
    ensures
        r == (comp_v(*a) == comp_v(*b)),
{
    let r = *a == *b;
    proof {
        if comp_v(*a) == comp_v(*b) {
            assert(*a == *b);
        }
    }
    r
}

fn entity_eq(a: &EntityDoc, b: &EntityDoc) -> (r: bool)
    ensures
        r == (entity_v(*a) == entity_v(*b)),
{
    if a.id != b.id {
        return false;
    }
    if a.components.len() != b.components.len() {
        proof {
            assert(entity_v(*a).components.len() != entity_v(*b).components.len());
        }
        return false;
    }
    let mut j: usize = 0;
    while j < a.components.len()
        invariant
            a.components.len() == b.components.len(),
            j <= a.components.len(),
            a.id@ == b.id@,
            forall|m: int|
                0 <= m < j ==> #[trigger] entity_v(*a).components[m] == entity_v(*b).components[m],
        decreases a.components.len() - j,
    {
        if !comp_eq(&a.components[j], &b.components[j]) {
            proof {
                assert(entity_v(*a).components[j as int] == comp_v(a.components@[j as int]));
                assert(entity_v(*b).components[j as int] == comp_v(b.components@[j as int]));
            }
            return false;
        }
        proof {
            assert(entity_v(*a).components[j as int] == comp_v(a.components@[j as int]));
            assert(entity_v(*b).components[j as int] == comp_v(b.components@[j as int]));
        }
        j = j + 1;
    }
    proof {
        assert(entity_v(*a).components =~= entity_v(*b).components);
    }
    true
}

/// Structural equality of two scene documents, stated over their views:
/// entity order, component order and every field must agree.
pub fn scene_eq(a: &SceneDoc, b: &SceneDoc) -> (r: bool)
    ensures
        r == (scene_v(*a) == scene_v(*b)),
{
    if a.entities.len() != b.entities.len() {
        proof {
            assert(scene_v(*a).entities.len() != scene_v(*b).entities.len());
        }
        return false;
    }
    let mut i: usize = 0;
    while i < a.entities.len()
        invariant
            a.entities.len() == b.entities.len(),
            i <= a.entities.len(),
            forall|m: int|
                0 <= m < i ==> #[trigger] scene_v(*a).entities[m] == scene_v(*b).entities[m],
        decreases a.entities.len() - i,
    {
        if !entity_eq(&a.entities[i], &b.entities[i]) {
            proof {
                assert(scene_v(*a).entities[i as int] == entity_v(a.entities@[i as int]));
                assert(scene_v(*b).entities[i as int] == entity_v(b.entities@[i as int]));
            }
            return false;
        }
        proof {
            assert(scene_v(*a).entities[i as int] == entity_v(a.entities@[i as int]));
            assert(scene_v(*b).entities[i as int] == entity_v(b.entities@[i as int]));
        }
        i = i + 1;
    }
    proof {
        assert(scene_v(*a).entities =~= scene_v(*b).entities);
    }
    true
}

impl ComponentDoc {
    /// The component kind's tag, as it appears in the text form.
    pub fn type_id(&self) -> (r: String)
        ensures
            r@ == match comp_v(*self) {
                CompV::Transform { .. } => "Transform"@,
                CompV::Mesh3d { .. } => "Mesh3d"@,
                CompV::Material3d { .. } => "Material3d"@,
                CompV::PointLight { .. } => "PointLight"@,
                CompV::Camera3d => "Camera3d"@,
            },
    {
        match &self.data {
            CompData::Transform { .. } => "Transform".to_owned(),
            CompData::Mesh3d { .. } => "Mesh3d".to_owned(),
            CompData::Material3d { .. } => "Material3d".to_owned(),
            CompData::PointLight { .. } => "PointLight".to_owned(),
            CompData::Camera3d => "Camera3d".to_owned(),
        }
    }
}

} // verus!
