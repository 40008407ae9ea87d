use editor_core::project::{OpenError, ProjectState, SaveError};
use editor_core::project::{parse_config, DiskSnapshot};
use editor_core::scene::{
    scene_eq, scene_wf, CompData, ComponentDoc, EntityDoc, Fx, MeshShape, Rgba, SceneDoc, Vec3,
};
use editor_core::scene_text::{parse_scene, serialize_scene};

fn fx(milli: i64) -> Fx {
    Fx { milli }
}

fn comp(data: CompData) -> ComponentDoc {
    ComponentDoc { data }
}

fn sample_scene() -> SceneDoc {
    SceneDoc {
        entities: vec![
            EntityDoc {
                id: "props".to_string(),
                components: vec![
                    comp(CompData::Transform {
                        translation: Some(Vec3 { x: fx(0), y: fx(1000), z: fx(2000) }),
                        look_at: Some(Vec3 { x: fx(-1500), y: fx(0), z: fx(250) }),
                        rot_x_deg: Some(fx(-90_000)),
                    }),
                    comp(CompData::Mesh3d {
                        shape: Some(MeshShape::Circle { radius: Some(fx(2000)) }),
                    }),
                    comp(CompData::Material3d {
                        color: Some(Rgba { r: fx(1000), g: fx(0), b: fx(0), a: fx(1000) }),
                    }),
                ],
            },
            EntityDoc {
                id: "lamp".to_string(),
                components: vec![
                    comp(CompData::PointLight { shadows_enabled: Some(true) }),
                    comp(CompData::Mesh3d {
                        shape: Some(MeshShape::Cuboid {
                            x: Some(fx(1000)),
                            y: None,
                            z: Some(fx(333)),
                        }),
                    }),
                ],
            },
            EntityDoc { id: "cam".to_string(), components: vec![comp(CompData::Camera3d)] },
        ],
    }
}

#[test]
fn round_trip_preserves_document() {
    let doc = sample_scene();
    assert!(scene_wf(&doc));
    let text = serialize_scene(&doc);
    let back = parse_scene(&text).expect("canonical text parses");
    assert!(scene_eq(&doc, &back));
}

#[test]
fn round_trip_empty_scene() {
    let doc = SceneDoc { entities: vec![] };
    let text = serialize_scene(&doc);
    assert_eq!(text, "SceneDoc(\n  entities: [],\n)\n");
    let back = parse_scene(&text).expect("empty scene parses");
    assert!(scene_eq(&doc, &back));
    assert_eq!(back.entities.len(), 0);
}

#[test]
fn serialization_is_canonical() {
    let doc = sample_scene();
    let text = serialize_scene(&doc);
    let back = parse_scene(&text).unwrap();
    assert_eq!(serialize_scene(&back), text);
}

#[test]
fn negative_scalars_round_trip() {
    let doc = SceneDoc {
        entities: vec![EntityDoc {
            id: "e".to_string(),
            components: vec![comp(CompData::Transform {
                translation: Some(Vec3 { x: fx(-1), y: fx(-999), z: fx(-1_000_001) }),
                look_at: None,
                rot_x_deg: Some(fx(0)),
            })],
        }],
    };
    let text = serialize_scene(&doc);
    let back = parse_scene(&text).unwrap();
    assert!(scene_eq(&doc, &back));
}

const TWO_ENTITY_SCENE: &str = "SceneDoc(\n  entities: [\n    EntityDoc(\n      id: \"props\",\n      components: [\n        Transform(\n          translation: Some((0.000, 1.000, 2.000)),\n          look_at: None,\n          rot_x_deg: None,\n        ),\n        Mesh3d(\n          shape: Some(Circle(radius: Some(2.000))),\n        ),\n        Material3d(\n          color: Some((1.000, 0.000, 0.000, 1.000)),\n        ),\n      ],\n    ),\n    EntityDoc(\n      id: \"cam\",\n      components: [\n        Camera3d(),\n      ],\n    ),\n  ],\n)\n";

#[test]
fn two_entity_scene_loads() {
    let doc = parse_scene(TWO_ENTITY_SCENE).expect("scene file parses");
    assert_eq!(doc.entities.len(), 2);
    assert_eq!(doc.entities[0].components.len(), 3);
    assert_eq!(doc.entities[1].components.len(), 1);
    assert_eq!(doc.entities[0].id, "props");
    assert_eq!(doc.entities[0].components[0].type_id(), "Transform");
    assert_eq!(doc.entities[0].components[1].type_id(), "Mesh3d");
    assert_eq!(doc.entities[0].components[2].type_id(), "Material3d");
    assert_eq!(doc.entities[1].components[0].type_id(), "Camera3d");
    match &doc.entities[0].components[1].data {
        CompData::Mesh3d { shape: Some(MeshShape::Circle { radius: Some(r) }) } => {
            assert_eq!(r.milli, 2000);
        }
        other => panic!("unexpected mesh payload: {:?}", other),
    }
    match &doc.entities[0].components[2].data {
        CompData::Material3d { color: Some(c) } => {
            assert_eq!((c.r.milli, c.g.milli, c.b.milli, c.a.milli), (1000, 0, 0, 1000));
        }
        other => panic!("unexpected material payload: {:?}", other),
    }
}

#[test]
fn malformed_scene_is_rejected() {
    assert!(parse_scene("SceneDoc(\n  entities: [\n").is_none());
    assert!(parse_scene("").is_none());
    assert!(parse_scene("SceneDoc(\n  entities: [],\n)\ntrailing").is_none());
}

#[test]
fn quote_in_identifier_is_not_storable() {
    let doc = SceneDoc {
        entities: vec![EntityDoc { id: "a\"b".to_string(), components: vec![] }],
    };
    assert!(!scene_wf(&doc));
}

#[test]
fn fx_from_parts() {
    assert_eq!(Fx::from_parts(2, 0).milli, 2000);
    assert_eq!(Fx::from_parts(-1, 500).milli, -1500);
    assert_eq!(Fx::from_parts(0, 1).milli, 1);
}

const CONFIG_TEXT: &str =
    "ProjectConfig(\n  name: \"sample\",\n  entry: \"src/main.rs\",\n  runtime_version: \"0.16\",\n)\n";

#[test]
fn config_parses() {
    let c = parse_config(CONFIG_TEXT).expect("config parses");
    assert_eq!(c.name, "sample");
    assert_eq!(c.entry, "src/main.rs");
    assert_eq!(c.runtime_version, "0.16");
}

#[test]
fn malformed_config_is_rejected() {
    assert!(parse_config("ProjectConfig(\n  name: \"x\",\n)\n").is_none());
    assert!(parse_config("").is_none());
}

#[test]
fn open_without_config_fails() {
    let r = ProjectState::open("/p".to_string(), None, None);
    assert!(matches!(r, Err(OpenError::MissingConfig)));
}

#[test]
fn open_with_bad_config_fails() {
    let r = ProjectState::open("/p".to_string(), Some("nonsense".to_string()), None);
    assert!(matches!(r, Err(OpenError::BadConfig)));
}

#[test]
fn open_with_bad_scene_fails() {
    let r = ProjectState::open(
        "/p".to_string(),
        Some(CONFIG_TEXT.to_string()),
        Some(("not a scene".to_string(), 7)),
    );
    assert!(matches!(r, Err(OpenError::BadScene)));
}

#[test]
fn open_without_scene_file_succeeds() {
    let st = ProjectState::open("/p".to_string(), Some(CONFIG_TEXT.to_string()), None)
        .expect("open succeeds");
    assert!(st.design_scene.is_none());
    assert!(st.design_mtime.is_none());
    assert_eq!(st.last_diagnostics.len(), 0);
    assert_eq!(st.config.name, "sample");
}

#[test]
fn open_with_scene_file_succeeds() {
    let st = ProjectState::open(
        "/p".to_string(),
        Some(CONFIG_TEXT.to_string()),
        Some((TWO_ENTITY_SCENE.to_string(), 42)),
    )
    .expect("open succeeds");
    let scene = st.design_scene.as_ref().expect("scene loaded");
    assert_eq!(scene.entities.len(), 2);
    assert_eq!(st.design_mtime, Some(42));
}

fn open_sample() -> ProjectState {
    ProjectState::open(
        "/p".to_string(),
        Some(CONFIG_TEXT.to_string()),
        Some((TWO_ENTITY_SCENE.to_string(), 100)),
    )
    .unwrap()
}

#[test]
fn save_without_path_fails() {
    let st = ProjectState::open("/p".to_string(), Some(CONFIG_TEXT.to_string()), None).unwrap();
    assert!(matches!(st.save_design(), Err(SaveError::NoPath)));
}

#[test]
fn save_without_scene_fails() {
    let mut st = open_sample();
    st.design_scene = None;
    assert!(matches!(st.save_design(), Err(SaveError::NoScene)));
}

#[test]
fn save_renders_current_document() {
    let st = open_sample();
    let text = st.save_design().expect("save succeeds");
    let back = parse_scene(&text).unwrap();
    assert!(scene_eq(st.design_scene.as_ref().unwrap(), &back));
}

#[test]
fn reload_applies_newer_file() {
    let mut st = open_sample();
    assert_eq!(st.design_scene.as_ref().unwrap().entities.len(), 2);
    let newer_text = "SceneDoc(\n  entities: [],\n)\n".to_string();
    st.reload_design_if_changed(&DiskSnapshot { mtime: Some(200), text: Some(newer_text) });
    assert_eq!(st.design_scene.as_ref().unwrap().entities.len(), 0);
    assert_eq!(st.design_mtime, Some(200));
}

#[test]
fn reload_twice_without_disk_write_is_noop() {
    let mut st = open_sample();
    let snap = DiskSnapshot {
        mtime: Some(200),
        text: Some("SceneDoc(\n  entities: [],\n)\n".to_string()),
    };
    st.reload_design_if_changed(&snap);
    assert_eq!(st.design_mtime, Some(200));
    assert!(!st.needs_reload(snap.mtime));
    let entities_after_first = st.design_scene.as_ref().unwrap().entities.len();
    st.reload_design_if_changed(&snap);
    assert_eq!(st.design_mtime, Some(200));
    assert_eq!(st.design_scene.as_ref().unwrap().entities.len(), entities_after_first);
}

#[test]
fn reload_keeps_state_on_bad_write_and_retries() {
    let mut st = open_sample();
    let bad = DiskSnapshot { mtime: Some(300), text: Some("half-written garbage".to_string()) };
    st.reload_design_if_changed(&bad);
    // the stale in-memory document is kept and the baseline does not move
    assert_eq!(st.design_scene.as_ref().unwrap().entities.len(), 2);
    assert_eq!(st.design_mtime, Some(100));
    // the next tick retries once the writer finished
    let good = DiskSnapshot {
        mtime: Some(300),
        text: Some("SceneDoc(\n  entities: [],\n)\n".to_string()),
    };
    assert!(st.needs_reload(good.mtime));
    st.reload_design_if_changed(&good);
    assert_eq!(st.design_scene.as_ref().unwrap().entities.len(), 0);
}

#[test]
fn save_then_reload_tick_does_not_reparse() {
    let mut st = open_sample();
    let _text = st.save_design().expect("save succeeds");
    // the surrounding process wrote the file and observed its new time
    st.note_saved(500);
    assert!(!st.needs_reload(Some(500)));
    // even a full tick with the freshly written file changes nothing
    let snap = DiskSnapshot {
        mtime: Some(500),
        text: Some("SceneDoc(\n  entities: [],\n)\n".to_string()),
    };
    st.reload_design_if_changed(&snap);
    assert_eq!(st.design_scene.as_ref().unwrap().entities.len(), 2);
    assert_eq!(st.design_mtime, Some(500));
}

#[test]
fn scalars_at_the_range_limit_round_trip() {
    let doc = SceneDoc {
        entities: vec![EntityDoc {
            id: "edge".to_string(),
            components: vec![comp(CompData::Transform {
                translation: Some(Vec3 {
                    x: fx(999_999_999_999_999_999),
                    y: fx(-999_999_999_999_999_999),
                    z: fx(0),
                }),
                look_at: None,
                rot_x_deg: None,
            })],
        }],
    };
    assert!(scene_wf(&doc));
    let text = serialize_scene(&doc);
    assert!(text.contains("999999999999999.999"));
    let back = parse_scene(&text).unwrap();
    assert!(scene_eq(&doc, &back));
}

#[test]
fn identifiers_may_hold_unusual_characters() {
    let doc = SceneDoc {
        entities: vec![EntityDoc {
            id: "caméra / \u{1F3AE} #1".to_string(),
            components: vec![comp(CompData::Camera3d)],
        }],
    };
    assert!(scene_wf(&doc));
    let back = parse_scene(&serialize_scene(&doc)).unwrap();
    assert!(scene_eq(&doc, &back));
    assert_eq!(back.entities[0].id, "caméra / \u{1F3AE} #1");
}

#[test]
fn oversized_scalar_in_text_is_rejected() {
    let text = "SceneDoc(\n  entities: [\n    EntityDoc(\n      id: \"e\",\n      components: [\n        Mesh3d(\n          shape: Some(Circle(radius: Some(1000000000000000.000))),\n        ),\n      ],\n    ),\n  ],\n)\n";
    assert!(parse_scene(text).is_none());
}
