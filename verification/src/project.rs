//! The project session: configuration, diagnostics and the scene
//! document store with its reload/save lifecycle.
//!
//! The session never touches the disk itself.  The surrounding process
//! reads files and modification times and passes them in; the session
//! holds the baseline modification time and decides, per tick, whether
//! the on-disk document replaces the in-memory one.

use vstd::prelude::*;

use crate::scene::{scene_v, wf_scene_v, SceneDoc, SceneV};
use crate::scene_text::{parse_scene, parse_scene_s, ser_scene, serialize_scene};
use crate::text::{chars_vec, expect_lit, scan_string, spec_expect, spec_scan_string, string_of};

verus! {

/// Project configuration, loaded once at open and immutable thereafter.
pub struct ProjectConfig {
    pub name: String,
    pub entry: String,
    pub runtime_version: String,
}

/// View of a configuration.
pub ghost struct ConfigV {
    pub name: Seq<char>,
    pub entry: Seq<char>,
    pub runtime_version: Seq<char>,
}

pub open spec fn config_v(c: ProjectConfig) -> ConfigV {
    ConfigV { name: c.name@, entry: c.entry@, runtime_version: c.runtime_version@ }
}

/// Parse of the configuration file's canonical text form.
pub open spec fn parse_config_s(s: Seq<char>) -> Option<ConfigV> {
    match spec_expect(s, 0, "ProjectConfig(\n  name: \""@) {
        None => None,
        Some(j0) => match spec_scan_string(s, j0) {
            None => None,
            Some((name, j1)) => match spec_expect(s, j1, ",\n  entry: \""@) {
                None => None,
                Some(j2) => match spec_scan_string(s, j2) {
                    None => None,
                    Some((entry, j3)) => match spec_expect(s, j3, ",\n  runtime_version: \""@) {
                        None => None,
                        Some(j4) => match spec_scan_string(s, j4) {
                            None => None,
                            Some((runtime_version, j5)) => match spec_expect(s, j5, ",\n)\n"@) {
                                None => None,
                                Some(e) => if e == s.len() {
                                    Some(ConfigV { name, entry, runtime_version })
                                } else {
                                    None
                                },
                            },
                        },
                    },
                },
            },
        },
    }
}

/// Parses the project configuration file.
pub fn parse_config(text: &str) -> (r: Option<ProjectConfig>)
    ensures
        match r {
            Some(c) => parse_config_s(text@) == Some(config_v(c)),
            None => parse_config_s(text@) is None,
        },
{
    let s = chars_vec(text);
    match expect_lit(&s, 0, "ProjectConfig(\n  name: \"") {
        None => None,
        Some(j0) => match scan_string(&s, j0) {
            None => None,
            Some((name, j1)) => match expect_lit(&s, j1, ",\n  entry: \"") {
                None => None,
                Some(j2) => match scan_string(&s, j2) {
                    None => None,
                    Some((entry, j3)) => match expect_lit(&s, j3, ",\n  runtime_version: \"") {
                        None => None,
                        Some(j4) => match scan_string(&s, j4) {
                            None => None,
                            Some((runtime_version, j5)) => match expect_lit(&s, j5, ",\n)\n") {
                                None => None,
                                Some(e) => {
                                    if e == s.len() {
                                        Some(
                                            ProjectConfig {
                                                name: string_of(name),
                                                entry: string_of(entry),
                                                runtime_version: string_of(runtime_version),
                                            },
                                        )
                                    } else {
                                        None
                                    }
                                },
                            },
                        },
                    },
                },
            },
        },
    }
}

/// A record of one check failure: a source location and a message.
/// Replaced wholesale by each new check result.
pub struct Diagnostic {
    pub file: String,
    pub line: u32,
    pub col: u32,
    pub msg: String,
}

/// What the session observes of the scene file on disk at one tick:
/// its modification time, and its content, each absent when the file
/// cannot be read.
pub struct DiskSnapshot {
    pub mtime: Option<u64>,
    pub text: Option<String>,
}

pub open spec fn otext_v(o: Option<String>) -> Option<Seq<char>> {
    match o {
        None => None,
        Some(t) => Some(t@),
    }
}

/// View of the scene store: the in-memory document and the baseline
/// modification time.
pub ghost struct StoreV {
    pub scene: Option<SceneV>,
    pub mtime: Option<u64>,
}

pub open spec fn oscene_v(o: Option<SceneDoc>) -> Option<SceneV> {
    match o {
        None => None,
        Some(d) => Some(scene_v(d)),
    }
}

/// Whether an observed modification time counts as newer than the
/// baseline; with no baseline everything counts as newer.
pub open spec fn newer(baseline: Option<u64>, mt: u64) -> bool {
    match baseline {
        None => true,
        Some(t) => mt > t,
    }
}

/// Whether one reload tick would read and parse the file.
pub open spec fn reload_parses(
    st: StoreV,
    has_path: bool,
    disk_mtime: Option<u64>,
    disk_text: Option<Seq<char>>,
) -> bool {
    has_path && disk_mtime is Some && newer(st.mtime, disk_mtime->0) && disk_text is Some
}

/// One reload tick over the store: replace the document and advance the
/// baseline exactly when the file is observably newer and parses; keep
/// the previous state (baseline included, so the next tick retries) on
/// any failure.
pub open spec fn reload_step(
    st: StoreV,
    has_path: bool,
    disk_mtime: Option<u64>,
    disk_text: Option<Seq<char>>,
) -> StoreV {
    if !reload_parses(st, has_path, disk_mtime, disk_text) {
        st
    } else {
        match parse_scene_s(disk_text->0) {
            Some(v) => StoreV { scene: Some(v), mtime: Some(disk_mtime->0) },
            None => st,
        }
    }
}

/// Reload-if-changed is idempotent: with no intervening disk write, a
/// second tick leaves the store exactly as the first left it; and when
/// the first tick parsed successfully, the second does not parse at
/// all.
pub proof fn lemma_reload_idempotent(
    st: StoreV,
    has_path: bool,
    disk_mtime: Option<u64>,
    disk_text: Option<Seq<char>>,
)
    ensures
        reload_step(
            reload_step(st, has_path, disk_mtime, disk_text),
            has_path,
            disk_mtime,
            disk_text,
        ) == reload_step(st, has_path, disk_mtime, disk_text),
        reload_parses(st, has_path, disk_mtime, disk_text) && parse_scene_s(disk_text->0) is Some
            ==> !reload_parses(
            reload_step(st, has_path, disk_mtime, disk_text),
            has_path,
            disk_mtime,
            disk_text,
        ),
        !reload_parses(st, has_path, disk_mtime, disk_text) ==> !reload_parses(
            reload_step(st, has_path, disk_mtime, disk_text),
            has_path,
            disk_mtime,
            disk_text,
        ),
{
}

/// Save-then-reload produces no spurious reload: once the baseline is
/// the just-written file's modification time, a tick that observes that
/// same time neither parses nor changes the store.
pub proof fn lemma_save_suppresses_reload(
    st: StoreV,
    mt: u64,
    has_path: bool,
    disk_text: Option<Seq<char>>,
)
    ensures
        !reload_parses((StoreV { scene: st.scene, mtime: Some(mt) }), has_path, Some(mt), disk_text),
        reload_step((StoreV { scene: st.scene, mtime: Some(mt) }), has_path, Some(mt), disk_text)
            == (StoreV { scene: st.scene, mtime: Some(mt) }),
{
}

/// Why a save request was refused.
#[derive(Debug)]
pub enum SaveError {
    /// No scene file path is known for this session.
    NoPath,
    /// No document is loaded in memory.
    NoScene,
}

/// Why opening a project failed.
#[derive(Debug)]
pub enum OpenError {
    /// The project configuration file could not be read.
    MissingConfig,
    /// The project configuration file did not parse.
    BadConfig,
    /// A scene file exists but did not parse.
    BadScene,
}

/// The open project: root path, configuration, the diagnostics of the
/// most recent check, and the scene document store.
pub struct ProjectState {
    pub root: String,
    pub config: ProjectConfig,
    pub last_diagnostics: Vec<Diagnostic>,
    pub design_scene: Option<SceneDoc>,
    pub design_path: Option<String>,
    pub design_mtime: Option<u64>,
}

impl ProjectState {
    /// The scene store's view.
    pub open spec fn store(&self) -> StoreV {
        StoreV { scene: oscene_v(self.design_scene), mtime: self.design_mtime }
    }

    /// A loaded document is always well formed, and a path is known
    /// exactly when a document was ever loaded from disk.
    pub open spec fn wf(&self) -> bool {
        match self.design_scene {
            Some(d) => wf_scene_v(scene_v(d)),
            None => true,
        }
    }

    /// Opens a project from the observed files: the configuration
    /// file's text (absent when unreadable) and the scene file's text
    /// and modification time (absent when the file does not exist).
    /// A missing scene file is not an error; the session opens with no
    /// scene.
    pub fn open(root: String, cfg_text: Option<String>, scene_file: Option<(String, u64)>) -> (r:
        Result<ProjectState, OpenError>)
        ensures
            match r {
                Ok(st) => {
                    &&& cfg_text is Some
                    &&& parse_config_s(cfg_text->0@) == Some(config_v(st.config))
                    &&& st.root@ == root@
                    &&& st.last_diagnostics@.len() == 0
                    &&& st.wf()
                    &&& match scene_file {
                        None => st.design_scene is None && st.design_path is None
                            && st.design_mtime is None,
                        Some((txt, mt)) => st.design_scene is Some && parse_scene_s(txt@) == Some(
                            scene_v(st.design_scene->0),
                        ) && st.design_mtime == Some(mt) && st.design_path is Some
                            && st.design_path->0@ == root@ + "/design/initial.scene.ron"@,
                    }
                },
                Err(OpenError::MissingConfig) => cfg_text is None,
                Err(OpenError::BadConfig) => cfg_text is Some && parse_config_s(cfg_text->0@)
                    is None,
                Err(OpenError::BadScene) => cfg_text is Some && parse_config_s(cfg_text->0@)
                    is Some && scene_file is Some && parse_scene_s((scene_file->0).0@) is None,
            },
    {
        let cfg_str = match cfg_text {
            None => {
                return Err(OpenError::MissingConfig);
            },
            Some(t) => t,
        };
        let config = match parse_config(cfg_str.as_str()) {
            None => {
                return Err(OpenError::BadConfig);
            },
            Some(c) => c,
        };
        match scene_file {
            None => Ok(
                ProjectState {
                    root,
                    config,
                    last_diagnostics: Vec::new(),
                    design_scene: None,
                    design_path: None,
                    design_mtime: None,
                },
            ),
            Some((txt, mt)) => {
                let scene = match parse_scene(txt.as_str()) {
                    None => {
                        return Err(OpenError::BadScene);
                    },
                    Some(d) => d,
                };
                let path = root.clone().concat("/design/initial.scene.ron");
                Ok(
                    ProjectState {
                        root,
                        config,
                        last_diagnostics: Vec::new(),
                        design_scene: Some(scene),
                        design_path: Some(path),
                        design_mtime: Some(mt),
                    },
                )
            },
        }
    }

    /// Renders the in-memory document for writing back to disk; fails
    /// when no path is known or no document is loaded.  The baseline
    /// is advanced separately, by [`ProjectState::note_saved`], once
    /// the write is done and the resulting modification time is known.
    pub fn save_design(&self) -> (r: Result<String, SaveError>)
        requires
            self.wf(),
        ensures
            match r {
                Ok(text) => self.design_path is Some && self.design_scene is Some && text@
                    == ser_scene(scene_v(self.design_scene->0)),
                Err(SaveError::NoPath) => self.design_path is None,
                Err(SaveError::NoScene) => self.design_path is Some && self.design_scene is None,
            },
    {
        if self.design_path.is_none() {
            return Err(SaveError::NoPath);
        }
        match &self.design_scene {
            None => Err(SaveError::NoScene),
            Some(d) => Ok(serialize_scene(d)),
        }
    }

    /// Records the just-written file's modification time as the new
    /// baseline, so that the next reload tick does not treat our own
    /// write as an external change.
    pub fn note_saved(&mut self, mt: u64)
        ensures
            final(self).design_mtime == Some(mt),
            final(self).design_scene == old(self).design_scene,
            final(self).design_path == old(self).design_path,
            final(self).root == old(self).root,
            final(self).config == old(self).config,
            final(self).last_diagnostics == old(self).last_diagnostics,
    {
        self.design_mtime = Some(mt);
    }

    /// Whether a reload tick that observes `disk_mtime` would read and
    /// re-parse the scene file.
    pub fn needs_reload(&self, disk_mtime: Option<u64>) -> (r: bool)
        ensures
            r == (self.design_path is Some && disk_mtime is Some && newer(
                self.design_mtime,
                disk_mtime->0,
            )),
    {
        if self.design_path.is_none() {
            return false;
        }
        match disk_mtime {
            None => false,
            Some(mt) => match self.design_mtime {
                None => true,
                Some(t) => mt > t,
            },
        }
    }

    /// One reload tick: when the observed file is newer than the
    /// baseline and parses, the in-memory document is replaced and the
    /// baseline advances; on stat failure, on parse failure, or with
    /// nothing newer, the previous state is kept — parse failure does
    /// not advance the baseline, so the next tick retries.
    pub fn reload_design_if_changed(&mut self, disk: &DiskSnapshot)
        requires
            old(self).wf(),
        ensures
            final(self).store() == reload_step(
                old(self).store(),
                old(self).design_path is Some,
                disk.mtime,
                otext_v(disk.text),
            ),
            final(self).wf(),
            final(self).root == old(self).root,
            final(self).config == old(self).config,
            final(self).last_diagnostics == old(self).last_diagnostics,
            final(self).design_path == old(self).design_path,
    {
        if !self.needs_reload(disk.mtime) {
            return ;
        }
        let mt = match disk.mtime {
            None => {
                return ;
            },
            Some(m) => m,
        };
        let txt = match &disk.text {
            None => {
                return ;
            },
            Some(t) => t,
        };
        match parse_scene(txt.as_str()) {
            None => {},
            Some(d) => {
                self.design_scene = Some(d);
                self.design_mtime = Some(mt);
            },
        }
    }
}

} // verus!
