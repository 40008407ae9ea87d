//! The editor's per-tick decision core: it owns the open project, the
//! rolling status line, the bounded console log, the run-process gate
//! and the schema file's reload baseline.
//!
//! The surrounding process runs the actual tick loop: it drains worker
//! channels without blocking and feeds every observation in here, one
//! value at a time.

use vstd::prelude::*;

use crate::check::{diag_v, outcome_v, CheckOutcome, OutcomeV};
use crate::project::{newer, reload_step, DiskSnapshot, OpenError, ProjectState};
use crate::runner::{log_after_push, push_log_line, RUN_LOG_CAP};
use crate::text::{push_dec, push_lit, spec_dec, string_of};

verus! {

/// The decision taken for a request to start the run process.
pub enum RunDecision {
    /// No project is open; nothing to run.
    NoProject,
    /// A run process is already active; starting is rejected, not
    /// queued.
    AlreadyActive,
    /// The process may be spawned.
    Start,
}

/// The editor core: everything the tick loop reads and writes except
/// the workers themselves.
pub struct EditorCore {
    pub project: Option<ProjectState>,
    pub last_log: String,
    pub run_active: bool,
    pub run_log: Vec<String>,
    pub schema_mtime: Option<u64>,
}

/// The status line announced for a finished check.
pub open spec fn check_status_v(o: OutcomeV) -> Seq<char> {
    match o {
        OutcomeV::Pass { duration_ms } => "cargo check: OK in "@ + spec_dec(duration_ms as nat)
            + " ms"@,
        OutcomeV::Fail { duration_ms, .. } => "cargo check: ERR in "@ + spec_dec(duration_ms as nat)
            + " ms"@,
    }
}

impl EditorCore {
    /// A core with nothing open and an empty console.
    pub fn new() -> (r: EditorCore)
        ensures
            r.project is None,
            r.last_log@ == Seq::<char>::empty(),
            !r.run_active,
            r.run_log@.len() == 0,
            r.schema_mtime is None,
    {
        EditorCore {
            project: None,
            last_log: String::new(),
            run_active: false,
            run_log: Vec::new(),
            schema_mtime: None,
        }
    }

    /// Whether every loaded document is well formed; all operations
    /// preserve this.
    pub open spec fn wf(&self) -> bool {
        (match self.project {
            Some(p) => p.wf(),
            None => true,
        }) && self.run_log@.len() <= RUN_LOG_CAP
    }

    /// Installs a freshly opened project, discarding any previous one
    /// (unsaved in-memory edits included) and resetting the schema
    /// baseline.
    pub fn install_project(&mut self, p: ProjectState)
        requires
            old(self).wf(),
            p.wf(),
        ensures
            final(self).wf(),
            final(self).project == Some(p),
            final(self).schema_mtime is None,
            final(self).last_log == old(self).last_log,
            final(self).run_active == old(self).run_active,
            final(self).run_log == old(self).run_log,
    {
        self.project = Some(p);
        self.schema_mtime = None;
    }

    /// Records the status line for a failed open; no project is
    /// installed.
    pub fn note_open_failed(&mut self, e: &OpenError)
        requires
            old(self).wf(),
        ensures
            final(self).wf(),
            final(self).project == old(self).project,
            final(self).last_log@ == "Failed to open project: "@ + (match *e {
                OpenError::MissingConfig => "the project configuration file cannot be read"@,
                OpenError::BadConfig => "the project configuration file does not parse"@,
                OpenError::BadScene => "the scene file does not parse"@,
            }),
            final(self).run_active == old(self).run_active,
            final(self).run_log == old(self).run_log,
            final(self).schema_mtime == old(self).schema_mtime,
    {
        let mut m: Vec<char> = Vec::new();
        push_lit(&mut m, "Failed to open project: ");
        match e {
            OpenError::MissingConfig => push_lit(
                &mut m,
                "the project configuration file cannot be read",
            ),
            OpenError::BadConfig => push_lit(
                &mut m,
                "the project configuration file does not parse",
            ),
            OpenError::BadScene => push_lit(&mut m, "the scene file does not parse"),
        }
        self.last_log = string_of(m);
    }

    /// One reload tick for the scene document store, from the observed
    /// state of the scene file on disk.
    pub fn tick_reload(&mut self, disk: &DiskSnapshot)
        requires
            old(self).wf(),
        ensures
            final(self).wf(),
            match old(self).project {
                None => final(self).project is None,
                Some(p) => final(self).project is Some && final(self).project->0.store()
                    == reload_step(
                    p.store(),
                    p.design_path is Some,
                    disk.mtime,
                    crate::project::otext_v(disk.text),
                ) && final(self).project->0.design_path == p.design_path && final(self).project->0.last_diagnostics == p.last_diagnostics,
            },
            final(self).last_log == old(self).last_log,
            final(self).run_active == old(self).run_active,
            final(self).run_log == old(self).run_log,
            final(self).schema_mtime == old(self).schema_mtime,
    {
        match &mut self.project {
            None => {},
            Some(p) => {
                p.reload_design_if_changed(disk);
            },
        }
    }

    /// Applies one drained check result: the status line always moves
    /// to the newest result, and a failure's diagnostics replace the
    /// open project's list wholesale (no merge).
    pub fn apply_check_outcome(&mut self, outcome: CheckOutcome)
        requires
            old(self).wf(),
        ensures
            final(self).wf(),
            final(self).last_log@ == check_status_v(outcome_v(outcome)),
            match (old(self).project, outcome_v(outcome)) {
                (None, _) => final(self).project is None,
                (Some(p), OutcomeV::Pass { .. }) => final(self).project == Some(p),
                (Some(p), OutcomeV::Fail { diagnostics, .. }) => final(self).project is Some
                    && final(self).project->0.last_diagnostics@.map_values(
                    |d: crate::project::Diagnostic| diag_v(d),
                ) == diagnostics && final(self).project->0.design_scene == p.design_scene && final(self).project->0.design_path == p.design_path && final(self).project->0.design_mtime
                    == p.design_mtime && final(self).project->0.root == p.root && final(self).project->0.config == p.config,
            },
            final(self).run_active == old(self).run_active,
            final(self).run_log == old(self).run_log,
            final(self).schema_mtime == old(self).schema_mtime,
    {
        let mut m: Vec<char> = Vec::new();
        match outcome {
            CheckOutcome::Pass { duration_ms } => {
                push_lit(&mut m, "cargo check: OK in ");
                push_dec(&mut m, duration_ms);
                push_lit(&mut m, " ms");
                self.last_log = string_of(m);
            },
            CheckOutcome::Fail { duration_ms, diagnostics } => {
                push_lit(&mut m, "cargo check: ERR in ");
                push_dec(&mut m, duration_ms);
                push_lit(&mut m, " ms");
                self.last_log = string_of(m);
                match &mut self.project {
                    None => {},
                    Some(p) => {
                        p.last_diagnostics = diagnostics;
                    },
                }
            },
        }
    }

    /// Appends one run-process output line to the bounded console log.
    pub fn pump_run_line(&mut self, line: String)
        requires
            old(self).wf(),
        ensures
            final(self).wf(),
            final(self).run_log@.map_values(|l: String| l@) == log_after_push(
                old(self).run_log@.map_values(|l: String| l@),
                line@,
            ),
            final(self).project == old(self).project,
            final(self).last_log == old(self).last_log,
            final(self).run_active == old(self).run_active,
            final(self).schema_mtime == old(self).schema_mtime,
    {
        push_log_line(&mut self.run_log, line);
    }

    /// Whether a schema-file tick that observes `mtime_now` reloads the
    /// schema, under the same changed-since-baseline policy as the
    /// scene store.
    pub fn schema_needs_reload(&self, mtime_now: Option<u64>) -> (r: bool)
        ensures
            r == (mtime_now is Some && newer(self.schema_mtime, mtime_now->0)),
    {
        match mtime_now {
            None => false,
            Some(mt) => match self.schema_mtime {
                None => true,
                Some(t) => mt > t,
            },
        }
    }

    /// Records a successful schema load: the baseline advances and the
    /// status line reports the script count.
    pub fn note_schema_loaded(&mut self, mt: u64, script_count: u64)
        requires
            old(self).wf(),
        ensures
            final(self).wf(),
            final(self).schema_mtime == Some(mt),
            final(self).last_log@ == "Loaded script schema ("@ + spec_dec(script_count as nat)
                + " scripts)."@,
            final(self).project == old(self).project,
            final(self).run_active == old(self).run_active,
            final(self).run_log == old(self).run_log,
    {
        self.schema_mtime = Some(mt);
        let mut m: Vec<char> = Vec::new();
        push_lit(&mut m, "Loaded script schema (");
        push_dec(&mut m, script_count);
        push_lit(&mut m, " scripts).");
        self.last_log = string_of(m);
    }

    /// Records any other notable event as the rolling status line; a
    /// schema read or parse failure is reported this way, never fatal,
    /// and does not advance the schema baseline (so the next tick
    /// retries).
    pub fn set_status(&mut self, msg: String)
        requires
            old(self).wf(),
        ensures
            final(self).wf(),
            final(self).last_log == msg,
            final(self).project == old(self).project,
            final(self).run_active == old(self).run_active,
            final(self).run_log == old(self).run_log,
            final(self).schema_mtime == old(self).schema_mtime,
    {
        self.last_log = msg;
    }

    /// The decision for a request to run the project: rejected without
    /// a project or while a run is active (stop-then-start discipline),
    /// otherwise the run is marked active, the console clears and the
    /// process may be spawned.
    pub fn start_run(&mut self) -> (r: RunDecision)
        requires
            old(self).wf(),
        ensures
            final(self).wf(),
            old(self).project is None ==> r is NoProject && final(self).run_active == old(self).run_active && final(self).last_log@ == "no project open"@,
            old(self).project is Some && old(self).run_active ==> r is AlreadyActive && final(self).run_active && final(self).last_log@ == "runner already active"@,
            old(self).project is Some && !old(self).run_active ==> r is Start && final(self).run_active && final(self).run_log@.len() == 0 && final(self).last_log@
                == "runner started"@,
            final(self).project == old(self).project,
            final(self).schema_mtime == old(self).schema_mtime,
    {
        if self.project.is_none() {
            self.last_log = "no project open".to_owned();
            return RunDecision::NoProject;
        }
        if self.run_active {
            self.last_log = "runner already active".to_owned();
            return RunDecision::AlreadyActive;
        }
        self.run_active = true;
        self.run_log = Vec::new();
        self.last_log = "runner started".to_owned();
        RunDecision::Start
    }

    /// Records that the permitted spawn failed after all.
    pub fn note_run_spawn_failed(&mut self, msg: String)
        requires
            old(self).wf(),
        ensures
            final(self).wf(),
            !final(self).run_active,
            final(self).last_log == msg,
            final(self).project == old(self).project,
            final(self).run_log == old(self).run_log,
            final(self).schema_mtime == old(self).schema_mtime,
    {
        self.run_active = false;
        self.last_log = msg;
    }

    /// Stops the tracked run process; also used at application exit so
    /// no orphaned process survives.
    pub fn stop_run(&mut self)
        requires
            old(self).wf(),
        ensures
            final(self).wf(),
            !final(self).run_active,
            final(self).last_log@ == "runner stopped"@,
            final(self).project == old(self).project,
            final(self).run_log == old(self).run_log,
            final(self).schema_mtime == old(self).schema_mtime,
    {
        self.run_active = false;
        self.last_log = "runner stopped".to_owned();
    }
}

} // verus!
