//! The background check worker's core: a strictly first-in-first-out
//! job queue, the reading of the check process's structured output
//! lines into diagnostics, and the per-job outcome.
//!
//! The worker thread itself (spawning the process, blocking on its
//! output) lives outside the library; it pulls jobs with
//! [`CheckQueue::take_next`], collects the process's standard-output
//! lines, and builds the outcome with [`run_check_job`].

use vstd::prelude::*;

use crate::json::{json_v, obj_get, parse_json_line, parse_json_s, JsonV, JsonValue};
use crate::project::Diagnostic;
use crate::text::{
    chars_vec, digit_value, is_digit, is_digit_char, lemma_val_acc_concat, lemma_val_acc_lower,
    push_lit, spec_trim, string_of, trim_chars, val_acc,
};

verus! {

/// A request to run the external verification process for a project.
pub struct CheckJob {
    pub root: String,
}

/// The result of one check job.  The process's exit status is not
/// inspected: only the presence or absence of diagnostics decides
/// between the two variants.
pub enum CheckOutcome {
    Pass { duration_ms: u64 },
    Fail { duration_ms: u64, diagnostics: Vec<Diagnostic> },
}

/// View of a diagnostic.
pub ghost struct DiagV {
    pub file: Seq<char>,
    pub line: u32,
    pub col: u32,
    pub msg: Seq<char>,
}

pub open spec fn diag_v(d: Diagnostic) -> DiagV {
    DiagV { file: d.file@, line: d.line, col: d.col, msg: d.msg@ }
}

/// View of an outcome.
pub ghost enum OutcomeV {
    Pass { duration_ms: u64 },
    Fail { duration_ms: u64, diagnostics: Seq<DiagV> },
}

pub open spec fn outcome_v(o: CheckOutcome) -> OutcomeV {
    match o {
        CheckOutcome::Pass { duration_ms } => OutcomeV::Pass { duration_ms },
        CheckOutcome::Fail { duration_ms, diagnostics } => OutcomeV::Fail {
            duration_ms,
            diagnostics: diagnostics@.map_values(|d: Diagnostic| diag_v(d)),
        },
    }
}

/// A numeric token read as a 32-bit line or column number: digits only,
/// within range.
pub open spec fn tok_u32(tok: Seq<char>) -> Option<u32> {
    if tok.len() >= 1 && (forall|k: int| 0 <= k < tok.len() ==> is_digit_char(#[trigger] tok[k]))
        && val_acc(tok, 0) <= 0xFFFF_FFFF {
        Some(val_acc(tok, 0) as u32)
    } else {
        None
    }
}

/// The diagnostic carried by one output line, if the line is a
/// recognized compiler message.  A line must be a JSON record whose
/// `reason` is `compiler-message`; the first span of its message gives
/// the location, and the diagnostic text is `[level] trimmed-message`.
/// Records without a span, and lines of any other shape, yield nothing.
pub open spec fn line_diag(line: Seq<char>) -> Option<DiagV> {
    match parse_json_s(line) {
        Some(JsonV::Obj(ms)) => match obj_get(ms, "reason"@) {
            Some(JsonV::Str(reason)) => if reason == "compiler-message"@ {
                match obj_get(ms, "message"@) {
                    Some(JsonV::Obj(msg)) => match (
                        obj_get(msg, "level"@),
                        obj_get(msg, "message"@),
                        obj_get(msg, "spans"@),
                    ) {
                        (
                            Some(JsonV::Str(level)),
                            Some(JsonV::Str(text)),
                            Some(JsonV::Arr(spans)),
                        ) => if spans.len() >= 1 {
                            match spans[0] {
                                JsonV::Obj(sp) => match (
                                    obj_get(sp, "file_name"@),
                                    obj_get(sp, "line_start"@),
                                    obj_get(sp, "column_start"@),
                                ) {
                                    (
                                        Some(JsonV::Str(file)),
                                        Some(JsonV::Num(lt)),
                                        Some(JsonV::Num(ct)),
                                    ) => match (tok_u32(lt), tok_u32(ct)) {
                                        (Some(ln), Some(col)) => Some(
                                            DiagV {
                                                file,
                                                line: ln,
                                                col,
                                                msg: seq!['['] + level + seq![']', ' ']
                                                    + spec_trim(text),
                                            },
                                        ),
                                        _ => None,
                                    },
                                    _ => None,
                                },
                                _ => None,
                            }
                        } else {
                            None
                        },
                        _ => None,
                    },
                    _ => None,
                }
            } else {
                None
            },
            _ => None,
        },
        _ => None,
    }
}

/// The diagnostics of a run of output lines, in order, unrecognized
/// lines silently skipped.
pub open spec fn diags_of(lines: Seq<Seq<char>>) -> Seq<DiagV>
    decreases lines.len(),
{
    if lines.len() == 0 {
        Seq::empty()
    } else {
        match line_diag(lines[0]) {
            Some(d) => seq![d] + diags_of(lines.drop_first()),
            None => diags_of(lines.drop_first()),
        }
    }
}

/// The outcome of a job whose process produced `lines` and ran for
/// `duration_ms`.
pub open spec fn spec_check_outcome(lines: Seq<Seq<char>>, duration_ms: u64) -> OutcomeV {
    let ds = diags_of(lines);
    if ds.len() == 0 {
        OutcomeV::Pass { duration_ms }
    } else {
        OutcomeV::Fail { duration_ms, diagnostics: ds }
    }
}

// ---------------------------------------------------------------------
// Executable extraction
// ---------------------------------------------------------------------
fn tok_to_u32(tok: &Vec<char>) -> (r: Option<u32>)
    ensures
        r == tok_u32(tok@),
{
    if tok.len() == 0 {
        return None;
    }
    let mut acc: u64 = 0;
    let mut k: usize = 0;
    while k < tok.len()
        invariant
            k <= tok.len(),
            tok@.len() >= 1,
            acc <= 0xFFFF_FFFF,
            forall|m: int| 0 <= m < k ==> is_digit_char(#[trigger] tok@[m]),
            acc as nat == val_acc(tok@.take(k as int), 0),
        decreases tok.len() - k,
    {
        if !is_digit(tok[k]) {
            return None;
        }
        let d = digit_value(tok[k]);
        let v = acc * 10 + d;
        proof {
            assert(tok@.take(k as int).push(tok@[k as int]) =~= tok@.take(k + 1));
            crate::text::lemma_val_acc_append(tok@.take(k as int), tok@[k as int], 0);
        }
        if v > 0xFFFF_FFFF {
            proof {
                assert(tok@ =~= tok@.take(k + 1) + tok@.skip(k + 1));
                lemma_val_acc_concat(tok@.take(k + 1), tok@.skip(k + 1), 0);
                lemma_val_acc_lower(tok@.skip(k + 1), val_acc(tok@.take(k + 1), 0));
            }
            return None;
        }
        acc = v;
        k = k + 1;
    }
    proof {
        assert(tok@.take(tok@.len() as int) =~= tok@);
    }
    Some(acc as u32)
}

fn vec_is_lit(v: &Vec<char>, lit: &str) -> (r: bool)
    ensures
        r == (v@ == lit@),
{
    let n = lit.unicode_len();
    if n != v.len() {
        proof {
            assert(v@.len() != lit@.len());
        }
        return false;
    }
    match crate::text::expect_lit(v, 0, lit) {
        Some(_) => {
            proof {
                assert(v@.subrange(0, lit@.len() as int) =~= v@);
            }
            true
        },
        None => {
            proof {
                if v@ == lit@ {
                    assert(v@.subrange(0, lit@.len() as int) =~= lit@);
                }
            }
            false
        },
    }
}

fn obj_find<'a>(ms: &'a Vec<(Vec<char>, JsonValue)>, key: &str) -> (r: Option<&'a JsonValue>)
    ensures
        match r {
            Some(v) => obj_get(crate::json::json_obj_v(ms@), key@) == Some(json_v(*v)),
            None => obj_get(crate::json::json_obj_v(ms@), key@) is None,
        },
{
    let ghost whole = crate::json::json_obj_v(ms@);
    proof {
        assert(ms@.skip(0) =~= ms@);
    }
    let mut k: usize = 0;
    while k < ms.len()
        invariant
            k <= ms@.len(),
            whole == crate::json::json_obj_v(ms@),
            obj_get(whole, key@) == obj_get(crate::json::json_obj_v(ms@.skip(k as int)), key@),
        decreases ms.len() - k,
    {
        let hit = vec_is_lit(&ms[k].0, key);
        proof {
            let tail = ms@.skip(k as int);
            assert(tail[0] == ms@[k as int]);
            assert(tail.drop_first() =~= ms@.skip(k as int + 1));
            let consd = crate::json::json_obj_v(tail);
            assert(consd == seq![(tail[0].0@, json_v(tail[0].1))] + crate::json::json_obj_v(
                tail.drop_first(),
            ));
            assert(consd[0] == (ms@[k as int].0@, json_v(ms@[k as int].1)));
            assert(consd.drop_first() =~= crate::json::json_obj_v(ms@.skip(k as int + 1)));
            assert(consd.len() > 0);
        }
        if hit {
            return Some(&ms[k].1);
        }
        k = k + 1;
    }
    proof {
        assert(ms@.skip(ms@.len() as int) =~= Seq::<(Vec<char>, JsonValue)>::empty());
    }
    None
}

/// Reads one check-process output line; returns the diagnostic exactly
/// when the line is a recognized compiler message with a span.
pub fn parse_check_line(line: &str) -> (r: Option<Diagnostic>)
    ensures
        match r {
            Some(d) => line_diag(line@) == Some(diag_v(d)),
            None => line_diag(line@) is None,
        },
{
    let chars = chars_vec(line);
    let v = match parse_json_line(&chars) {
        None => {
            return None;
        },
        Some(v) => v,
    };
    let ms = match &v {
        JsonValue::Obj(ms) => ms,
        _ => {
            return None;
        },
    };
    let reason = match obj_find(ms, "reason") {
        Some(JsonValue::Str(r)) => r,
        _ => {
            return None;
        },
    };
    if !vec_is_lit(reason, "compiler-message") {
        return None;
    }
    let msg = match obj_find(ms, "message") {
        Some(JsonValue::Obj(m)) => m,
        _ => {
            return None;
        },
    };
    let level = match obj_find(msg, "level") {
        Some(JsonValue::Str(l)) => l,
        _ => {
            return None;
        },
    };
    let text = match obj_find(msg, "message") {
        Some(JsonValue::Str(t)) => t,
        _ => {
            return None;
        },
    };
    let spans = match obj_find(msg, "spans") {
        Some(JsonValue::Arr(sp)) => sp,
        _ => {
            return None;
        },
    };
    if spans.len() == 0 {
        return None;
    }
    let sp = match &spans[0] {
        JsonValue::Obj(sp) => sp,
        _ => {
            proof {
                assert(crate::json::json_arr_v(spans@)[0] == json_v(spans@[0]));
            }
            return None;
        },
    };
    proof {
        assert(crate::json::json_arr_v(spans@)[0] == json_v(spans@[0]));
    }
    let file = match obj_find(sp, "file_name") {
        Some(JsonValue::Str(f)) => f,
        _ => {
            return None;
        },
    };
    let lt = match obj_find(sp, "line_start") {
        Some(JsonValue::Num(t)) => t,
        _ => {
            return None;
        },
    };
    let ct = match obj_find(sp, "column_start") {
        Some(JsonValue::Num(t)) => t,
        _ => {
            return None;
        },
    };
    let ln = match tok_to_u32(lt) {
        None => {
            return None;
        },
        Some(n) => n,
    };
    let col = match tok_to_u32(ct) {
        None => {
            return None;
        },
        Some(n) => n,
    };
    let mut m: Vec<char> = Vec::new();
    push_lit(&mut m, "[");
    crate::text::push_chars(&mut m, level);
    push_lit(&mut m, "] ");
    let trimmed = trim_chars(text);
    crate::text::push_chars(&mut m, &trimmed);
    let d = Diagnostic {
        file: string_of(crate::text::copy_range(file, 0, file.len())),
        line: ln,
        col,
        msg: string_of(m),
    };
    proof {
        reveal_strlit("[");
        reveal_strlit("] ");
        assert(file@.subrange(0, file@.len() as int) =~= file@);
        assert(d.msg@ =~= seq!['['] + level@ + seq![']', ' '] + spec_trim(text@));
    }
    Some(d)
}

/// The diagnostics of a whole run of output lines, oldest first.
pub fn collect_diagnostics(lines: &Vec<String>, from: usize) -> (r: Vec<Diagnostic>)
    requires
        from <= lines.len(),
    ensures
        r@.map_values(|d: Diagnostic| diag_v(d)) == diags_of(
            lines@.map_values(|l: String| l@).skip(from as int),
        ),
    decreases lines.len() - from,
{
    let ghost views = lines@.map_values(|l: String| l@);
    if from == lines.len() {
        let r: Vec<Diagnostic> = Vec::new();
        proof {
            assert(views.skip(from as int) =~= Seq::<Seq<char>>::empty());
            assert(r@.map_values(|d: Diagnostic| diag_v(d)) =~= Seq::<DiagV>::empty());
        }
        return r;
    }
    let head = parse_check_line(lines[from].as_str());
    let rest = collect_diagnostics(lines, from + 1);
    proof {
        assert(views.skip(from as int)[0] == lines@[from as int]@);
        assert(views.skip(from as int).drop_first() =~= views.skip(from as int + 1));
    }
    match head {
        None => rest,
        Some(d) => {
            let ghost dv = diag_v(d);
            let mut out = rest;
            out.insert(0, d);
            proof {
                assert(out@.drop_first() =~= rest@);
                assert(out@.map_values(|x: Diagnostic| diag_v(x)) =~= seq![dv]
                    + rest@.map_values(|x: Diagnostic| diag_v(x)));
            }
            out
        },
    }
}

/// Builds the outcome of one finished check job from the process's
/// output lines and the measured duration.  Success is exactly the
/// absence of recognized diagnostics; the exit status plays no part.
pub fn run_check_job(lines: &Vec<String>, duration_ms: u64) -> (r: CheckOutcome)
    ensures
        outcome_v(r) == spec_check_outcome(lines@.map_values(|l: String| l@), duration_ms),
{
    let diags = collect_diagnostics(lines, 0);
    proof {
        assert(lines@.map_values(|l: String| l@).skip(0) =~= lines@.map_values(|l: String| l@));
    }
    if diags.len() == 0 {
        proof {
            assert(diags@.map_values(|d: Diagnostic| diag_v(d)).len() == 0);
        }
        CheckOutcome::Pass { duration_ms }
    } else {
        CheckOutcome::Fail { duration_ms, diagnostics: diags }
    }
}

/// The synthetic outcome for a check whose process could not even be
/// spawned: a single diagnostic carrying the spawn error text, with
/// zero duration.
pub fn spawn_failure_outcome(root: &str, err_text: &str) -> (r: CheckOutcome)
    ensures
        outcome_v(r) == (OutcomeV::Fail {
            duration_ms: 0,
            diagnostics: seq![
                DiagV {
                    file: root@,
                    line: 0,
                    col: 0,
                    msg: "failed to spawn cargo: "@ + err_text@,
                },
            ],
        }),
{
    let mut m: Vec<char> = Vec::new();
    push_lit(&mut m, "failed to spawn cargo: ");
    let ev = chars_vec(err_text);
    crate::text::push_chars(&mut m, &ev);
    let d = Diagnostic {
        file: string_of(chars_vec(root)),
        line: 0,
        col: 0,
        msg: string_of(m),
    };
    let ghost dv = diag_v(d);
    let mut diagnostics: Vec<Diagnostic> = Vec::new();
    diagnostics.push(d);
    proof {
        assert(diagnostics@.map_values(|x: Diagnostic| diag_v(x)) =~= seq![dv]);
    }
    CheckOutcome::Fail { duration_ms: 0, diagnostics }
}

// ---------------------------------------------------------------------
// The job queue
// ---------------------------------------------------------------------
/// The worker's job queue: jobs leave strictly in arrival order, one at
/// a time, so a slow check queues further requests instead of running
/// checks in parallel.  Submission never blocks and never deduplicates.
pub struct CheckQueue {
    pub pending: Vec<CheckJob>,
}

impl CheckQueue {
    /// An empty queue.
    pub fn new() -> (r: CheckQueue)
        ensures
            r.pending@.len() == 0,
    {
        CheckQueue { pending: Vec::new() }
    }

    /// Enqueues a job at the back; never blocks, never deduplicates.
    pub fn submit(&mut self, job: CheckJob)
        ensures
            final(self).pending@ == old(self).pending@.push(job),
    {
        self.pending.push(job);
    }

    /// Dequeues the oldest pending job, if any.
    pub fn take_next(&mut self) -> (r: Option<CheckJob>)
        ensures
            match r {
                Some(job) => old(self).pending@.len() > 0 && job == old(self).pending@[0]
                    && final(self).pending@ == old(self).pending@.drop_first(),
                None => old(self).pending@.len() == 0
                    && final(self).pending@ == old(self).pending@,
            },
    {
        if self.pending.len() == 0 {
            return None;
        }
        let job = self.pending.remove(0);
        proof {
            assert(old(self).pending@.remove(0) =~= old(self).pending@.drop_first());
        }
        Some(job)
    }

    /// How many jobs wait.
    pub fn len(&self) -> (r: usize)
        ensures
            r == self.pending@.len(),
    {
        self.pending.len()
    }
}

/// Check worker FIFO: submitting `j1` and then `j2` places them in the
/// queue in exactly that order, after everything already pending; with
/// [`CheckQueue::take_next`] always removing the front, `j1` is
/// processed — and its result produced — strictly before `j2` is
/// started.
pub proof fn lemma_check_fifo(q: Seq<CheckJob>, j1: CheckJob, j2: CheckJob)
    ensures
        q.push(j1).push(j2).len() == q.len() + 2,
        q.push(j1).push(j2)[q.len() as int] == j1,
        q.push(j1).push(j2)[q.len() as int + 1] == j2,
        forall|k: int| 0 <= k < q.len() ==> q.push(j1).push(j2)[k] == q[k],
{
}

} // verus!
