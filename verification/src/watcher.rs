//! The filesystem watch worker's decision core: classify raw events,
//! drop noise and ignored paths, and debounce bursts into a single
//! downstream notification.
//!
//! The observation loop itself (registering watches, blocking on the
//! event source) lives outside the library; it feeds every raw event
//! and its arrival time into [`WatchFilter::on_event`] and forwards the
//! event exactly when that returns true.

use vstd::prelude::*;

use crate::text::{chars_vec, copy_range, expect_lit, spec_expect};

verus! {

/// Classification of a raw filesystem event.
pub enum EventKind {
    Any,
    Access,
    Create,
    Modify,
    Remove,
    Other,
}

/// A raw filesystem event: its kind and every path it touches.
pub struct FsEvent {
    pub kind: EventKind,
    pub paths: Vec<String>,
}

/// View of an event.
pub ghost struct FsEventV {
    pub kind: EventKind,
    pub paths: Seq<Seq<char>>,
}

pub open spec fn event_v(e: FsEvent) -> FsEventV {
    FsEventV { kind: e.kind, paths: e.paths@.map_values(|p: String| p@) }
}

/// Pure access notifications and unclassified events are noise.
pub open spec fn is_noise(k: EventKind) -> bool {
    k is Access || k is Other
}

pub open spec fn spec_starts_with(s: Seq<char>, pre: Seq<char>) -> bool {
    spec_expect(s, 0, pre) is Some
}

pub open spec fn spec_contains(s: Seq<char>, sub: Seq<char>) -> bool {
    exists|k: int| 0 <= k && spec_expect(s, k, sub) is Some
}

/// The path relative to the project root: the remainder after
/// `root` and a separator, or the path itself when it does not lie
/// under the root.
pub open spec fn rel_of(root: Seq<char>, p: Seq<char>) -> Seq<char> {
    if p.len() > root.len() && p.subrange(0, root.len() as int) == root && p[root.len() as int]
        == '/' {
        p.subrange(root.len() as int + 1, p.len() as int)
    } else {
        p
    }
}

/// Whether a path falls under the build-artifact or version-control
/// prefixes that the watcher ignores.
pub open spec fn spec_path_ignored(root: Seq<char>, p: Seq<char>) -> bool {
    let r = rel_of(root, p);
    spec_starts_with(r, "target/"@) || r == "target"@ || spec_contains(r, "/target/"@)
        || spec_starts_with(r, ".git/"@) || r == ".git"@ || spec_contains(r, "/.git/"@)
}

/// An event is relevant when its kind is not noise and at least one of
/// its paths lies outside the ignored prefixes.
pub open spec fn event_relevant(root: Seq<char>, ev: FsEventV) -> bool {
    !is_noise(ev.kind) && exists|k: int|
        0 <= k < ev.paths.len() && !spec_path_ignored(root, #[trigger] ev.paths[k])
}

/// Whether the debounce gate lets a notification at `now` through.
pub open spec fn gate_fires(last: Option<u64>, now: u64, window: u64) -> bool {
    match last {
        None => true,
        Some(t) => (now as int) >= (t as int) + (window as int),
    }
}

/// One step of the whole filter: the new `last fired` baseline and
/// whether the event is forwarded.  Only a relevant event that passes
/// the debounce gate is forwarded, and only a forwarded event moves the
/// baseline.
pub open spec fn watch_step(
    root: Seq<char>,
    last: Option<u64>,
    ev: FsEventV,
    now: u64,
    window: u64,
) -> (Option<u64>, bool) {
    if event_relevant(root, ev) && gate_fires(last, now, window) {
        (Some(now), true)
    } else {
        (last, false)
    }
}

/// An event whose every path is ignored is never forwarded and leaves
/// the filter unchanged, whatever its kind and timing.
pub proof fn lemma_ignored_event_never_forwards(
    root: Seq<char>,
    last: Option<u64>,
    ev: FsEventV,
    now: u64,
    window: u64,
)
    requires
        forall|k: int| 0 <= k < ev.paths.len() ==> spec_path_ignored(root, #[trigger] ev.paths[k]),
    ensures
        watch_step(root, last, ev, now, window) == (last, false),
{
}

/// An event that touches one ignored path and one path outside the
/// ignored prefixes is relevant, so only the debounce gate decides
/// whether it is forwarded.
pub proof fn lemma_mixed_event_is_relevant(root: Seq<char>, ev: FsEventV, k: int)
    requires
        !is_noise(ev.kind),
        0 <= k < ev.paths.len(),
        !spec_path_ignored(root, ev.paths[k]),
    ensures
        event_relevant(root, ev),
        forall|last: Option<u64>, now: u64, window: u64|
            #[trigger] watch_step(root, last, ev, now, window) == (
                if gate_fires(last, now, window) {
                    (Some(now), true)
                } else {
                    (last, false)
                }
            ),
{
}

/// Folds a run of relevant events (given by their arrival times) through
/// the filter, counting how many are forwarded.
pub open spec fn run_gate(last: Option<u64>, times: Seq<u64>, window: u64) -> (Option<u64>, nat)
    decreases times.len(),
{
    if times.len() == 0 {
        (last, 0)
    } else {
        let f = gate_fires(last, times[0], window);
        let l2 = if f {
            Some(times[0])
        } else {
            last
        };
        let (le, n) = run_gate(l2, times.drop_first(), window);
        (
            le,
            n + if f {
                1nat
            } else {
                0nat
            },
        )
    }
}

proof fn lemma_gate_closed_run(t0: u64, times: Seq<u64>, window: u64)
    requires
        forall|k: int| 0 <= k < times.len() ==> ((#[trigger] times[k]) as int) < t0 + window,
    ensures
        run_gate(Some(t0), times, window) == (Some(t0), 0nat),
    decreases times.len(),
{
    if times.len() > 0 {
        assert((times[0] as int) < t0 + window);
        lemma_gate_closed_run(t0, times.drop_first(), window);
    }
}

/// Debounce, burst side: any number of relevant events arriving within
/// one debounce window of the first produce exactly one forwarded
/// notification.
pub proof fn lemma_debounce_burst(times: Seq<u64>, window: u64)
    requires
        times.len() >= 1,
        forall|k: int| 0 <= k < times.len() ==> ((#[trigger] times[k]) as int) < times[0] + window,
    ensures
        run_gate(None, times, window).1 == 1nat,
{
    assert(gate_fires(None, times[0], window));
    lemma_gate_closed_run(times[0], times.drop_first(), window);
}

/// Debounce, spacing side: relevant events that each arrive at least a
/// full window after the previous one are all forwarded.
pub proof fn lemma_debounce_spaced(last: Option<u64>, times: Seq<u64>, window: u64)
    requires
        forall|k: int|
            0 <= k < times.len() - 1 ==> ((#[trigger] times[k]) as int) + window <= times[k + 1],
        times.len() > 0 ==> gate_fires(last, times[0], window),
    ensures
        run_gate(last, times, window).1 == times.len(),
    decreases times.len(),
{
    if times.len() > 0 {
        let tail = times.drop_first();
        assert(forall|k: int|
            0 <= k < tail.len() - 1 ==> ((#[trigger] tail[k]) as int) + window <= tail[k + 1]) by {
            assert(forall|k: int|
                0 <= k < tail.len() - 1 ==> tail[k] == times[k + 1] && #[trigger] tail[k + 1]
                    == times[k + 2]);
        }
        if tail.len() > 0 {
            assert(tail[0] == times[1]);
            assert(gate_fires(Some(times[0]), tail[0], window));
        }
        lemma_debounce_spaced(Some(times[0]), tail, window);
    }
}

// ---------------------------------------------------------------------
// Executable filter
// ---------------------------------------------------------------------
fn is_noise_kind(k: &EventKind) -> (r: bool)
    ensures
        r == is_noise(*k),
{
    match k {
        EventKind::Access => true,
        EventKind::Other => true,
        _ => false,
    }
}

fn starts_with_vec(s: &Vec<char>, pre: &Vec<char>) -> (r: bool)
    ensures
        r == spec_starts_with(s@, pre@),
{
    if pre.len() > s.len() {
        return false;
    }
    let mut k: usize = 0;
    while k < pre.len()
        invariant
            k <= pre.len() <= s.len(),
            forall|m: int| 0 <= m < k ==> s@[m] == pre@[m],
        decreases pre.len() - k,
    {
        if s[k] != pre[k] {
            proof {
                assert(s@.subrange(0, pre@.len() as int)[k as int] == s@[k as int]);
            }
            return false;
        }
        k = k + 1;
    }
    proof {
        assert(s@.subrange(0, pre@.len() as int) =~= pre@);
    }
    true
}

fn contains_lit(s: &Vec<char>, sub: &str) -> (r: bool)
    ensures
        r == spec_contains(s@, sub@),
{
    let mut k: usize = 0;
    loop
        invariant
            k <= s.len(),
            forall|m: int| 0 <= m < k ==> spec_expect(s@, m, sub@) is None,
        decreases s.len() - k,
    {
        if expect_lit(s, k, sub).is_some() {
            return true;
        }
        if k == s.len() {
            proof {
                assert forall|m: int| 0 <= m implies spec_expect(s@, m, sub@) is None by {
                    if m < k {
                    } else if m == k {
                    } else {
                        assert(m + sub@.len() > s@.len());
                    }
                }
            }
            return false;
        }
        k = k + 1;
    }
}

fn path_ignored(root: &Vec<char>, p: &Vec<char>) -> (r: bool)
    ensures
        r == spec_path_ignored(root@, p@),
{
    let rel: Vec<char> = if p.len() > root.len() && starts_with_vec(p, root) && p[root.len()]
        == '/' {
        copy_range(p, root.len() + 1, p.len())
    } else {
        let c = copy_range(p, 0, p.len());
        proof {
            assert(p@.subrange(0, p@.len() as int) =~= p@);
        }
        c
    };
    proof {
        assert(rel@ == rel_of(root@, p@));
    }
    if expect_lit(&rel, 0, "target/").is_some() {
        return true;
    }
    if rel.len() == 6 && expect_lit(&rel, 0, "target").is_some() {
        proof {
            reveal_strlit("target");
            assert(rel@ =~= "target"@);
        }
        return true;
    }
    if contains_lit(&rel, "/target/") {
        return true;
    }
    if expect_lit(&rel, 0, ".git/").is_some() {
        return true;
    }
    if rel.len() == 4 && expect_lit(&rel, 0, ".git").is_some() {
        proof {
            reveal_strlit(".git");
            assert(rel@ =~= ".git"@);
        }
        return true;
    }
    if contains_lit(&rel, "/.git/") {
        return true;
    }
    proof {
        reveal_strlit("target");
        reveal_strlit(".git");
        if rel@ == "target"@ {
            assert(rel@.len() == 6);
            assert(spec_expect(rel@, 0, "target"@) is Some) by {
                assert(rel@.subrange(0, 6) =~= rel@);
            }
        }
        if rel@ == ".git"@ {
            assert(rel@.len() == 4);
            assert(spec_expect(rel@, 0, ".git"@) is Some) by {
                assert(rel@.subrange(0, 4) =~= rel@);
            }
        }
    }
    false
}

/// The watch worker's filter state: the ignore rules' root and the
/// debounce baseline.
pub struct WatchFilter {
    pub root: String,
    pub window_ms: u64,
    pub last_fire: Option<u64>,
}

impl WatchFilter {
    /// A fresh filter for a project root; the first relevant event is
    /// always forwarded.
    pub fn new(root: String, window_ms: u64) -> (r: WatchFilter)
        ensures
            r.root == root,
            r.window_ms == window_ms,
            r.last_fire is None,
    {
        WatchFilter { root, window_ms, last_fire: None }
    }

    /// Classifies one raw event arriving at `now` (a millisecond
    /// timestamp): returns whether to forward it, advancing the
    /// debounce baseline exactly on forwarded events.
    pub fn on_event(&mut self, ev: &FsEvent, now: u64) -> (fired: bool)
        ensures
            (final(self).last_fire, fired) == watch_step(
                old(self).root@,
                old(self).last_fire,
                event_v(*ev),
                now,
                old(self).window_ms,
            ),
            final(self).root == old(self).root,
            final(self).window_ms == old(self).window_ms,
    {
        if is_noise_kind(&ev.kind) {
            return false;
        }
        let rootv = chars_vec(self.root.as_str());
        let mut k: usize = 0;
        let mut relevant = false;
        while k < ev.paths.len()
            invariant
                k <= ev.paths@.len(),
                rootv@ == self.root@,
                relevant == exists|m: int|
                    0 <= m < k && !spec_path_ignored(self.root@, #[trigger] event_v(*ev).paths[m]),
            decreases ev.paths@.len() - k,
        {
            let pv = chars_vec(ev.paths[k].as_str());
            if !path_ignored(&rootv, &pv) {
                proof {
                    assert(event_v(*ev).paths[k as int] == ev.paths@[k as int]@);
                }
                relevant = true;
            }
            proof {
                assert(event_v(*ev).paths[k as int] == ev.paths@[k as int]@);
            }
            k = k + 1;
        }
        if !relevant {
            return false;
        }
        let fire = match self.last_fire {
            None => true,
            Some(t) => now >= t && now - t >= self.window_ms,
        };
        if fire {
            self.last_fire = Some(now);
        }
        fire
    }
}

} // verus!
