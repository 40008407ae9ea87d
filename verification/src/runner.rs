//! Messages from the external run process, line tagging, and the
//! bounded console log.

use vstd::prelude::*;

use crate::text::{chars_vec, push_chars, push_lit, string_of};

verus! {

/// One message from the run process: an output line, or its exit with
/// the given status code.
pub enum RunnerMsg {
    Line(String),
    Exited(i32),
}

/// Most recent lines the console log may hold; the oldest are evicted
/// first.
pub const RUN_LOG_CAP: usize = 5000;

/// What the log must equal after appending one line: the appended
/// sequence, truncated at the front to the cap.
pub open spec fn log_after_push(log: Seq<Seq<char>>, line: Seq<char>) -> Seq<Seq<char>> {
    let appended = log.push(line);
    if appended.len() > RUN_LOG_CAP {
        appended.skip(appended.len() - RUN_LOG_CAP)
    } else {
        appended
    }
}

/// Appends one line to the console log, evicting the oldest lines so
/// that at most [`RUN_LOG_CAP`] remain.
pub fn push_log_line(log: &mut Vec<String>, line: String)
    requires
        old(log)@.len() <= RUN_LOG_CAP,
    ensures
        final(log)@.map_values(|l: String| l@) == log_after_push(
            old(log)@.map_values(|l: String| l@),
            line@,
        ),
        final(log)@.len() <= RUN_LOG_CAP,
{
    let ghost oldv = log@.map_values(|l: String| l@);
    let ghost linev = line@;
    log.push(line);
    proof {
        assert(log@.map_values(|l: String| l@) =~= oldv.push(linev));
    }
    if log.len() > RUN_LOG_CAP {
        let ghost before = log@;
        let _ = log.remove(0);
        proof {
            assert(log@ =~= before.drop_first());
            assert(log@.map_values(|l: String| l@) =~= oldv.push(linev).skip(
                oldv.push(linev).len() - RUN_LOG_CAP,
            ));
        }
    }
}

/// Tags one process output line for the console, as `[tag] line`.
pub fn tag_line(tag: &str, line: &str) -> (r: String)
    ensures
        r@ == "["@ + tag@ + "] "@ + line@,
{
    let mut m: Vec<char> = Vec::new();
    push_lit(&mut m, "[");
    let tv = chars_vec(tag);
    push_chars(&mut m, &tv);
    push_lit(&mut m, "] ");
    let lv = chars_vec(line);
    push_chars(&mut m, &lv);
    proof {
        assert(m@ =~= "["@ + tag@ + "] "@ + line@);
    }
    string_of(m)
}

} // verus!
