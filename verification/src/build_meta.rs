//! The schema exporter's result and the decision taken from it.
//!
//! The exporter runs synchronously outside the library; its exit
//! status and collected output come back as an [`ExportResult`], and
//! [`export_outcome`] decides the status line and whether the schema
//! file is reloaded.

use vstd::prelude::*;

use crate::text::{push_lit, push_dec_i32, spec_dec_int, string_of};

verus! {

/// Result of running the schema exporter.
pub struct ExportResult {
    /// Exit code (or -1 if unknown).
    pub status: i32,
    /// Standard output collected from the exporter.
    pub stdout: String,
    /// Standard error collected from the exporter.
    pub stderr: String,
}

impl ExportResult {
    /// Whether the exporter exited cleanly.
    pub fn success(&self) -> (r: bool)
        ensures
            r == (self.status == 0),
    {
        self.status == 0
    }
}

/// The status line and reload decision after an export run: a clean
/// exit announces success and triggers a schema reload; any other exit
/// status produces a failure message naming that status, and no reload
/// is attempted.
pub fn export_outcome(res: &ExportResult) -> (r: (String, bool))
    ensures
        r.1 == (res.status == 0),
        res.status == 0 ==> r.0@ == "Exported script schema."@,
        res.status != 0 ==> r.0@ == "Export failed (exit "@ + spec_dec_int(res.status as int)
            + "). See console."@,
{
    if res.status == 0 {
        ("Exported script schema.".to_owned(), true)
    } else {
        let mut m: Vec<char> = Vec::new();
        push_lit(&mut m, "Export failed (exit ");
        push_dec_i32(&mut m, res.status);
        push_lit(&mut m, "). See console.");
        proof {
            assert(m@ =~= "Export failed (exit "@ + spec_dec_int(res.status as int)
                + "). See console."@);
        }
        (string_of(m), false)
    }
}

} // verus!
