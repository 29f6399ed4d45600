//! What the pipeline says while it works, one line for each phase.

use vstd::prelude::*;
use vstd::string::StringExecFns;
use crate::text::{decimal, decimal_text};

verus! {

/// Said before the document is fetched.
pub const DOWNLOADING: &'static str = "Downloading pdf";

/// Said once the document is there.
pub const DOWNLOADED: &'static str = "Pdf downloaded";

/// Said before the first page is probed.
pub const STARTING: &'static str = "Starting translations page by page";

/// Said, after the count, once the end of the document was found.
pub const QUEUED_TAIL: &'static str = " pages qeued for translation";

/// Said once every translation has ended, before the final text.
pub const COLLECTED: &'static str = "Translations collected... printing";

/// The line that tells how many pages were dispatched.
pub fn queued_line(count: usize) -> (line: String)
    ensures
        line@ == decimal(count as nat) + QUEUED_TAIL@,
{
    let mut line: String = decimal_text(count as u64);
    line.append(QUEUED_TAIL);
    line
}

} // verus!
