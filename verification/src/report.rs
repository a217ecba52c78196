//! Progress reporting for task execution.

use std::io::Write;
use vstd::prelude::*;

verus! {

/// Relies on `std::io::Stdout`'s `Write` implementation: prints one line
/// of progress to standard output. The text is emitted unchanged and
/// nothing of the library's state is read or touched.
#[verifier::external_body]
pub(crate) fn emit(line: &str) {
    let mut out = std::io::stdout();
    let _ = writeln!(out, "{}", line);
}

} // verus!
