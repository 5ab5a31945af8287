//! Leveled logging helpers.  Log emission delegates to whatever backend
//! the embedding application installs; these helpers only compose the
//! message lines and hand warnings and errors to the standard error
//! stream, so that they are never lost when no backend is installed.

use std::io::Write;
use vstd::prelude::*;
use vstd::string::*;

verus! {

/// Relies on `std::io::Write` via `writeln` on `std::io::stderr`: writes
/// the line, followed by a newline, to standard error.
#[verifier::external_body]
pub(crate) fn write_stderr_line(line: &str) {
    let _ = writeln!(std::io::stderr(), "{}", line);
}

/// Initialize logging.  Installing a subscriber backend needs the
/// process environment and belongs to the embedding application; the
/// library side has nothing to set up.
pub fn init() {
}

/// The line a warning renders to.
pub open spec fn spec_warn_line(message: Seq<char>) -> Seq<char> {
    "WARN: "@ + message
}

/// The line an error renders to.
pub open spec fn spec_error_line(message: Seq<char>) -> Seq<char> {
    "ERROR: "@ + message
}

/// Compose a warning line.
pub fn warn_line(message: &str) -> (r: String)
    ensures
        r@ == spec_warn_line(message@),
{
    let mut s = String::from_str("WARN: ");
    s.append(message);
    s
}

/// Compose an error line.
pub fn error_line(message: &str) -> (r: String)
    ensures
        r@ == spec_error_line(message@),
{
    let mut s = String::from_str("ERROR: ");
    s.append(message);
    s
}

/// Emit a warning to standard error.
pub fn warn(message: &str) {
    let line = warn_line(message);
    write_stderr_line(line.as_str());
}

/// Emit an error to standard error.
pub fn error(message: &str) {
    let line = error_line(message);
    write_stderr_line(line.as_str());
}

/// Emit an informational message.  Informational output goes only to an
/// installed backend, so without one this records nothing.
pub fn info(_message: &str) {
}

/// Emit a debug message.  Debug output goes only to an installed backend,
/// so without one this records nothing.
pub fn debug(_message: &str) {
}

} // verus!
