//! The log file as a value: what `read_logs` shows, what `clear_logs`
//! leaves behind, and the delimiter line written before each
//! connection attempt. The file itself is read and written outside;
//! this module fixes what those operations mean.

use vstd::prelude::*;
use vstd::string::StringExecFns;

verus! {

/// What `read_logs` returns for a missing log file.
pub open spec fn no_logs_text() -> Seq<char> {
    "No logs found."@
}

/// What the UI shows for a log file state: the contents when the file
/// exists, the fixed placeholder when it does not. Absence is not an
/// error.
pub fn logs_display(contents: Option<String>) -> (r: String)
    ensures
        match contents {
            Some(c) => r@ == c@,
            None => r@ == no_logs_text(),
        },
{
    match contents {
        Some(c) => c,
        None => String::from_str("No logs found."),
    }
}

/// `clear_logs` as a transition on the file state: an existing file is
/// emptied, an absent file is left absent. Neither case is an error.
pub open spec fn spec_clear(file: Option<Seq<char>>) -> Option<Seq<char>> {
    match file {
        Some(_) => Some(Seq::empty()),
        None => None,
    }
}

/// Computes the file state `clear_logs` leaves behind.
pub fn clear_file(file: Option<String>) -> (r: Option<String>)
    ensures
        file is Some ==> r is Some && r->0@ == Seq::<char>::empty(),
        file is None ==> r is None,
{
    match file {
        Some(_) => Some(String::new()),
        None => None,
    }
}

/// `clear_logs` is idempotent: a second clear leaves the same file
/// state as the first, empty or absent.
pub proof fn lemma_clear_idempotent(file: Option<Seq<char>>)
    ensures
        spec_clear(spec_clear(file)) == spec_clear(file),
{
}

/// The delimiter line appended before each connection attempt: a blank
/// line, then a marker carrying a timestamp of the attempt.
pub open spec fn spec_header(timestamp: Seq<char>) -> Seq<char> {
    "\n--- Connection Attempt: "@ + timestamp + " ---\n"@
}

/// Renders the delimiter line for a given timestamp text.
pub fn connection_header(timestamp: &str) -> (r: String)
    ensures
        r@ == spec_header(timestamp@),
{
    let mut r = String::from_str("\n--- Connection Attempt: ");
    r.append(timestamp);
    r.append(" ---\n");
    r
}

/// Relies on `chrono::DateTime::from_timestamp`: renders the clock
/// reading as a timestamp through its `Display` form, or `None` when
/// the reading lies outside the representable range. Every branch is
/// total: a clock before the epoch or out of range falls back to a
/// fixed placeholder, so no reading can panic. Chrono's own `now` and
/// its local-zone conversion are avoided: both panic on such clocks
/// or on corrupt zone data, so the timestamp is rendered in UTC.
/// Nothing can be promised of a clock reading.
#[verifier::external_body]
fn clock_now_text() -> (r: String) {
    let since_epoch = match std::time::SystemTime::now().duration_since(std::time::UNIX_EPOCH) {
        Ok(d) => d,
        Err(_) => return String::from("unknown time"),
    };
    let secs = i64::try_from(since_epoch.as_secs()).unwrap_or(i64::MAX);
    match chrono::DateTime::from_timestamp(secs, since_epoch.subsec_nanos()) {
        Some(t) => t.to_string(),
        None => String::from("unknown time"),
    }
}

/// Renders the delimiter line for a connection attempt made now: the
/// fixed marker around whatever the clock read.
pub fn fresh_connection_header() -> (r: String)
    ensures
        exists|timestamp: Seq<char>| r@ == #[trigger] spec_header(timestamp),
{
    let now = clock_now_text();
    let r = connection_header(now.as_str());
    proof {
        assert(r@ == spec_header(now@));
    }
    r
}

} // verus!
