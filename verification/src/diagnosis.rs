//! What is said of a supervision that ended: the failure in words, and how
//! much weight it is given.

use vstd::prelude::*;
use vstd::string::StringExecFns;
use crate::supervisor::{Failure, FailureModel};

verus! {

/// Whether `needle` stands somewhere in `text`.
pub open spec fn occurs_in(needle: Seq<char>, text: Seq<char>) -> bool {
    exists|i: int|
        0 <= i <= text.len() - needle.len() && #[trigger] text.subrange(i, i + needle.len())
            == needle
}

/// The characters of `text`.
fn chars_of(text: &str) -> (out: Vec<char>)
    ensures
        out@ == text@,
{
    let mut out: Vec<char> = Vec::new();
    for c in it: text.chars()
        invariant
            it.seq() == text@,
            out@ == it.seq().take(it.index() as int),
    {
        out.push(c);
        assert(out@ =~= it.seq().take(it.index() + 1));
    }
    assert(out@ =~= text@);
    out
}

/// Whether `needle` stands in `text` at position `at`.
fn stands_at(needle: &Vec<char>, text: &Vec<char>, at: usize) -> (r: bool)
    requires
        at + needle.len() <= text.len(),
    ensures
        r == (text@.subrange(at as int, at + needle.len()) == needle@),
{
    let mut j: usize = 0;
    while j < needle.len()
        invariant
            j <= needle.len(),
            at + needle.len() <= text.len(),
            forall|k: int| 0 <= k < j ==> text[at + k] == needle[k],
        decreases needle.len() - j,
    {
        if text[at + j] != needle[j] {
            assert(text@.subrange(at as int, at + needle.len())[j as int] != needle@[j as int]);
            return false;
        }
        j += 1;
    }
    assert(text@.subrange(at as int, at + needle.len()) =~= needle@);
    true
}

/// Whether `needle` stands somewhere in `text`.
pub fn mentions(text: &str, needle: &str) -> (r: bool)
    ensures
        r == occurs_in(needle@, text@),
{
    let hay = chars_of(text);
    let pin = chars_of(needle);
    if pin.len() > hay.len() {
        return false;
    }
    let last = hay.len() - pin.len();
    let mut i: usize = 0;
    loop
        invariant
            i <= last,
            last == hay.len() - pin.len(),
            pin.len() <= hay.len(),
            hay@ == text@,
            pin@ == needle@,
            forall|k: int| 0 <= k < i ==> #[trigger] hay@.subrange(k, k + pin.len()) != pin@,
        decreases last - i,
    {
        if stands_at(&pin, &hay, i) {
            assert(text@.subrange(i as int, i + needle@.len()) == needle@);
            return true;
        }
        if i == last {
            return false;
        }
        i += 1;
    }
}

/// The failure in words.
pub open spec fn message_of(failure: FailureModel) -> Seq<char> {
    match failure {
        FailureModel::SpawnError { message, .. } => "unable to spawn process: "@ + message,
        FailureModel::PipeError => "unable to read stdout/stderr"@,
        FailureModel::ProcessExited { status, stderr } => "process exited: "@ + status + "\n"@
            + stderr,
    }
}

/// Whether the failure says that the program to run is not there at all.
pub open spec fn is_unavailable(failure: FailureModel) -> bool {
    match failure {
        FailureModel::SpawnError { not_found, .. } => not_found,
        _ => false,
    }
}

/// Whether the failure speaks of a shared library that could not be loaded.
pub open spec fn lacks_library(failure: FailureModel) -> bool {
    occurs_in("error while loading shared libraries"@, message_of(failure))
}

/// What is written down of the failure.
pub open spec fn report_text(failure: FailureModel) -> Seq<char> {
    if is_unavailable(failure) {
        "ROS discovery is not available on this platform"@
    } else if lacks_library(failure) {
        "ROS discovery is not available:\n"@ + message_of(failure)
            + "Please make sure that ROS is sourced, and try at least ROS jazzy."@
    } else {
        "ROS discovery is not available:\n"@ + message_of(failure)
    }
}

/// How much weight a report is given.
#[derive(Debug, Clone, Copy, PartialEq, Eq, Structural)]
pub enum Severity {
    /// Discovery is not to be had on this platform: nothing is wrong.
    Warning,
    /// Discovery was expected to work and does not.
    Error,
}

/// What is written down when supervision ends.
#[derive(Debug, Clone)]
pub struct Report {
    pub severity: Severity,
    pub text: String,
}

impl Failure {
    /// The failure in words.
    pub fn message(&self) -> (text: String)
        ensures
            text@ == message_of(self.deep_view()),
    {
        match self {
            Failure::SpawnError { not_found: _, message } => {
                let mut text = String::from_str("unable to spawn process: ");
                text.append(message.as_str());
                text
            },
            Failure::PipeError => String::from_str("unable to read stdout/stderr"),
            Failure::ProcessExited { status, stderr } => {
                let mut text = String::from_str("process exited: ");
                text.append(status.as_str());
                text.append("\n");
                text.append(stderr.as_str());
                text
            },
        }
    }

    /// What is to be written down of the failure. A program that is not there
    /// is worth a warning, and anything else is an error, with a hint where a
    /// shared library could not be loaded.
    pub fn report(&self) -> (report: Report)
        ensures
            report.severity == (if is_unavailable(self.deep_view()) {
                Severity::Warning
            } else {
                Severity::Error
            }),
            report.text@ == report_text(self.deep_view()),
    {
        let unavailable = match self {
            Failure::SpawnError { not_found, message: _ } => *not_found,
            _ => false,
        };
        if unavailable {
            return Report {
                severity: Severity::Warning,
                text: String::from_str("ROS discovery is not available on this platform"),
            };
        }
        let message = self.message();
        let mut text = String::from_str("ROS discovery is not available:\n");
        text.append(message.as_str());
        if mentions(message.as_str(), "error while loading shared libraries") {
            text.append("Please make sure that ROS is sourced, and try at least ROS jazzy.");
        }
        Report { severity: Severity::Error, text }
    }
}

} // verus!
