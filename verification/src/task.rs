//! What happens after one benchmark command has finished: its output is put
//! together, read for duration candidates, and its container is named for
//! clean-up.

use vstd::prelude::*;
use vstd::string::StringExecFns;
use crate::pattern::{LatencyPattern, each_within_a_line, spec_candidates};
use crate::text::{push_char, spec_lines};

verus! {

/// What `String::from_utf8_lossy` makes of `bytes`.
pub uninterp spec fn utf8_lossy(bytes: Seq<u8>) -> Seq<char>;

/// `String::from_utf8_lossy`: the decoded text, which for valid UTF-8 is
/// exactly the characters that the bytes encode.
#[verifier::external_body]
pub(crate) fn from_utf8_lossy(bytes: &[u8]) -> (res: String)
    ensures
        res@ == utf8_lossy(bytes@),
        vstd::utf8::valid_utf8(bytes@) ==> res@ == vstd::utf8::decode_utf8(bytes@),
{
    String::from_utf8_lossy(bytes).into_owned()
}

/// The text a finished command is judged by: its standard error, a newline,
/// then its standard output.
pub open spec fn spec_combined_output(stdout: Seq<u8>, stderr: Seq<u8>) -> Seq<char> {
    utf8_lossy(stderr) + seq!['\n'] + utf8_lossy(stdout)
}

/// Puts a finished command's output together: standard error, a newline,
/// standard output, each decoded leniently from UTF-8.
pub fn combined_output(stdout: &[u8], stderr: &[u8]) -> (res: String)
    ensures
        res@ == spec_combined_output(stdout@, stderr@),
{
    let mut res = from_utf8_lossy(stderr);
    push_char(&mut res, '\n');
    let out = from_utf8_lossy(stdout);
    res.append(out.as_str());
    res
}

/// The container to clean up after a request: its identifier, unless that is
/// empty (the request ran in no container of its own).
pub fn cleanup_id(id: String) -> (res: Option<String>)
    ensures
        id@.len() == 0 ==> res is None,
        id@.len() != 0 ==> res == Some(id),
{
    if id.as_str().is_empty() {
        None
    } else {
        Some(id)
    }
}

/// What one finished request of the open loop leaves behind.
pub struct TaskReport {
    /// Standard error, a newline, and standard output.
    pub output: String,
    /// Group-1 captures of the output's lines, in line order.
    pub candidates: Vec<String>,
    /// The container to clean up, if any.
    pub cleanup: Option<String>,
}

/// Reads a finished request of the open loop: its combined output, the
/// duration candidates in it, and the container to clean up.
pub fn task_report(pattern: &LatencyPattern, stdout: &[u8], stderr: &[u8], id: String) -> (res:
    TaskReport)
    ensures
        res.output@ == spec_combined_output(stdout@, stderr@),
        res.candidates.deep_view() == spec_candidates(pattern@, spec_lines(res.output@)),
        each_within_a_line(res.candidates.deep_view(), spec_lines(res.output@)),
        id@.len() == 0 ==> res.cleanup is None,
        id@.len() != 0 ==> res.cleanup == Some(id),
{
    let output = combined_output(stdout, stderr);
    let candidates = pattern.duration_candidates(output.as_str());
    let cleanup = cleanup_id(id);
    TaskReport { output, candidates, cleanup }
}

} // verus!
