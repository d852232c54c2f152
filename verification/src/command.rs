//! A shell command run every period, its output kept for the view. The
//! application runs the process and waits the period; each finished run is
//! recorded here, its bytes read as text.

use vstd::prelude::*;
use vstd::utf8::{decode_utf8, valid_utf8};

verus! {

/// One finished run.
#[derive(Clone, Debug, PartialEq, Eq)]
pub struct Output {
    pub stdout: String,
    pub stderr: String,
    pub success: bool,
}

/// Bytes read as text, each invalid UTF-8 sequence replaced by U+FFFD.
pub uninterp spec fn utf8_lossy(bytes: Seq<u8>) -> Seq<char>;

/// `String::from_utf8_lossy(bytes).into_owned()`. Named, with the one fact
/// its documentation gives plainly: valid UTF-8 reads as itself.
#[verifier::external_body]
fn lossy(bytes: &[u8]) -> (r: String)
    ensures
        r@ == utf8_lossy(bytes@),
        valid_utf8(bytes@) ==> r@ == decode_utf8(bytes@),
{
    String::from_utf8_lossy(bytes).into_owned()
}

impl Output {
    /// A run that finished: its streams as text and whether it succeeded.
    pub fn finished(stdout: &[u8], stderr: &[u8], success: bool) -> (r: Output)
        ensures
            r.stdout@ == utf8_lossy(stdout@),
            r.stderr@ == utf8_lossy(stderr@),
            r.success == success,
    {
        Output { stdout: lossy(stdout), stderr: lossy(stderr), success }
    }

    /// A run that could not start: no output, the reason as its error text.
    pub fn failed_to_start(reason: String) -> (r: Output)
        ensures
            r.stdout@ == Seq::<char>::empty(),
            r.stderr@ == reason@,
            !r.success,
    {
        Output { stdout: String::new(), stderr: reason, success: false }
    }
}

/// The most recent run and how many have finished.
pub struct CommandState {
    last: Option<Output>,
    runs: u64,
}

impl CommandState {
    /// No run finished yet.
    pub fn new() -> (r: CommandState)
        ensures
            r.spec_last() is None,
            r.spec_runs() == 0,
    {
        CommandState { last: None, runs: 0 }
    }

    pub closed spec fn spec_last(&self) -> Option<Output> {
        self.last
    }

    pub closed spec fn spec_runs(&self) -> u64 {
        self.runs
    }

    /// The most recent run, `None` before the first finishes.
    pub fn output(&self) -> (r: Option<&Output>)
        ensures
            r == (match self.spec_last() {
                Some(o) => Some(&o),
                None => None,
            }),
    {
        match &self.last {
            Some(o) => Some(o),
            None => None,
        }
    }

    /// Completed runs so far.
    pub fn runs(&self) -> (r: u64)
        ensures
            r == self.spec_runs(),
    {
        self.runs
    }

    /// A run finished with `output`: it becomes the latest and the count
    /// goes up by one.
    pub fn record(&mut self, output: Output)
        requires
            old(self).spec_runs() < u64::MAX,
        ensures
            final(self).spec_last() == Some(output),
            final(self).spec_runs() == old(self).spec_runs() + 1,
    {
        self.last = Some(output);
        self.runs = self.runs + 1;
    }
}

} // verus!
