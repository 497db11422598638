//! A minimal test-execution harness for environments without a standard
//! test runner: a verified run loop over a static test table, a pluggable
//! reporting backend that emits the conventional diagnostic text, and a
//! byte sink that retries partial writes.
use vstd::prelude::*;

pub mod events;
pub mod report;
pub mod runner;
pub mod sink;
pub mod table;
pub mod text;

verus! {

/// The result a `main` function hands back to the harness, reduced to a
/// process status code. Implementors outside this crate describe their
/// status through `report_spec`.
pub trait Termination {
    /// The status code `report` is expected to return.
    spec fn report_spec(&self) -> int;

    /// Reduce the value to a process status code.
    fn report(self) -> (code: i32)
        ensures
            code as int == self.report_spec(),
    ;
}

impl Termination for () {
    open spec fn report_spec(&self) -> int {
        0
    }

    fn report(self) -> (code: i32)
        ensures
            code as int == self.report_spec(),
    {
        0
    }
}

/// Check that a test body's return value reports success; `true` exactly
/// when the value reduces to status 0.
pub fn assert_test_result<T: Termination>(result: T) -> (ok: bool)
    ensures
        ok == (result.report_spec() == 0),
{
    let code = result.report();
    code == 0
}

} // verus!
