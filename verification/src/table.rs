//! The static test table: one record per test, carrying its name, its
//! body, and how its outcome is to be judged.
use vstd::prelude::*;

verus! {

/// Whether a test is expected to signal a panic.
#[derive(PartialEq, Eq, Structural, Clone, Copy, Debug)]
pub enum ShouldPanic {
    No,
    Yes,
}

/// The kind of test a record came from. The harness does not branch on
/// it; it is carried for compatibility with external test collection.
#[derive(PartialEq, Eq, Structural, Clone, Copy, Debug, Hash)]
pub enum TestType {
    UnitTest,
    IntegrationTest,
    DocTest,
    Unknown,
}

/// A test's name, pointing into static storage.
pub struct StaticTestName(pub &'static str);

/// A test's body. It reports back whether the body signalled a panic:
/// `true` stands for "the test panicked". Running the body in an
/// isolated fault domain and translating its abnormal end into this
/// value is the caller's concern.
pub struct StaticTestFn<F>(pub F);

/// Everything known about a test except its body.
pub struct TestDesc {
    pub allow_fail: bool,
    pub ignore: bool,
    pub name: StaticTestName,
    pub should_panic: ShouldPanic,
    pub test_type: TestType,
}

/// One entry of the test table.
pub struct TestDescAndFn<F> {
    pub desc: TestDesc,
    pub testfn: StaticTestFn<F>,
}

/// The part of a table entry that the run's specification speaks of.
pub ghost struct TestInfo {
    pub name: Seq<char>,
    pub ignore: bool,
    pub should_panic: ShouldPanic,
}

impl TestDesc {
    /// The record's ghost description.
    pub open spec fn info(&self) -> TestInfo {
        TestInfo { name: self.name.0@, ignore: self.ignore, should_panic: self.should_panic }
    }
}

/// The ghost descriptions of a whole table, in table order.
pub open spec fn table_info<F>(tests: Seq<&TestDescAndFn<F>>) -> Seq<TestInfo> {
    tests.map(|i: int, t: &TestDescAndFn<F>| t.desc.info())
}

} // verus!
