use utest::assert_test_result;
use utest::report::{ConsoleReport, RecEvent, Recorder, Report};
use utest::runner::{classify, exit_status, test_main_static, RunTally};
use utest::sink::{write_all, write_str, BufferSink, StderrSink};
use utest::table::{ShouldPanic, StaticTestFn, StaticTestName, TestDesc, TestDescAndFn, TestType};
use utest::text::fmt_usize;

fn body_quiet() -> bool {
    false
}

fn body_panics() -> bool {
    true
}

fn body_must_not_run() -> bool {
    panic!("an ignored test's body must never be executed");
}

fn entry(
    name: &'static str,
    ignore: bool,
    should_panic: ShouldPanic,
    f: fn() -> bool,
) -> TestDescAndFn<fn() -> bool> {
    TestDescAndFn {
        desc: TestDesc {
            allow_fail: false,
            ignore,
            name: StaticTestName(name),
            should_panic,
            test_type: TestType::UnitTest,
        },
        testfn: StaticTestFn(f),
    }
}

#[test]
fn recorder_sees_every_hook_in_table_order() {
    let a = entry("A", false, ShouldPanic::No, body_quiet);
    let b = entry("B", false, ShouldPanic::No, body_panics);
    let c = entry("C", true, ShouldPanic::No, body_must_not_run);
    let table = [&a, &b, &c];
    let mut rec = Recorder::new();
    let tally = test_main_static(&table, &mut rec);
    let log = rec.log();
    assert_eq!(log.len(), 7);
    assert_eq!(log[0], RecEvent::Start(3));
    assert_eq!(log[1], RecEvent::BeforeRun(String::from("A")));
    assert_eq!(log[2], RecEvent::Success(String::from("A")));
    assert_eq!(log[3], RecEvent::BeforeRun(String::from("B")));
    assert_eq!(log[4], RecEvent::Failed(String::from("B")));
    assert_eq!(log[5], RecEvent::Ignored(String::from("C")));
    assert_eq!(log[6], RecEvent::Summary(1, 1, 1));
    assert_eq!(tally, RunTally { passed: 1, failed: 1, ignored: 1 });
}

#[test]
fn tallies_cover_the_table() {
    let a = entry("a", false, ShouldPanic::No, body_quiet);
    let b = entry("b", false, ShouldPanic::Yes, body_quiet);
    let c = entry("c", true, ShouldPanic::No, body_must_not_run);
    let d = entry("d", false, ShouldPanic::Yes, body_panics);
    let table = [&a, &b, &c, &d];
    let mut rec = Recorder::new();
    let tally = test_main_static(&table, &mut rec);
    assert_eq!(tally.passed + tally.failed + tally.ignored, 4);
    assert_eq!(tally, RunTally { passed: 2, failed: 1, ignored: 1 });
}

#[test]
fn ignored_test_body_is_never_executed() {
    let a = entry("quiet", false, ShouldPanic::No, body_quiet);
    let b = entry("skipped", true, ShouldPanic::No, body_must_not_run);
    let table = [&a, &b];
    let mut rec = Recorder::new();
    let tally = test_main_static(&table, &mut rec);
    assert_eq!(tally, RunTally { passed: 1, failed: 0, ignored: 1 });
    let log = rec.log();
    assert_eq!(log[3], RecEvent::Ignored(String::from("skipped")));
}

#[test]
fn verdicts_for_tests_not_expected_to_panic() {
    assert!(classify(false, ShouldPanic::No));
    assert!(!classify(true, ShouldPanic::No));
    let a = entry("calm", false, ShouldPanic::No, body_quiet);
    let b = entry("blows", false, ShouldPanic::No, body_panics);
    let table = [&a, &b];
    let mut rec = Recorder::new();
    let tally = test_main_static(&table, &mut rec);
    assert_eq!(tally, RunTally { passed: 1, failed: 1, ignored: 0 });
    assert_eq!(rec.log()[2], RecEvent::Success(String::from("calm")));
    assert_eq!(rec.log()[4], RecEvent::Failed(String::from("blows")));
}

#[test]
fn verdicts_for_tests_expected_to_panic() {
    assert!(classify(true, ShouldPanic::Yes));
    assert!(!classify(false, ShouldPanic::Yes));
    let a = entry("blows", false, ShouldPanic::Yes, body_panics);
    let b = entry("calm", false, ShouldPanic::Yes, body_quiet);
    let table = [&a, &b];
    let mut rec = Recorder::new();
    let tally = test_main_static(&table, &mut rec);
    assert_eq!(tally, RunTally { passed: 1, failed: 1, ignored: 0 });
    assert_eq!(rec.log()[2], RecEvent::Success(String::from("blows")));
    assert_eq!(rec.log()[4], RecEvent::Failed(String::from("calm")));
}

#[test]
fn summary_text_matches_the_wire_format_exactly() {
    let a = entry("A", false, ShouldPanic::No, body_quiet);
    let b = entry("B", false, ShouldPanic::No, body_panics);
    let c = entry("C", true, ShouldPanic::No, body_must_not_run);
    let table = [&a, &b, &c];
    let mut console = ConsoleReport::new(BufferSink::new(4096));
    test_main_static(&table, &mut console);
    assert!(console.all_written());
    let sink = console.into_sink();
    let expected = "running 3 tests\ntest A ... OK\ntest B ... FAILED\ntest C ... ignored\n\ntest result: FAILED. 1 passed; 1 failed; 1 ignored\n";
    assert_eq!(sink.bytes().as_slice(), expected.as_bytes());
}

#[test]
fn all_pass_summary_says_ok() {
    let a = entry("one", false, ShouldPanic::No, body_quiet);
    let table = [&a];
    let mut console = ConsoleReport::new(BufferSink::new(4096));
    let tally = test_main_static(&table, &mut console);
    let expected = "running 1 tests\ntest one ... OK\n\ntest result: OK. 1 passed; 0 failed; 0 ignored\n";
    assert_eq!(console.into_sink().bytes().as_slice(), expected.as_bytes());
    assert_eq!(exit_status(&tally), 0);
}

#[test]
fn empty_table_still_reports() {
    let table: [&TestDescAndFn<fn() -> bool>; 0] = [];
    let mut console = ConsoleReport::new(BufferSink::new(4096));
    let tally = test_main_static(&table, &mut console);
    let expected = "running 0 tests\n\ntest result: OK. 0 passed; 0 failed; 0 ignored\n";
    assert_eq!(console.into_sink().bytes().as_slice(), expected.as_bytes());
    assert_eq!(tally, RunTally { passed: 0, failed: 0, ignored: 0 });
}

#[test]
fn write_all_splits_a_large_buffer_into_three_calls() {
    let mut sink = BufferSink::new(4096);
    let buf: Vec<u8> = (0..10_000u32).map(|i| (i % 251) as u8).collect();
    let done = write_all(&mut sink, &buf);
    assert!(done);
    assert_eq!(sink.call_count(), 3);
    assert_eq!(sink.bytes().as_slice(), buf.as_slice());
}

#[test]
fn buffer_write_all_completes_with_the_promised_attempt_count() {
    let mut sink = BufferSink::new(4096);
    let buf: Vec<u8> = (0..10_000u32).map(|i| (i % 253) as u8).collect();
    let done = sink.write_all(&buf);
    assert!(done);
    assert_eq!(sink.call_count(), 3);
    assert_eq!(sink.bytes().as_slice(), buf.as_slice());
}

#[test]
fn write_all_delivers_a_prefix_when_the_sink_closes() {
    let mut sink = BufferSink::with_limit(4, 8);
    let buf: Vec<u8> = (0..12u8).collect();
    let done = write_all(&mut sink, &buf);
    assert!(!done);
    assert_eq!(sink.bytes().as_slice(), &buf[..8]);
}

#[test]
fn write_all_refused_outright_delivers_nothing() {
    let mut sink = BufferSink::with_limit(4, 0);
    let done = write_all(&mut sink, b"abc");
    assert!(!done);
    assert!(sink.bytes().is_empty());
}

#[test]
fn write_str_sends_utf8_bytes() {
    let mut sink = BufferSink::new(2);
    let done = write_str(&mut sink, "fähre\n");
    assert!(done);
    assert_eq!(sink.bytes().as_slice(), "fähre\n".as_bytes());
}

#[test]
fn panic_record_has_message_and_location() {
    let mut console = ConsoleReport::new(BufferSink::new(4096));
    console.panic_fmt("boom", "lights.rs", 42);
    let expected = "\npanicked at 'boom', lights.rs:42";
    assert_eq!(console.into_sink().bytes().as_slice(), expected.as_bytes());
}

#[test]
fn decimal_formatting_matches_std() {
    assert_eq!(fmt_usize(0), "0");
    assert_eq!(fmt_usize(9), "9");
    assert_eq!(fmt_usize(10), "10");
    assert_eq!(fmt_usize(101), "101");
    assert_eq!(fmt_usize(usize::MAX), usize::MAX.to_string());
}

#[test]
fn exit_status_is_zero_iff_no_failures() {
    assert_eq!(exit_status(&RunTally { passed: 5, failed: 0, ignored: 2 }), 0);
    assert_eq!(exit_status(&RunTally { passed: 0, failed: 1, ignored: 0 }), 101);
    assert_eq!(exit_status(&RunTally { passed: 3, failed: 7, ignored: 1 }), 101);
}

#[test]
fn unit_termination_reports_success() {
    assert!(assert_test_result(()));
}

#[test]
fn ignore_wins_over_expected_panic() {
    let a = entry("skipped", true, ShouldPanic::Yes, body_must_not_run);
    let table = [&a];
    let mut rec = Recorder::new();
    let tally = test_main_static(&table, &mut rec);
    assert_eq!(tally, RunTally { passed: 0, failed: 0, ignored: 1 });
    assert_eq!(rec.log()[1], RecEvent::Ignored(String::from("skipped")));
}

#[test]
fn duplicate_names_are_reported_separately() {
    let a = entry("same", false, ShouldPanic::No, body_quiet);
    let b = entry("same", false, ShouldPanic::No, body_panics);
    let table = [&a, &b];
    let mut rec = Recorder::new();
    let tally = test_main_static(&table, &mut rec);
    assert_eq!(tally, RunTally { passed: 1, failed: 1, ignored: 0 });
    assert_eq!(rec.log()[2], RecEvent::Success(String::from("same")));
    assert_eq!(rec.log()[4], RecEvent::Failed(String::from("same")));
}

#[test]
fn stderr_sink_accepts_a_diagnostic_line() {
    let mut sink = StderrSink::new();
    let done = write_str(&mut sink, "harness diagnostic channel check\n");
    assert!(done);
    let empty_done = write_all(&mut sink, b"");
    assert!(empty_done);
}
