//! The test-execution loop: one pass over the table, one verdict per
//! test, the six reporting hooks driven in order, and the tallies that
//! the summary and the process's exit status are computed from.
use crate::events::{lemma_encode_utf8_add, lemma_render_trace_push, render_event, render_trace,
    Event};
use crate::report::Report;
use crate::table::{table_info, ShouldPanic, TestDescAndFn, TestInfo};
use vstd::prelude::*;
use vstd::utf8::encode_utf8;

verus! {

/// The counts accumulated over one pass of the table.
#[derive(PartialEq, Eq, Structural, Clone, Copy, Debug)]
pub struct RunTally {
    pub passed: usize,
    pub failed: usize,
    pub ignored: usize,
}

/// The verdict rule: a test passes exactly when it panicked precisely
/// if it was expected to.
pub open spec fn outcome_pass(panicked: bool, should_panic: ShouldPanic) -> bool {
    panicked == (should_panic is Yes)
}

/// The hook invocations one table entry gives rise to: `ignored` alone
/// for a skipped test, otherwise `before_run` followed by the verdict.
pub open spec fn events_of_test(t: TestInfo, panicked: bool) -> Seq<Event> {
    if t.ignore {
        seq![Event::Ignored(t.name)]
    } else if outcome_pass(panicked, t.should_panic) {
        seq![Event::BeforeRun(t.name), Event::Success(t.name)]
    } else {
        seq![Event::BeforeRun(t.name), Event::Failed(t.name)]
    }
}

/// The hook invocations of a whole pass, given each body's outcome
/// (`outcomes[i]` is read only where entry `i` actually ran).
pub open spec fn run_events(ts: Seq<TestInfo>, outcomes: Seq<bool>) -> Seq<Event>
    recommends
        ts.len() == outcomes.len(),
    decreases ts.len(),
{
    if ts.len() == 0 {
        Seq::empty()
    } else {
        events_of_test(ts[0], outcomes[0]) + run_events(ts.drop_first(), outcomes.drop_first())
    }
}

/// How many entries of the table are skipped.
pub open spec fn count_ignored(ts: Seq<TestInfo>) -> nat
    decreases ts.len(),
{
    if ts.len() == 0 {
        0
    } else {
        (if ts[0].ignore {
            1nat
        } else {
            0nat
        }) + count_ignored(ts.drop_first())
    }
}

/// How many entries run and pass, given each body's outcome.
pub open spec fn count_passed(ts: Seq<TestInfo>, outcomes: Seq<bool>) -> nat
    recommends
        ts.len() == outcomes.len(),
    decreases ts.len(),
{
    if ts.len() == 0 {
        0
    } else {
        (if !ts[0].ignore && outcome_pass(outcomes[0], ts[0].should_panic) {
            1nat
        } else {
            0nat
        }) + count_passed(ts.drop_first(), outcomes.drop_first())
    }
}

/// How many entries run and fail, given each body's outcome.
pub open spec fn count_failed(ts: Seq<TestInfo>, outcomes: Seq<bool>) -> nat
    recommends
        ts.len() == outcomes.len(),
    decreases ts.len(),
{
    if ts.len() == 0 {
        0
    } else {
        (if !ts[0].ignore && !outcome_pass(outcomes[0], ts[0].should_panic) {
            1nat
        } else {
            0nat
        }) + count_failed(ts.drop_first(), outcomes.drop_first())
    }
}

/// Extending a table by one entry extends its trace by that entry's
/// invocations, and bumps exactly one of the three counts.
pub proof fn lemma_run_push(ts: Seq<TestInfo>, outcomes: Seq<bool>, t: TestInfo, b: bool)
    requires
        ts.len() == outcomes.len(),
    ensures
        run_events(ts.push(t), outcomes.push(b)) == run_events(ts, outcomes) + events_of_test(t, b),
        count_ignored(ts.push(t)) == count_ignored(ts) + (if t.ignore {
            1nat
        } else {
            0nat
        }),
        count_passed(ts.push(t), outcomes.push(b)) == count_passed(ts, outcomes) + (
        if !t.ignore && outcome_pass(b, t.should_panic) {
            1nat
        } else {
            0nat
        }),
        count_failed(ts.push(t), outcomes.push(b)) == count_failed(ts, outcomes) + (
        if !t.ignore && !outcome_pass(b, t.should_panic) {
            1nat
        } else {
            0nat
        }),
    decreases ts.len(),
{
    if ts.len() == 0 {
        assert(ts.push(t).drop_first() =~= Seq::<TestInfo>::empty());
        assert(outcomes.push(b).drop_first() =~= Seq::<bool>::empty());
        assert(ts.push(t)[0] == t);
        assert(outcomes.push(b)[0] == b);
        assert(run_events(Seq::<TestInfo>::empty(), Seq::<bool>::empty())
            == Seq::<Event>::empty());
        assert(count_ignored(Seq::<TestInfo>::empty()) == 0);
        assert(count_passed(Seq::<TestInfo>::empty(), Seq::<bool>::empty()) == 0);
        assert(count_failed(Seq::<TestInfo>::empty(), Seq::<bool>::empty()) == 0);
        assert(run_events(ts.push(t), outcomes.push(b)) == events_of_test(t, b)
            + Seq::<Event>::empty());
        assert(events_of_test(t, b) + Seq::<Event>::empty() =~= events_of_test(t, b));
        assert(run_events(ts, outcomes) + events_of_test(t, b) =~= events_of_test(t, b));
    } else {
        assert(ts.push(t).drop_first() =~= ts.drop_first().push(t));
        assert(outcomes.push(b).drop_first() =~= outcomes.drop_first().push(b));
        assert(ts.push(t)[0] == ts[0]);
        assert(outcomes.push(b)[0] == outcomes[0]);
        lemma_run_push(ts.drop_first(), outcomes.drop_first(), t, b);
        assert(events_of_test(ts[0], outcomes[0]) + (run_events(
            ts.drop_first(),
            outcomes.drop_first(),
        ) + events_of_test(t, b)) =~= (events_of_test(ts[0], outcomes[0]) + run_events(
            ts.drop_first(),
            outcomes.drop_first(),
        )) + events_of_test(t, b));
    }
}

/// Every entry is counted exactly once: passed, failed and ignored
/// together cover the table.
pub proof fn lemma_counts_cover_table(ts: Seq<TestInfo>, outcomes: Seq<bool>)
    requires
        ts.len() == outcomes.len(),
    ensures
        count_passed(ts, outcomes) + count_failed(ts, outcomes) + count_ignored(ts) == ts.len(),
    decreases ts.len(),
{
    if ts.len() > 0 {
        lemma_counts_cover_table(ts.drop_first(), outcomes.drop_first());
    }
}

/// One more hook invocation appends exactly its rendered text to the
/// channel's bytes.
proof fn lemma_out_step(pre_out: Seq<u8>, app: Seq<Event>, ev: Event)
    ensures
        (pre_out + encode_utf8(render_trace(app))) + encode_utf8(render_event(ev)) == pre_out
            + encode_utf8(render_trace(app.push(ev))),
{
    lemma_render_trace_push(app, ev);
    lemma_encode_utf8_add(render_trace(app), render_event(ev));
    assert((pre_out + encode_utf8(render_trace(app))) + encode_utf8(render_event(ev)) =~= pre_out
        + (encode_utf8(render_trace(app)) + encode_utf8(render_event(ev))));
}

/// The verdict on one body's outcome: pass exactly when it panicked
/// precisely if expected.
pub fn classify(panicked: bool, should_panic: ShouldPanic) -> (pass: bool)
    ensures
        pass == outcome_pass(panicked, should_panic),
{
    match should_panic {
        ShouldPanic::Yes => panicked,
        ShouldPanic::No => !panicked,
    }
}

/// The process status the run maps to: 0 on an all-pass run, the
/// sentinel 101 as soon as one test failed.
pub fn exit_status(tally: &RunTally) -> (code: i32)
    ensures
        tally.failed == 0 ==> code == 0,
        tally.failed > 0 ==> code == 101,
{
    if tally.failed == 0 {
        0
    } else {
        101
    }
}

/// One pass over the table. `start` is invoked once with the table's
/// length; each entry, in table order, gives `ignored` or `before_run`
/// and then the verdict hook picked by the rule in `outcome_pass`; the
/// pass closes with `summary` over tallies that cover the table. A
/// body's `true` means it panicked; the body of a skipped entry is
/// never invoked.
pub fn test_main_static<F: Fn() -> bool, R: Report>(
    tests: &[&TestDescAndFn<F>],
    reporter: &mut R,
) -> (tally: RunTally)
    requires
        forall|i: int| 0 <= i < tests@.len() ==> #[trigger] call_requires(tests@[i].testfn.0, ()),
    ensures
        tally.passed + tally.failed + tally.ignored == tests@.len(),
        tally.ignored as nat == count_ignored(table_info(tests@)),
        exists|outcomes: Seq<bool>|
            {
                &&& outcomes.len() == tests@.len()
                &&& final(reporter).events() == old(reporter).events() + seq![
                    Event::Start(tests@.len() as nat),
                ] + run_events(table_info(tests@), outcomes) + seq![
                    Event::Summary(tally.passed as nat, tally.failed as nat, tally.ignored as nat),
                ]
                &&& tally.passed as nat == count_passed(table_info(tests@), outcomes)
                &&& tally.failed as nat == count_failed(table_info(tests@), outcomes)
                &&& forall|i: int|
                    0 <= i < tests@.len() && !tests@[i].desc.ignore ==> #[trigger] call_ensures(
                        tests@[i].testfn.0,
                        (),
                        outcomes[i],
                    )
            },
        final(reporter).ok() ==> old(reporter).ok(),
        final(reporter).ok() ==> final(reporter).out() == old(reporter).out() + encode_utf8(
            render_trace(final(reporter).events().skip(old(reporter).events().len() as int)),
        ),
{
    let ghost pre_events = old(reporter).events();
    let ghost pre_out = old(reporter).out();
    let ghost pre_ok = old(reporter).ok();
    let ghost infos = table_info(tests@);
    let n = tests.len();
    reporter.start(n);
    let ghost mut app: Seq<Event> = seq![Event::Start(n as nat)];
    proof {
        assert(pre_events.push(Event::Start(n as nat)) =~= pre_events + app);
        if reporter.ok() {
            assert(encode_utf8(render_trace(Seq::<Event>::empty())) =~= Seq::<u8>::empty());
            assert(pre_out + encode_utf8(render_trace(Seq::<Event>::empty())) =~= pre_out);
            lemma_out_step(pre_out, Seq::empty(), Event::Start(n as nat));
            assert(Seq::<Event>::empty().push(Event::Start(n as nat)) =~= app);
        }
    }
    let mut passed: usize = 0;
    let mut failed: usize = 0;
    let mut ignored: usize = 0;
    let ghost mut outcomes: Seq<bool> = Seq::empty();
    let mut i: usize = 0;
    while i < n
        invariant
            n == tests@.len(),
            i <= n,
            infos == table_info(tests@),
            outcomes.len() == i as nat,
            forall|j: int|
                0 <= j < tests@.len() ==> #[trigger] call_requires(tests@[j].testfn.0, ()),
            app == seq![Event::Start(n as nat)] + run_events(infos.take(i as int), outcomes),
            reporter.events() == pre_events + app,
            passed as nat == count_passed(infos.take(i as int), outcomes),
            failed as nat == count_failed(infos.take(i as int), outcomes),
            ignored as nat == count_ignored(infos.take(i as int)),
            passed + failed + ignored == i,
            forall|j: int|
                0 <= j < i && !tests@[j].desc.ignore ==> #[trigger] call_ensures(
                    tests@[j].testfn.0,
                    (),
                    outcomes[j],
                ),
            reporter.ok() ==> pre_ok,
            reporter.ok() ==> reporter.out() == pre_out + encode_utf8(render_trace(app)),
        decreases n - i,
    {
        let t = *vstd::slice::slice_index_get(tests, i);
        let name = t.desc.name.0;
        proof {
            assert(infos[i as int] == tests@[i as int].desc.info());
            assert(infos.take(i as int + 1) =~= infos.take(i as int).push(infos[i as int]));
            assert(infos.take(i as int).len() == outcomes.len());
        }
        if t.desc.ignore {
            reporter.ignored(name);
            ignored = ignored + 1;
            proof {
                if reporter.ok() {
                    lemma_out_step(pre_out, app, Event::Ignored(name@));
                }
                assert((pre_events + app).push(Event::Ignored(name@)) =~= pre_events + app.push(
                    Event::Ignored(name@),
                ));
                app = app.push(Event::Ignored(name@));
                lemma_run_push(infos.take(i as int), outcomes, infos[i as int], false);
                outcomes = outcomes.push(false);
                assert(events_of_test(infos[i as int], false) =~= seq![Event::Ignored(name@)]);
                assert(app =~= seq![Event::Start(n as nat)] + run_events(
                    infos.take(i as int + 1),
                    outcomes,
                ));
            }
        } else {
            reporter.before_run(name);
            proof {
                if reporter.ok() {
                    lemma_out_step(pre_out, app, Event::BeforeRun(name@));
                }
                assert((pre_events + app).push(Event::BeforeRun(name@)) =~= pre_events + app.push(
                    Event::BeforeRun(name@),
                ));
                app = app.push(Event::BeforeRun(name@));
            }
            let panicked = (t.testfn.0)();
            let pass = classify(panicked, t.desc.should_panic);
            if pass {
                reporter.success(name);
                passed = passed + 1;
            } else {
                reporter.failed(name);
                failed = failed + 1;
            }
            proof {
                let ev = if pass {
                    Event::Success(name@)
                } else {
                    Event::Failed(name@)
                };
                if reporter.ok() {
                    lemma_out_step(pre_out, app, ev);
                }
                assert((pre_events + app).push(ev) =~= pre_events + app.push(ev));
                app = app.push(ev);
                lemma_run_push(infos.take(i as int), outcomes, infos[i as int], panicked);
                outcomes = outcomes.push(panicked);
                assert(events_of_test(infos[i as int], panicked) =~= seq![
                    Event::BeforeRun(name@),
                    ev,
                ]);
                assert(app =~= seq![Event::Start(n as nat)] + run_events(
                    infos.take(i as int + 1),
                    outcomes,
                ));
            }
        }
        i = i + 1;
    }
    proof {
        assert(infos.take(n as int) =~= infos);
    }
    reporter.summary(passed, failed, ignored);
    proof {
        let ghost sum = Event::Summary(passed as nat, failed as nat, ignored as nat);
        if reporter.ok() {
            lemma_out_step(pre_out, app, sum);
        }
        assert((pre_events + app).push(sum) =~= pre_events + app.push(sum));
        app = app.push(sum);
        assert(app =~= seq![Event::Start(n as nat)] + run_events(infos, outcomes) + seq![sum]);
        assert(reporter.events() =~= pre_events + seq![Event::Start(n as nat)] + run_events(
            infos,
            outcomes,
        ) + seq![sum]);
        assert(reporter.events().skip(pre_events.len() as int) =~= app);
    }
    RunTally { passed, failed, ignored }
}

} // verus!
