//! The reporting backend contract: six hooks the run loop drives, plus
//! the panic-formatting hook, each bound to the exact diagnostic text it
//! must emit.
use crate::events::{lemma_encode_utf8_add, lemma_render_trace_push, render_event, render_trace,
    Event};
use crate::sink::{write_all, RawSink};
use crate::text::{line_before_run, line_ignored, line_panicked, line_start, line_summary};
use vstd::prelude::*;
use vstd::string::StringExecFns;
use vstd::string::StringSliceAdditionalSpecFns;
use vstd::utf8::encode_utf8;

verus! {

/// The channel's bytes grew by a prefix of `text`'s UTF-8 encoding:
/// all of it where the channel kept up, a shorter prefix where it
/// dropped the tail silently.
pub open spec fn out_extended_by_prefix(pre: Seq<u8>, post: Seq<u8>, text: Seq<char>) -> bool {
    exists|k: int| 0 <= k <= encode_utf8(text).len() && post == pre + encode_utf8(text).take(k)
}

/// A reporting backend. `events()` records every hook invocation in
/// order; `out()` is the diagnostic text the backend has put on its
/// channel, as UTF-8 bytes, and is exact as long as `ok()` holds. A
/// backend whose channel cannot fail keeps `ok()` true forever; one
/// whose channel drops bytes clears it and stays silent about `out()`
/// from then on — reporting failure never becomes a harness failure.
pub trait Report {
    /// Every hook invocation received so far, oldest first.
    spec fn events(&self) -> Seq<Event>;

    /// The bytes put on the diagnostic channel, exact while `ok()`.
    spec fn out(&self) -> Seq<u8>;

    /// Whether the channel has accepted everything so far.
    spec fn ok(&self) -> bool;

    /// The run begins, over `count` table entries.
    fn start(&mut self, count: usize)
        ensures
            final(self).events() == old(self).events().push(Event::Start(count as nat)),
            final(self).ok() ==> old(self).ok(),
            final(self).ok() ==> final(self).out() == old(self).out() + encode_utf8(
                render_event(Event::Start(count as nat)),
            ),
            out_extended_by_prefix(
                old(self).out(),
                final(self).out(),
                render_event(Event::Start(count as nat)),
            ),
    ;

    /// The named test's body is about to run.
    fn before_run(&mut self, name: &str)
        ensures
            final(self).events() == old(self).events().push(Event::BeforeRun(name@)),
            final(self).ok() ==> old(self).ok(),
            final(self).ok() ==> final(self).out() == old(self).out() + encode_utf8(
                render_event(Event::BeforeRun(name@)),
            ),
            out_extended_by_prefix(
                old(self).out(),
                final(self).out(),
                render_event(Event::BeforeRun(name@)),
            ),
    ;

    /// The named test was skipped.
    fn ignored(&mut self, name: &str)
        ensures
            final(self).events() == old(self).events().push(Event::Ignored(name@)),
            final(self).ok() ==> old(self).ok(),
            final(self).ok() ==> final(self).out() == old(self).out() + encode_utf8(
                render_event(Event::Ignored(name@)),
            ),
            out_extended_by_prefix(
                old(self).out(),
                final(self).out(),
                render_event(Event::Ignored(name@)),
            ),
    ;

    /// The named test passed.
    fn success(&mut self, name: &str)
        ensures
            final(self).events() == old(self).events().push(Event::Success(name@)),
            final(self).ok() ==> old(self).ok(),
            final(self).ok() ==> final(self).out() == old(self).out() + encode_utf8(
                render_event(Event::Success(name@)),
            ),
            out_extended_by_prefix(
                old(self).out(),
                final(self).out(),
                render_event(Event::Success(name@)),
            ),
    ;

    /// The named test failed.
    fn failed(&mut self, name: &str)
        ensures
            final(self).events() == old(self).events().push(Event::Failed(name@)),
            final(self).ok() ==> old(self).ok(),
            final(self).ok() ==> final(self).out() == old(self).out() + encode_utf8(
                render_event(Event::Failed(name@)),
            ),
            out_extended_by_prefix(
                old(self).out(),
                final(self).out(),
                render_event(Event::Failed(name@)),
            ),
    ;

    /// The run is over; the three tallies cover the whole table.
    fn summary(&mut self, passed: usize, failed: usize, ignored: usize)
        ensures
            final(self).events() == old(self).events().push(
                Event::Summary(passed as nat, failed as nat, ignored as nat),
            ),
            final(self).ok() ==> old(self).ok(),
            final(self).ok() ==> final(self).out() == old(self).out() + encode_utf8(
                render_event(Event::Summary(passed as nat, failed as nat, ignored as nat)),
            ),
            out_extended_by_prefix(
                old(self).out(),
                final(self).out(),
                render_event(Event::Summary(passed as nat, failed as nat, ignored as nat)),
            ),
    ;

    /// A test body signalled a panic: format its message and location.
    fn panic_fmt(&mut self, message: &str, file: &str, line: u32)
        ensures
            final(self).events() == old(self).events().push(
                Event::Panicked(message@, file@, line as nat),
            ),
            final(self).ok() ==> old(self).ok(),
            final(self).ok() ==> final(self).out() == old(self).out() + encode_utf8(
                render_event(Event::Panicked(message@, file@, line as nat)),
            ),
            out_extended_by_prefix(
                old(self).out(),
                final(self).out(),
                render_event(Event::Panicked(message@, file@, line as nat)),
            ),
    ;
}

/// A backend that emits the diagnostic text through a byte sink,
/// line by line as the hooks arrive.
pub struct ConsoleReport<S> {
    sink: S,
    all_written: bool,
    trace: Ghost<Seq<Event>>,
}

impl<S: RawSink> ConsoleReport<S> {
    /// Wrap a fresh sink. The sink must not have delivered anything yet,
    /// so that its contents are exactly this report's output.
    pub fn new(sink: S) -> (r: Self)
        requires
            sink.delivered() == Seq::<u8>::empty(),
        ensures
            r.events() == Seq::<Event>::empty(),
            r.out() == Seq::<u8>::empty(),
            r.ok(),
    {
        ConsoleReport { sink, all_written: true, trace: Ghost(Seq::empty()) }
    }

    /// Hand the sink back, with everything the report delivered in it.
    pub fn into_sink(self) -> (s: S)
        ensures
            s.delivered() == self.out(),
    {
        self.sink
    }

    /// Whether every line so far reached the channel whole.
    pub fn all_written(&self) -> (b: bool)
        ensures
            b == self.ok(),
    {
        self.all_written
    }

    /// Put one line of text on the sink, keeping the books.
    fn emit(&mut self, line: &str, ev: Ghost<Event>)
        requires
            line@ == render_event(ev@),
        ensures
            final(self).events() == old(self).events().push(ev@),
            final(self).ok() ==> old(self).ok(),
            final(self).ok() ==> final(self).out() == old(self).out() + encode_utf8(
                render_event(ev@),
            ),
            out_extended_by_prefix(old(self).out(), final(self).out(), render_event(ev@)),
    {
        let done = write_all(&mut self.sink, line.as_bytes());
        self.all_written = self.all_written && done;
        proof {
            self.trace@ = self.trace@.push(ev@);
            let text = encode_utf8(render_event(ev@));
            if done {
                assert(text.take(text.len() as int) =~= text);
                assert(self.sink.delivered() == old(self).sink.delivered() + text.take(
                    text.len() as int,
                ));
            }
        }
    }
}

impl<S: RawSink> Report for ConsoleReport<S> {
    closed spec fn events(&self) -> Seq<Event> {
        self.trace@
    }

    closed spec fn out(&self) -> Seq<u8> {
        self.sink.delivered()
    }

    closed spec fn ok(&self) -> bool {
        self.all_written
    }

    fn start(&mut self, count: usize) {
        let line = line_start(count);
        self.emit(line.as_str(), Ghost(Event::Start(count as nat)));
    }

    fn before_run(&mut self, name: &str) {
        let line = line_before_run(name);
        self.emit(line.as_str(), Ghost(Event::BeforeRun(name@)));
    }

    fn ignored(&mut self, name: &str) {
        let line = line_ignored(name);
        self.emit(line.as_str(), Ghost(Event::Ignored(name@)));
    }

    fn success(&mut self, name: &str) {
        let line = String::from_str("OK\n");
        self.emit(line.as_str(), Ghost(Event::Success(name@)));
    }

    fn failed(&mut self, name: &str) {
        let line = String::from_str("FAILED\n");
        self.emit(line.as_str(), Ghost(Event::Failed(name@)));
    }

    fn summary(&mut self, passed: usize, failed: usize, ignored: usize) {
        let line = line_summary(passed, failed, ignored);
        self.emit(
            line.as_str(),
            Ghost(Event::Summary(passed as nat, failed as nat, ignored as nat)),
        );
    }

    fn panic_fmt(&mut self, message: &str, file: &str, line: u32) {
        let text = line_panicked(message, file, line);
        self.emit(text.as_str(), Ghost(Event::Panicked(message@, file@, line as nat)));
    }
}

/// One recorded hook invocation, held as plain values so that callers
/// outside the proof can inspect a run's trace.
#[derive(PartialEq, Eq, Debug)]
pub enum RecEvent {
    Start(usize),
    BeforeRun(String),
    Ignored(String),
    Success(String),
    Failed(String),
    Summary(usize, usize, usize),
    Panicked(String, String, u32),
}

impl RecEvent {
    /// The ghost event this record stands for.
    pub open spec fn view(&self) -> Event {
        match self {
            RecEvent::Start(n) => Event::Start(*n as nat),
            RecEvent::BeforeRun(name) => Event::BeforeRun(name@),
            RecEvent::Ignored(name) => Event::Ignored(name@),
            RecEvent::Success(name) => Event::Success(name@),
            RecEvent::Failed(name) => Event::Failed(name@),
            RecEvent::Summary(p, f, i) => Event::Summary(*p as nat, *f as nat, *i as nat),
            RecEvent::Panicked(m, f, l) => Event::Panicked(m@, f@, *l as nat),
        }
    }
}

/// A backend that keeps the hook invocations as values instead of
/// emitting text; its channel cannot fail. Meant for examining what a
/// run did.
pub struct Recorder {
    log: Vec<RecEvent>,
}

impl Recorder {
    /// The recorded trace as ghost events.
    pub closed spec fn spec_log(&self) -> Seq<Event> {
        Seq::new(self.log@.len(), |i: int| self.log@[i].view())
    }

    /// An empty recorder.
    pub fn new() -> (r: Self)
        ensures
            r.events() == Seq::<Event>::empty(),
            r.ok(),
    {
        let r = Recorder { log: Vec::new() };
        proof {
            assert(r.spec_log() =~= Seq::<Event>::empty());
        }
        r
    }

    /// The recorded invocations, oldest first.
    pub fn log(&self) -> (log: &Vec<RecEvent>)
        ensures
            log@.len() == self.events().len(),
            forall|i: int| 0 <= i < log@.len() ==> log@[i].view() == self.events()[i],
    {
        &self.log
    }

    /// Append one record, keeping `events()` and `out()` in step.
    fn push(&mut self, rec: RecEvent)
        ensures
            final(self).events() == old(self).events().push(rec.view()),
            final(self).out() == old(self).out() + encode_utf8(render_event(rec.view())),
            out_extended_by_prefix(old(self).out(), final(self).out(), render_event(rec.view())),
    {
        let ghost ev = rec.view();
        self.log.push(rec);
        proof {
            assert(self.spec_log() =~= old(self).spec_log().push(ev));
            lemma_render_trace_push(old(self).spec_log(), ev);
            lemma_encode_utf8_add(render_trace(old(self).spec_log()), render_event(ev));
            let text = encode_utf8(render_event(ev));
            assert(text.take(text.len() as int) =~= text);
        }
    }
}

impl Report for Recorder {
    closed spec fn events(&self) -> Seq<Event> {
        self.spec_log()
    }

    closed spec fn out(&self) -> Seq<u8> {
        encode_utf8(render_trace(self.spec_log()))
    }

    closed spec fn ok(&self) -> bool {
        true
    }

    fn start(&mut self, count: usize) {
        self.push(RecEvent::Start(count));
    }

    fn before_run(&mut self, name: &str) {
        self.push(RecEvent::BeforeRun(String::from_str(name)));
    }

    fn ignored(&mut self, name: &str) {
        self.push(RecEvent::Ignored(String::from_str(name)));
    }

    fn success(&mut self, name: &str) {
        self.push(RecEvent::Success(String::from_str(name)));
    }

    fn failed(&mut self, name: &str) {
        self.push(RecEvent::Failed(String::from_str(name)));
    }

    fn summary(&mut self, passed: usize, failed: usize, ignored: usize) {
        self.push(RecEvent::Summary(passed, failed, ignored));
    }

    fn panic_fmt(&mut self, message: &str, file: &str, line: u32) {
        self.push(RecEvent::Panicked(String::from_str(message), String::from_str(file), line));
    }
}

} // verus!
