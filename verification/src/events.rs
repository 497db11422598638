//! The observable behaviour of a reporting backend: the sequence of hook
//! invocations it received, and the exact diagnostic text each one emits.
use vstd::prelude::*;
use vstd::utf8::encode_utf8;

verus! {

/// One hook invocation, as the run's specification records it.
pub ghost enum Event {
    /// `start(count)`: the run begins over `count` table entries.
    Start(nat),
    /// `before_run(name)`: the named test's body is about to run.
    BeforeRun(Seq<char>),
    /// `ignored(name)`: the named test was skipped.
    Ignored(Seq<char>),
    /// `success(name)`: the named test passed.
    Success(Seq<char>),
    /// `failed(name)`: the named test failed.
    Failed(Seq<char>),
    /// `summary(passed, failed, ignored)`: the final tallies.
    Summary(nat, nat, nat),
    /// The panic-formatting hook: message, file, line.
    Panicked(Seq<char>, Seq<char>, nat),
}

/// The character of a single decimal digit.
pub open spec fn digit_char(d: nat) -> char {
    if d == 0 {
        '0'
    } else if d == 1 {
        '1'
    } else if d == 2 {
        '2'
    } else if d == 3 {
        '3'
    } else if d == 4 {
        '4'
    } else if d == 5 {
        '5'
    } else if d == 6 {
        '6'
    } else if d == 7 {
        '7'
    } else if d == 8 {
        '8'
    } else {
        '9'
    }
}

/// The usual decimal rendering of `n`, most significant digit first, with
/// no leading zeroes (a single `'0'` for zero).
pub open spec fn dec(n: nat) -> Seq<char>
    decreases n,
{
    if n < 10 {
        seq![digit_char(n)]
    } else {
        dec(n / 10).push(digit_char(n % 10))
    }
}

/// The exact diagnostic text one hook invocation emits.
pub open spec fn render_event(ev: Event) -> Seq<char> {
    match ev {
        Event::Start(n) => "running "@ + dec(n) + " tests\n"@,
        Event::BeforeRun(name) => "test "@ + name + " ... "@,
        Event::Ignored(name) => "test "@ + name + " ... ignored\n"@,
        Event::Success(_) => "OK\n"@,
        Event::Failed(_) => "FAILED\n"@,
        Event::Summary(passed, failed, ignored) => "\ntest result: "@ + (
        if failed == 0 {
            "OK"@
        } else {
            "FAILED"@
        }) + ". "@ + dec(passed) + " passed; "@ + dec(failed) + " failed; "@ + dec(ignored)
            + " ignored\n"@,
        Event::Panicked(message, file, line) => "\npanicked at '"@ + message + "', "@ + file + ":"@
            + dec(line),
    }
}

/// The text a whole sequence of hook invocations emits, in order.
pub open spec fn render_trace(events: Seq<Event>) -> Seq<char>
    decreases events.len(),
{
    if events.len() == 0 {
        Seq::empty()
    } else {
        render_event(events[0]) + render_trace(events.drop_first())
    }
}

/// Appending one invocation appends exactly its text.
pub proof fn lemma_render_trace_push(events: Seq<Event>, ev: Event)
    ensures
        render_trace(events.push(ev)) == render_trace(events) + render_event(ev),
    decreases events.len(),
{
    if events.len() == 0 {
        assert(events.push(ev).drop_first() =~= Seq::<Event>::empty());
        assert(events.push(ev)[0] == ev);
        assert(render_trace(events.push(ev)) == render_event(ev) + render_trace(
            Seq::<Event>::empty(),
        ));
        assert(render_event(ev) + render_trace(Seq::<Event>::empty()) =~= render_event(ev));
        assert(render_trace(events) + render_event(ev) =~= render_event(ev));
    } else {
        assert(events.push(ev).drop_first() =~= events.drop_first().push(ev));
        assert(events.push(ev)[0] == events[0]);
        lemma_render_trace_push(events.drop_first(), ev);
        assert(render_trace(events.push(ev)) == render_event(events[0]) + (render_trace(
            events.drop_first(),
        ) + render_event(ev)));
        assert(render_event(events[0]) + (render_trace(events.drop_first()) + render_event(ev))
            =~= (render_event(events[0]) + render_trace(events.drop_first())) + render_event(ev));
    }
}

/// The traces of two runs laid end to end render as the two texts laid
/// end to end.
pub proof fn lemma_render_trace_add(a: Seq<Event>, b: Seq<Event>)
    ensures
        render_trace(a + b) == render_trace(a) + render_trace(b),
    decreases b.len(),
{
    if b.len() == 0 {
        assert(a + b =~= a);
        assert(render_trace(a) + render_trace(b) =~= render_trace(a));
    } else {
        let b0 = b.drop_last();
        lemma_render_trace_add(a, b0);
        lemma_render_trace_push(a + b0, b.last());
        lemma_render_trace_push(b0, b.last());
        assert((a + b0).push(b.last()) =~= a + b);
        assert(b0.push(b.last()) =~= b);
        assert(render_trace(a) + (render_trace(b0) + render_event(b.last())) =~= (render_trace(a)
            + render_trace(b0)) + render_event(b.last()));
    }
}

/// UTF-8 encoding distributes over concatenation.
pub proof fn lemma_encode_utf8_add(a: Seq<char>, b: Seq<char>)
    ensures
        encode_utf8(a + b) == encode_utf8(a) + encode_utf8(b),
    decreases a.len(),
{
    if a.len() == 0 {
        assert(a + b =~= b);
        assert(encode_utf8(a) =~= Seq::<u8>::empty());
        assert(encode_utf8(a) + encode_utf8(b) =~= encode_utf8(b));
    } else {
        assert((a + b).len() > 0);
        assert((a + b)[0] == a[0]);
        assert((a + b).drop_first() =~= a.drop_first() + b);
        lemma_encode_utf8_add(a.drop_first(), b);
        assert(vstd::utf8::encode_scalar(a[0] as u32) + (encode_utf8(a.drop_first()) + encode_utf8(
            b,
        )) =~= (vstd::utf8::encode_scalar(a[0] as u32) + encode_utf8(a.drop_first())) + encode_utf8(
            b,
        ));
    }
}

} // verus!
