//! The byte sink: a primitive that may accept only a prefix of each
//! buffer, and the retry loop that pushes a whole buffer through it.
use std::io::Write;
use vstd::prelude::*;
use vstd::string::StringSliceAdditionalSpecFns;

verus! {

/// A transfer primitive towards the host. One call hands over one
/// contiguous byte range; the primitive may accept only a prefix of it.
/// `delivered()` is everything it has accepted so far, in order.
pub trait RawSink {
    /// All bytes the primitive has accepted, oldest first.
    spec fn delivered(&self) -> Seq<u8>;

    /// One transfer attempt. `Some(k)` accepts exactly the first `k`
    /// bytes of `buf`; `None` reports an unrecoverable error and accepts
    /// nothing.
    fn write(&mut self, buf: &[u8]) -> (r: Option<usize>)
        ensures
            match r {
                Some(k) => k <= buf@.len() && final(self).delivered() == old(self).delivered()
                    + buf@.take(k as int),
                None => final(self).delivered() == old(self).delivered(),
            },
    ;
}

/// Transfer the whole of `buf`, retrying while the primitive accepts
/// partial prefixes. `true` means every byte was delivered, in order.
/// On an unrecoverable error — the primitive refuses, or stops accepting
/// bytes altogether — the rest of the buffer is silently dropped: the
/// diagnostic channel must never itself bring the harness down.
pub fn write_all<S: RawSink>(sink: &mut S, buf: &[u8]) -> (done: bool)
    ensures
        done ==> final(sink).delivered() == old(sink).delivered() + buf@,
        !done ==> exists|k: int|
            0 <= k < buf@.len() && final(sink).delivered() == old(sink).delivered() + buf@.take(k),
{
    let mut pos: usize = 0;
    while pos < buf.len()
        invariant
            pos <= buf@.len(),
            sink.delivered() == old(sink).delivered() + buf@.take(pos as int),
        decreases buf@.len() - pos,
    {
        let rest = vstd::slice::slice_subrange(buf, pos, buf.len());
        match sink.write(rest) {
            Some(k) => {
                if k == 0 {
                    // The primitive accepts nothing any more; treat the
                    // channel as closed and drop the rest.
                    proof {
                        assert(sink.delivered() == old(sink).delivered() + buf@.take(pos as int));
                    }
                    return false;
                }
                proof {
                    assert(buf@.take(pos as int) + rest@.take(k as int) =~= buf@.take(
                        pos as int + k as int,
                    ));
                }
                pos = pos + k;
            },
            None => {
                return false;
            },
        }
    }
    proof {
        assert(buf@.take(pos as int) =~= buf@);
    }
    true
}

/// Transfer a string's UTF-8 bytes through the sink; on failure a prefix
/// may have been delivered and the rest is dropped.
pub fn write_str<S: RawSink>(sink: &mut S, string: &str) -> (done: bool)
    ensures
        done ==> final(sink).delivered() == old(sink).delivered() + string.spec_bytes(),
        !done ==> exists|k: int|
            0 <= k < string.spec_bytes().len() && final(sink).delivered() == old(
                sink,
            ).delivered() + string.spec_bytes().take(k),
{
    write_all(sink, string.as_bytes())
}

/// How many bytes one transfer accepts from a buffer of `len` bytes
/// when at most `cap` are taken per call: the whole buffer, or `cap`.
pub open spec fn chunk_len(cap: usize, len: nat) -> nat {
    if len < cap as nat {
        len
    } else {
        cap as nat
    }
}

/// How many transfer attempts a buffer of `len` bytes takes at `cap`
/// bytes per call: the count of `chunk_len`-sized steps to empty.
pub open spec fn transfer_attempts(len: nat, cap: usize) -> nat
    recommends
        cap >= 1,
    decreases len,
{
    if cap == 0 || len == 0 {
        0
    } else if len <= cap as nat {
        1
    } else {
        1 + transfer_attempts((len - cap as nat) as nat, cap)
    }
}

/// An in-memory sink that accepts at most `cap` bytes per call, keeping
/// everything it accepted. With a total `limit`, it refuses outright
/// once `limit` bytes are held — an unrecoverable error, as a closed
/// channel would report one.
pub struct BufferSink {
    data: Vec<u8>,
    cap: usize,
    limit: Option<usize>,
    calls: u64,
}

impl BufferSink {
    /// The most bytes one transfer accepts.
    pub closed spec fn spec_cap(&self) -> usize {
        self.cap
    }

    /// The refusal threshold, if the sink was given one.
    pub closed spec fn spec_limit(&self) -> Option<usize> {
        self.limit
    }

    /// A sink accepting at most `cap` bytes per call and any total.
    pub fn new(cap: usize) -> (s: Self)
        requires
            cap >= 1,
        ensures
            s.delivered() == Seq::<u8>::empty(),
            s.spec_calls() == 0,
            s.spec_cap() == cap,
            s.spec_limit() is None,
    {
        BufferSink { data: Vec::new(), cap, limit: None, calls: 0 }
    }

    /// A sink that also refuses every transfer once it holds `limit`
    /// bytes.
    pub fn with_limit(cap: usize, limit: usize) -> (s: Self)
        requires
            cap >= 1,
        ensures
            s.delivered() == Seq::<u8>::empty(),
            s.spec_calls() == 0,
            s.spec_cap() == cap,
            s.spec_limit() == Some(limit),
    {
        BufferSink { data: Vec::new(), cap, limit: Some(limit), calls: 0 }
    }

    /// Read access to everything accepted so far.
    pub fn bytes(&self) -> (b: &Vec<u8>)
        ensures
            b@ == self.delivered(),
    {
        &self.data
    }

    /// The retry loop against this sink in particular, where
    /// completeness can be promised: without a refusal limit every
    /// attempt accepts `chunk_len` bytes, the whole buffer arrives, and
    /// exactly `transfer_attempts(buf.len(), cap)` attempts are made.
    pub fn write_all(&mut self, buf: &[u8]) -> (done: bool)
        requires
            old(self).spec_cap() >= 1,
        ensures
            final(self).spec_cap() == old(self).spec_cap(),
            final(self).spec_limit() == old(self).spec_limit(),
            done ==> final(self).delivered() == old(self).delivered() + buf@,
            !done ==> exists|k: int|
                0 <= k < buf@.len() && final(self).delivered() == old(self).delivered()
                    + buf@.take(k),
            old(self).spec_limit() is None ==> done,
            old(self).spec_limit() is None && old(self).spec_calls() + transfer_attempts(
                buf@.len(),
                old(self).spec_cap(),
            ) <= u64::MAX ==> final(self).spec_calls() == old(self).spec_calls()
                + transfer_attempts(buf@.len(), old(self).spec_cap()),
    {
        let ghost needed = transfer_attempts(buf@.len(), old(self).spec_cap());
        let mut pos: usize = 0;
        let ghost mut attempts: nat = 0;
        while pos < buf.len()
            invariant
                pos <= buf@.len(),
                self.spec_cap() == old(self).spec_cap(),
                self.spec_cap() >= 1,
                self.spec_limit() == old(self).spec_limit(),
                self.delivered() == old(self).delivered() + buf@.take(pos as int),
                needed == transfer_attempts(buf@.len(), old(self).spec_cap()),
                attempts + transfer_attempts((buf@.len() - pos) as nat, self.spec_cap())
                    == needed,
                old(self).spec_limit() is None && old(self).spec_calls() + needed <= u64::MAX
                    ==> self.spec_calls() == old(self).spec_calls() + attempts,
            decreases buf@.len() - pos,
        {
            let ghost remaining = (buf@.len() - pos) as nat;
            proof {
                assert(transfer_attempts(remaining, self.spec_cap()) >= 1);
            }
            let rest = vstd::slice::slice_subrange(buf, pos, buf.len());
            match self.write(rest) {
                Some(k) => {
                    proof {
                        assert(k as nat == chunk_len(self.spec_cap(), remaining));
                        assert(buf@.take(pos as int) + rest@.take(k as int) =~= buf@.take(
                            pos as int + k as int,
                        ));
                        attempts = attempts + 1;
                    }
                    pos = pos + k;
                },
                None => {
                    return false;
                },
            }
        }
        proof {
            assert(buf@.take(pos as int) =~= buf@);
        }
        true
    }

    /// How many transfer attempts were made against this sink.
    pub fn call_count(&self) -> (n: u64)
        ensures
            n == self.spec_calls(),
    {
        self.calls
    }

    /// The number of transfer attempts; counting stops at u64::MAX.
    pub closed spec fn spec_calls(&self) -> u64 {
        self.calls
    }
}

impl RawSink for BufferSink {
    closed spec fn delivered(&self) -> Seq<u8> {
        self.data@
    }

    fn write(&mut self, buf: &[u8]) -> (r: Option<usize>)
        ensures
            old(self).spec_calls() < u64::MAX ==> final(self).spec_calls() == old(
                self,
            ).spec_calls() + 1,
            final(self).spec_cap() == old(self).spec_cap(),
            final(self).spec_limit() == old(self).spec_limit(),
            (r is None) <==> (old(self).spec_limit() matches Some(l) && old(
                self,
            ).delivered().len() >= l as nat),
            r matches Some(k) ==> k as nat == chunk_len(old(self).spec_cap(), buf@.len()),
    {
        if self.calls < u64::MAX {
            self.calls = self.calls + 1;
        }
        if let Some(limit) = self.limit {
            if self.data.len() >= limit {
                return None;
            }
        }
        let k = if buf.len() < self.cap {
            buf.len()
        } else {
            self.cap
        };
        let mut i: usize = 0;
        while i < k
            invariant
                i <= k,
                k <= buf@.len(),
                self.data@ == old(self).data@ + buf@.take(i as int),
                self.cap == old(self).cap,
                self.limit == old(self).limit,
                old(self).calls < u64::MAX ==> self.calls == old(self).calls + 1,
                old(self).calls == u64::MAX ==> self.calls == old(self).calls,
            decreases k - i,
        {
            proof {
                assert(buf@.take(i as int).push(buf@[i as int]) =~= buf@.take(i as int + 1));
            }
            self.data.push(buf[i]);
            i = i + 1;
        }
        Some(k)
    }
}

/// Declares std::io::Stderr as an opaque outside type, so that a handle
/// to the stream can sit in a field and be passed to the write wrapper.
#[verifier::external_type_specification]
#[verifier::external_body]
pub struct ExStderr(std::io::Stderr);

/// Relies on std::io::stderr: hands out a handle to the process's
/// standard error stream.
#[verifier::external_body]
fn stderr_handle() -> std::io::Stderr {
    std::io::stderr()
}

/// Relies on std::io::Write::write for std::io::Stderr: a result of
/// Ok(n) means exactly the first n bytes of the buffer were consumed,
/// and n never exceeds the buffer's length. An Err consumes nothing.
#[verifier::external_body]
fn stderr_write(out: &mut std::io::Stderr, buf: &[u8]) -> (r: Option<usize>)
    ensures
        r matches Some(k) ==> k <= buf@.len(),
{
    match out.write(buf) {
        Ok(n) => Some(n),
        Err(_) => None,
    }
}

/// The conventional diagnostic channel: the standard error stream,
/// descriptor 2. `delivered()` models the bytes the stream has consumed.
pub struct StderrSink {
    out: std::io::Stderr,
    log: Ghost<Seq<u8>>,
}

impl StderrSink {
    /// A sink over this process's standard error stream.
    pub fn new() -> (s: Self)
        ensures
            s.delivered() == Seq::<u8>::empty(),
    {
        StderrSink { out: stderr_handle(), log: Ghost(Seq::empty()) }
    }
}

impl RawSink for StderrSink {
    closed spec fn delivered(&self) -> Seq<u8> {
        self.log@
    }

    fn write(&mut self, buf: &[u8]) -> Option<usize> {
        let r = stderr_write(&mut self.out, buf);
        match r {
            Some(k) => {
                proof {
                    self.log@ = self.log@ + buf@.take(k as int);
                }
                Some(k)
            },
            None => None,
        }
    }
}

} // verus!
