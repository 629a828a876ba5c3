use vstd::prelude::*;
use vstd::utf8::encode_utf8;

use super::config::OnOverflow;

verus! {

pub const MIN_CHUNK_SIZE: usize = 131_072;

// We should consider the limit and newlines, but the first one can be too
// large and the number of newlines cannot be calculated before serialization.
// So, just multiply the chunk's size by some coef, that's a good assumption.
pub const INITIAL_CAPACITY: usize = MIN_CHUNK_SIZE * 3 / 2;

#[verifier::external_type_specification]
#[verifier::external_body]
pub struct ExJsonError(serde_json::Error);

/// Whether `serde_json::Error::is_io` holds of the error, that is whether it's
/// caused by a writer.
pub uninterp spec fn json_is_io(err: serde_json::Error) -> bool;

/// `serde_json::Error::is_io` depends on nothing but the error, which is opaque:
/// only the name is given to what it returns.
#[verifier::external_body]
fn json_error_is_io(err: &serde_json::Error) -> (res: bool)
    ensures
        res == json_is_io(*err),
{
    err.is_io()
}

/// Collects serialized dumps into chunks.
#[derive(Debug)]
pub struct DumpBuffer {
    buffer: Vec<u8>,
    max_dump_size: usize,
    need_to_clear: bool,
    /// Where the dump that is being written starts.
    start: usize,
    /// How many bytes the dump can take.
    limit: usize,
    /// How many bytes the dump can still take.
    remaining: usize,
}

/// A dump that is written.
#[derive(Debug, Clone, Copy, PartialEq, Eq, Structural)]
pub struct Appended {
    /// Whether the chunk is big enough and must be written somewhere.
    pub is_ready: bool,
    /// Whether the dump is incomplete.
    pub is_truncated: bool,
}

#[derive(Debug)]
pub enum AppendError {
    LimitExceeded(usize),
    SerializationFailed(serde_json::Error),
}

/// What incomplete dumps end with.
pub open spec fn truncation_mark() -> Seq<u8> {
    encode_utf8("TRUNCATED"@)
}

/// Why a dump isn't appended: a writer refuses only what exceeds the limit.
pub open spec fn failed(err: serde_json::Error, is_io: bool, limit: usize) -> AppendError {
    if is_io {
        AppendError::LimitExceeded(limit)
    } else {
        AppendError::SerializationFailed(err)
    }
}

impl DumpBuffer {
    pub closed spec fn spec_max_dump_size(&self) -> usize {
        self.max_dump_size
    }

    /// Dumps that aren't taken yet.
    pub closed spec fn stored(&self) -> Seq<u8> {
        if self.need_to_clear {
            Seq::empty()
        } else {
            self.buffer@.take(self.start as int)
        }
    }

    /// The part of the current dump that is already written.
    pub closed spec fn written(&self) -> Seq<u8> {
        if self.need_to_clear {
            Seq::empty()
        } else {
            self.buffer@.skip(self.start as int)
        }
    }

    /// How many bytes the current dump can take.
    pub closed spec fn spec_limit(&self) -> usize {
        self.limit
    }

    /// How many bytes the current dump can still take.
    pub closed spec fn spec_remaining(&self) -> usize {
        self.remaining
    }

    #[verifier::type_invariant]
    closed spec fn inv(&self) -> bool {
        &&& self.start <= self.buffer.len()
        &&& self.buffer.len() - self.start + self.remaining <= self.limit || self.need_to_clear
    }

    pub fn new(max_dump_size: usize) -> (this: DumpBuffer)
        ensures
            this.spec_max_dump_size() == max_dump_size,
            this.stored() == Seq::<u8>::empty(),
            this.written() == Seq::<u8>::empty(),
    {
        let this = DumpBuffer {
            buffer: Vec::with_capacity(INITIAL_CAPACITY),
            max_dump_size,
            need_to_clear: false,
            start: 0,
            limit: 0,
            remaining: 0,
        };
        assert(this.stored() =~= Seq::empty());
        assert(this.written() =~= Seq::empty());
        this
    }

    /// Changes the limit, all dumps must be already taken.
    pub fn configure(&mut self, max_dump_size: usize)
        requires
            old(self).stored().len() == 0,
            old(self).written().len() == 0,
        ensures
            final(self).spec_max_dump_size() == max_dump_size,
            final(self).stored().len() == 0,
            final(self).written().len() == 0,
    {
        if max_dump_size != self.max_dump_size {
            *self = DumpBuffer::new(max_dump_size);
        }
    }

    /// Starts writing of a dump.
    pub fn begin(&mut self)
        requires
            old(self).written().len() == 0,
        ensures
            final(self).is_begun(*old(self), old(self).spec_max_dump_size()),
    {
        let max_dump_size: usize = self.max_dump_size;
        self.begin_limited(max_dump_size);
    }

    /// Whether writing of a dump that can take `limit` bytes is just started.
    pub open spec fn is_begun(&self, before: DumpBuffer, limit: usize) -> bool {
        &&& self.is_writing()
        &&& self.spec_max_dump_size() == before.spec_max_dump_size()
        &&& self.stored() == before.stored()
        &&& self.written() == Seq::<u8>::empty()
        &&& self.spec_limit() == limit
        &&& self.spec_remaining() == limit
    }

    /// Starts writing of a dump that has its own limit.
    pub fn begin_limited(&mut self, limit: usize)
        requires
            old(self).written().len() == 0,
        ensures
            final(self).is_begun(*old(self), limit),
    {
        proof {
            use_type_invariant(&*self);
        }
        let need_to_clear = self.need_to_clear;
        let max_dump_size: usize = self.max_dump_size;
        let mut this = DumpBuffer::new(0);
        std::mem::swap(self, &mut this);
        let DumpBuffer { mut buffer, .. } = this;
        if need_to_clear {
            buffer.clear();
        }
        let start: usize = buffer.len();
        *self = DumpBuffer {
            buffer,
            max_dump_size,
            need_to_clear: false,
            start,
            limit,
            remaining: limit,
        };
        assert(self.stored() =~= old(self).stored());
        assert(self.written() =~= Seq::empty());
    }

    /// Writes a part of the dump, either as a whole or, if it exceeds the limit,
    /// not at all.
    pub fn write(&mut self, buf: &[u8]) -> (written: usize)
        requires
            old(self).is_writing(),
        ensures
            final(self).is_writing(),
            final(self).spec_max_dump_size() == old(self).spec_max_dump_size(),
            final(self).spec_limit() == old(self).spec_limit(),
            final(self).stored() == old(self).stored(),
            if buf@.len() <= old(self).spec_remaining() {
                &&& written == buf@.len()
                &&& final(self).written() == old(self).written() + buf@
                &&& final(self).spec_remaining() == old(self).spec_remaining() - buf@.len()
            } else {
                &&& written == 0
                &&& final(self).written() == old(self).written()
                &&& final(self).spec_remaining() == old(self).spec_remaining()
            },
    {
        proof {
            use_type_invariant(&*self);
        }
        if buf.len() > self.remaining {
            return 0;
        }

        let mut this = DumpBuffer::new(0);
        std::mem::swap(self, &mut this);
        let DumpBuffer { mut buffer, max_dump_size, need_to_clear, start, limit, remaining } =
            this;
        buffer.extend_from_slice(buf);
        *self = DumpBuffer {
            buffer,
            max_dump_size,
            need_to_clear,
            start,
            limit,
            remaining: remaining - buf.len(),
        };
        assert(self.stored() =~= old(self).stored());
        assert(self.written() =~= old(self).written() + buf@);
        buf.len()
    }

    /// Whether a dump can be written.
    pub closed spec fn is_writing(&self) -> bool {
        !self.need_to_clear
    }

    /// Ends writing of the dump. A dump that isn't written completely is
    /// dropped. Returns whether the chunk is big enough and must be written
    /// somewhere, see [`DumpBuffer::chunk`].
    pub fn append(&mut self, res: Result<(), serde_json::Error>) -> (ready: Result<
        bool,
        AppendError,
    >)
        requires
            old(self).is_writing(),
        ensures
            final(self).spec_max_dump_size() == old(self).spec_max_dump_size(),
            final(self).written() == Seq::<u8>::empty(),
            match res {
                Ok(_) => ready matches Ok(is_ready) && old(self).is_appended(
                    old(self).written(),
                    *final(self),
                    is_ready,
                ),
                Err(err) => {
                    &&& final(self).stored() == old(self).stored()
                    &&& ready == Err::<bool, AppendError>(
                        failed(err, json_is_io(err), old(self).spec_limit()),
                    )
                },
            },
    {
        match self.append_or_truncate(res, OnOverflow::Skip) {
            Ok(appended) => Ok(appended.is_ready),
            Err(err) => Err(err),
        }
    }

    /// Whether `next` has one more dump.
    pub open spec fn is_appended(&self, dump: Seq<u8>, next: DumpBuffer, is_ready: bool) -> bool {
        let chunk = self.stored() + dump + seq![10u8];
        &&& is_ready == (chunk.len() > MIN_CHUNK_SIZE - 1)
        &&& if is_ready {
            &&& next.stored() == Seq::<u8>::empty()
            &&& next.spec_chunk() == chunk
        } else {
            next.stored() == chunk
        }
    }

    /// The chunk that has been taken.
    pub closed spec fn spec_chunk(&self) -> Seq<u8> {
        self.buffer@
    }

    /// What becomes of the dump. `failure` is an error and whether it's caused by
    /// the limit.
    pub open spec fn is_finished(
        &self,
        failure: Option<(serde_json::Error, bool)>,
        on_overflow: OnOverflow,
        next: DumpBuffer,
        res: Result<Appended, AppendError>,
    ) -> bool {
        match failure {
            None => {
                &&& res matches Ok(appended)
                &&& !appended.is_truncated
                &&& self.is_appended(self.written(), next, appended.is_ready)
            },
            Some((err, is_io)) => if is_io && on_overflow is Truncate {
                &&& res matches Ok(appended)
                &&& appended.is_truncated
                &&& self.is_appended(self.written() + truncation_mark(), next, appended.is_ready)
            } else {
                &&& res == Err::<Appended, AppendError>(failed(err, is_io, self.spec_limit()))
                &&& next.stored() == self.stored()
            },
        }
    }

    /// Ends writing of the dump. If it exceeds the limit, it's either dropped or
    /// left incomplete with the mark at its end.
    pub fn append_or_truncate(
        &mut self,
        res: Result<(), serde_json::Error>,
        on_overflow: OnOverflow,
    ) -> (appended: Result<Appended, AppendError>)
        requires
            old(self).is_writing(),
        ensures
            final(self).spec_max_dump_size() == old(self).spec_max_dump_size(),
            final(self).written() == Seq::<u8>::empty(),
            old(self).is_finished(
                match res {
                    Ok(_) => None,
                    Err(err) => Some((err, json_is_io(err))),
                },
                on_overflow,
                *final(self),
                appended,
            ),
    {
        match res {
            Ok(_) => self.finish(None, on_overflow),
            Err(err) => {
                let is_io = json_error_is_io(&err);
                self.finish(Some((err, is_io)), on_overflow)
            },
        }
    }

    /// Ends writing of the dump. `failure` is an error and whether it's caused
    /// by the limit.
    pub fn finish(
        &mut self,
        failure: Option<(serde_json::Error, bool)>,
        on_overflow: OnOverflow,
    ) -> (res: Result<Appended, AppendError>)
        requires
            old(self).is_writing(),
        ensures
            final(self).spec_max_dump_size() == old(self).spec_max_dump_size(),
            final(self).written() == Seq::<u8>::empty(),
            old(self).is_finished(failure, on_overflow, *final(self), res),
    {
        proof {
            use_type_invariant(&*self);
        }
        let mut this = DumpBuffer::new(0);
        std::mem::swap(self, &mut this);
        let DumpBuffer { mut buffer, max_dump_size, start, limit, .. } = this;
        let mut is_truncated = false;

        if let Some((err, is_io)) = failure {
            if is_io && matches!(on_overflow, OnOverflow::Truncate) {
                buffer.extend_from_slice("TRUNCATED".as_bytes());
                is_truncated = true;
            } else {
                buffer.truncate(start);
                *self = DumpBuffer {
                    buffer,
                    max_dump_size,
                    need_to_clear: false,
                    start,
                    limit,
                    remaining: 0,
                };
                assert(self.stored() =~= old(self).stored());
                assert(self.written() =~= Seq::empty());
                return Err(
                    if is_io {
                        AppendError::LimitExceeded(limit)
                    } else {
                        AppendError::SerializationFailed(err)
                    },
                );
            }
        }

        buffer.push(10);
        let len: usize = buffer.len();
        *self = DumpBuffer {
            buffer,
            max_dump_size,
            need_to_clear: false,
            start: len,
            limit,
            remaining: 0,
        };
        assert(!is_truncated ==> self.stored() =~= old(self).stored() + old(self).written()
            + seq![10u8]);
        assert(is_truncated ==> self.stored() =~= old(self).stored() + (old(self).written()
            + truncation_mark()) + seq![10u8]);
        assert(self.written() =~= Seq::empty());
        let is_ready = self.take_if_limit_exceeded(MIN_CHUNK_SIZE - 1);
        Ok(Appended { is_ready, is_truncated })
    }

    /// Takes all dumps that are stored. Returns whether there are ones, see
    /// [`DumpBuffer::chunk`].
    pub fn take(&mut self) -> (ready: bool)
        requires
            old(self).written().len() == 0,
        ensures
            final(self).spec_max_dump_size() == old(self).spec_max_dump_size(),
            final(self).stored() == Seq::<u8>::empty(),
            final(self).written() == Seq::<u8>::empty(),
            ready == (old(self).stored().len() > 0),
            ready ==> final(self).spec_chunk() == old(self).stored(),
    {
        self.begin();
        proof {
            use_type_invariant(&*self);
        }
        self.take_if_limit_exceeded(0)
    }

    /// The chunk that has been taken by the last call.
    pub fn chunk(&self) -> (chunk: &[u8])
        ensures
            chunk@ == self.spec_chunk(),
    {
        self.buffer.as_slice()
    }

    fn take_if_limit_exceeded(&mut self, limit: usize) -> (ready: bool)
        requires
            old(self).is_writing(),
            old(self).written().len() == 0,
        ensures
            final(self).spec_max_dump_size() == old(self).spec_max_dump_size(),
            final(self).written() == Seq::<u8>::empty(),
            ready == (old(self).stored().len() > limit),
            if ready {
                &&& final(self).stored() == Seq::<u8>::empty()
                &&& final(self).spec_chunk() == old(self).stored()
            } else {
                &&& final(self).stored() == old(self).stored()
            },
    {
        proof {
            use_type_invariant(&*self);
        }
        assert(self.buffer@ =~= self.stored());
        if self.buffer.len() > limit {
            self.need_to_clear = true;
            true
        } else {
            assert(self.written() =~= Seq::empty());
            false
        }
    }
}

// === Laws ===

/// Dumps, every one on its own line.
pub open spec fn lines(dumps: Seq<Seq<u8>>) -> Seq<u8>
    decreases dumps.len(),
{
    if dumps.len() == 0 {
        Seq::empty()
    } else {
        lines(dumps.drop_last()) + dumps.last() + seq![10u8]
    }
}

/// Chunks are made of dumps, every one on its own line: an appended dump is one
/// more line.
pub proof fn every_dump_is_line(
    dumps: Seq<Seq<u8>>,
    dump: Seq<u8>,
    before: DumpBuffer,
    after: DumpBuffer,
    is_ready: bool,
)
    requires
        before.stored() == lines(dumps),
        before.is_appended(dump, after, is_ready),
    ensures
        is_ready ==> after.spec_chunk() == lines(dumps.push(dump)),
        !is_ready ==> after.stored() == lines(dumps.push(dump)),
{
    assert(dumps.push(dump).drop_last() =~= dumps);
}

/// A dump that exceeds the limit leaves a trace iff incomplete dumps are wanted:
/// a line that ends with the mark.
pub proof fn too_big_dump_is_marked(
    dumps: Seq<Seq<u8>>,
    err: serde_json::Error,
    on_overflow: OnOverflow,
    before: DumpBuffer,
    after: DumpBuffer,
    res: Result<Appended, AppendError>,
)
    requires
        before.stored() == lines(dumps),
        before.is_finished(Some((err, true)), on_overflow, after, res),
    ensures
        on_overflow is Skip ==> res == Err::<Appended, AppendError>(
            AppendError::LimitExceeded(before.spec_limit()),
        ) && after.stored() == lines(dumps),
        on_overflow is Truncate ==> (res matches Ok(appended) && appended.is_truncated && (if appended.is_ready {
            after.spec_chunk()
        } else {
            after.stored()
        }) == lines(dumps.push(before.written() + truncation_mark()))),
{
    if on_overflow is Truncate {
        let dump = before.written() + truncation_mark();
        every_dump_is_line(dumps, dump, before, after, res->Ok_0.is_ready);
    }
}

/// A dump becomes one more line at the end of what has been stored. Once there are at
/// least 128 KiB, everything is given away, otherwise it stays until it's taken.
pub proof fn appended_dump_is_last_line(
    untouched: &mut DumpBuffer,
    begun: &mut DumpBuffer,
    writing: &mut DumpBuffer,
    appended: &mut DumpBuffer,
    taken: &mut DumpBuffer,
    buf: &[u8],
    was_ready: bool,
    chunk_before: &[u8],
    written: usize,
    ready: Result<bool, AppendError>,
    is_taken: bool,
    chunk_ready: &[u8],
    chunk_taken: &[u8],
)
    requires
        old(untouched).written().len() == 0,
        call_ensures(DumpBuffer::take, (untouched,), was_ready),
        call_ensures(DumpBuffer::chunk, (final(untouched),), chunk_before),
        *old(begun) == *old(untouched),
        call_ensures(DumpBuffer::begin_limited, (begun, buf@.len() as usize), ()),
        buf@.len() <= usize::MAX,
        *old(writing) == *final(begun),
        call_ensures(DumpBuffer::write, (writing, buf), written),
        *old(appended) == *final(writing),
        call_ensures(DumpBuffer::append, (appended, Ok(())), ready),
        call_ensures(DumpBuffer::chunk, (final(appended),), chunk_ready),
        *old(taken) == *final(appended),
        call_ensures(DumpBuffer::take, (taken,), is_taken),
        call_ensures(DumpBuffer::chunk, (final(taken),), chunk_taken),
    ensures
        written == buf@.len(),
        ready is Ok,
        ({
            let before = if was_ready {
                chunk_before@
            } else {
                Seq::empty()
            };
            let after = before + buf@ + seq![10u8];
            &&& ready->Ok_0 <==> after.len() >= 128 * 1024
            &&& ready->Ok_0 ==> chunk_ready@ == after && !is_taken
            &&& !ready->Ok_0 ==> chunk_taken@ == after && is_taken
        }),
{
    let dump = buf@;
    assert(final(writing).written() =~= dump);
    if !was_ready {
        assert(old(untouched).stored() =~= Seq::empty());
    }
}

/// A new buffer has nothing to give away, and everything is given away only once.
pub proof fn nothing_is_taken_twice(
    max_dump_size: usize,
    buffer: &mut DumpBuffer,
    again: &mut DumpBuffer,
    fresh: &mut DumpBuffer,
    first: bool,
    second: bool,
    third: bool,
)
    requires
        call_ensures(DumpBuffer::new, (max_dump_size,), *old(fresh)),
        call_ensures(DumpBuffer::take, (fresh,), first),
        call_ensures(DumpBuffer::take, (buffer,), second),
        *old(again) == *final(buffer),
        call_ensures(DumpBuffer::take, (again,), third),
    ensures
        !first,
        !third,
{
}

/// A dump consists of parts, which are written only while they fit into the limit
/// together: the one of the dump, or the configured one.
pub proof fn parts_fit_into_limit(
    max_dump_size: usize,
    limit: usize,
    configured: &mut DumpBuffer,
    by_default: &mut DumpBuffer,
    begun: &mut DumpBuffer,
    first: &mut DumpBuffer,
    second: &mut DumpBuffer,
    a: &[u8],
    b: &[u8],
    x: usize,
    y: usize,
)
    requires
        call_ensures(DumpBuffer::configure, (configured, max_dump_size), ()),
        *old(by_default) == *final(configured) || call_ensures(
            DumpBuffer::new,
            (max_dump_size,),
            *old(by_default),
        ),
        call_ensures(DumpBuffer::begin, (by_default,), ()),
        call_ensures(DumpBuffer::begin_limited, (begun, limit), ()),
        *old(first) == *final(begun) || limit == max_dump_size && *old(first) == *final(by_default),
        call_ensures(DumpBuffer::write, (first, a), x),
        *old(second) == *final(first),
        call_ensures(DumpBuffer::write, (second, b), y),
    ensures
        x == (if a@.len() <= limit {
            a@.len()
        } else {
            0
        }),
        y == (if x + b@.len() <= limit {
            b@.len()
        } else {
            0
        }),
        final(first).written() == a@.take(x as int),
        final(second).written() == a@.take(x as int) + b@.take(y as int),
{
    assert(final(first).written() =~= a@.take(x as int));
    assert(final(second).written() =~= a@.take(x as int) + b@.take(y as int));
}

/// What becomes of a dump that isn't written in full. A dump that is too big is
/// truncated if it's wanted, any other one leaves no trace.
pub proof fn failed_dumps_are_dropped_or_truncated(
    untouched: &mut DumpBuffer,
    begun: &mut DumpBuffer,
    writing: &mut DumpBuffer,
    finished: &mut DumpBuffer,
    taken: &mut DumpBuffer,
    limit: usize,
    buf: &[u8],
    written: usize,
    err: serde_json::Error,
    is_io: bool,
    on_overflow: OnOverflow,
    was_ready: bool,
    chunk_before: &[u8],
    res: Result<Appended, AppendError>,
    is_taken: bool,
    chunk_ready: &[u8],
    chunk_taken: &[u8],
)
    requires
        old(untouched).written().len() == 0,
        call_ensures(DumpBuffer::take, (untouched,), was_ready),
        call_ensures(DumpBuffer::chunk, (final(untouched),), chunk_before),
        *old(begun) == *old(untouched),
        call_ensures(DumpBuffer::begin_limited, (begun, limit), ()),
        buf@.len() <= limit,
        *old(writing) == *final(begun),
        call_ensures(DumpBuffer::write, (writing, buf), written),
        *old(finished) == *final(writing),
        call_ensures(DumpBuffer::finish, (finished, Some((err, is_io)), on_overflow), res) || (is_io
            == json_is_io(err) && call_ensures(
            DumpBuffer::append_or_truncate,
            (finished, Err(err), on_overflow),
            res,
        )),
        call_ensures(DumpBuffer::chunk, (final(finished),), chunk_ready),
        *old(taken) == *final(finished),
        call_ensures(DumpBuffer::take, (taken,), is_taken),
        call_ensures(DumpBuffer::chunk, (final(taken),), chunk_taken),
    ensures
        ({
            let before = if was_ready {
                chunk_before@
            } else {
                Seq::empty()
            };
            let after = before + buf@ + encode_utf8("TRUNCATED"@) + seq![10u8];
            if is_io && on_overflow == OnOverflow::Truncate {
                &&& res is Ok && res->Ok_0.is_truncated
                &&& res->Ok_0.is_ready <==> after.len() >= 128 * 1024
                &&& res->Ok_0.is_ready ==> chunk_ready@ == after
                &&& !res->Ok_0.is_ready ==> is_taken && chunk_taken@ == after
            } else {
                &&& is_io ==> res == Err::<Appended, AppendError>(
                    AppendError::LimitExceeded(limit),
                )
                &&& !is_io ==> res == Err::<Appended, AppendError>(
                    AppendError::SerializationFailed(err),
                )
                &&& is_taken == was_ready
                &&& was_ready ==> chunk_taken@ == before
            }
        }),
{
    assert(final(writing).written() =~= buf@);
    let before = old(untouched).stored();
    if !was_ready {
        assert(before =~= Seq::empty());
    }
    assert(before + (buf@ + truncation_mark()) + seq![10u8] =~= before + buf@ + encode_utf8(
        "TRUNCATED"@,
    ) + seq![10u8]);
}

/// A dump that is written in full is never marked as truncated, and without
/// truncation everything is the same as if too big dumps are skipped.
pub proof fn ways_to_append_agree(
    a: &mut DumpBuffer,
    b: &mut DumpBuffer,
    c: &mut DumpBuffer,
    res: Result<(), serde_json::Error>,
    on_overflow: OnOverflow,
    x: Result<bool, AppendError>,
    y: Result<Appended, AppendError>,
    z: Result<Appended, AppendError>,
)
    requires
        *old(a) == *old(b) && *old(b) == *old(c),
        call_ensures(DumpBuffer::append, (a, res), x),
        call_ensures(DumpBuffer::append_or_truncate, (b, res, OnOverflow::Skip), y),
        call_ensures(DumpBuffer::append_or_truncate, (c, res, on_overflow), z),
    ensures
        x is Ok <==> res is Ok,
        y is Ok <==> res is Ok,
        x is Ok ==> x->Ok_0 == y->Ok_0.is_ready && !y->Ok_0.is_truncated,
        x is Err ==> x->Err_0 == y->Err_0,
        res is Ok ==> z == y,
        final(a).stored() == final(b).stored(),
{
}

/// Once stored dumps are taken, nothing is stored, and nothing is being written.
pub proof fn taken_buffer_is_empty(buffer: &mut DumpBuffer, again: &mut DumpBuffer, a: bool, b: bool)
    requires
        call_ensures(DumpBuffer::take, (buffer,), a),
        *old(again) == *final(buffer),
        call_ensures(DumpBuffer::take, (again,), b),
    ensures
        a <==> old(buffer).stored().len() > 0,
        final(buffer).stored().len() == 0 && final(buffer).written().len() == 0,
        final(buffer).spec_max_dump_size() == old(buffer).spec_max_dump_size(),
        !b,
{
}

/// Once a dump is finished, nothing is being written, whatever the result is.
pub proof fn finished_dump_is_not_written(
    a: &mut DumpBuffer,
    b: &mut DumpBuffer,
    res: Result<(), serde_json::Error>,
    on_overflow: OnOverflow,
    x: Result<bool, AppendError>,
    y: Result<Appended, AppendError>,
)
    requires
        call_ensures(DumpBuffer::append, (a, res), x),
        call_ensures(DumpBuffer::append_or_truncate, (b, res, on_overflow), y),
    ensures
        final(a).written().len() == 0 && final(b).written().len() == 0,
        final(a).spec_max_dump_size() == old(a).spec_max_dump_size(),
        final(b).spec_max_dump_size() == old(b).spec_max_dump_size(),
{
}

} // verus!
