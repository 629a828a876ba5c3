use vstd::prelude::*;

verus! {

/// Limits how many bytes can be written.
#[derive(Debug, Clone, Copy)]
pub struct LimitedWrite {
    pub remaining: usize,
}

impl LimitedWrite {
    pub fn new(limit: usize) -> (this: LimitedWrite)
        ensures
            this.remaining == limit,
    {
        LimitedWrite { remaining: limit }
    }

    /// Writes the whole buffer or, if it exceeds the limit, nothing. In the
    /// latter case only empty buffers can be written further.
    pub fn write(&mut self, out: &mut Vec<u8>, buf: &[u8]) -> (written: usize)
        ensures
            buf@.len() <= old(self).remaining ==> {
                &&& written == buf@.len()
                &&& final(self).remaining == old(self).remaining - buf@.len()
                &&& final(out)@ == old(out)@ + buf@
            },
            buf@.len() > old(self).remaining ==> {
                &&& written == 0
                &&& final(self).remaining == 0
                &&& final(out)@ == old(out)@
            },
    {
        if buf.len() > self.remaining {
            self.remaining = 0;
            return 0;
        }

        self.remaining = self.remaining - buf.len();
        out.extend_from_slice(buf);
        buf.len()
    }
}

/// The content of the output after writing `bufs` in order.
pub open spec fn written(limit: int, out: Seq<u8>, bufs: Seq<Seq<u8>>) -> (int, Seq<u8>)
    decreases bufs.len(),
{
    if bufs.len() == 0 {
        (limit, out)
    } else {
        let (remaining, out) = written(limit, out, bufs.drop_last());
        if bufs.last().len() <= remaining {
            (remaining - bufs.last().len(), out + bufs.last())
        } else {
            (0, out)
        }
    }
}

/// All buffers one after another.
pub open spec fn joined(bufs: Seq<Seq<u8>>) -> Seq<u8>
    decreases bufs.len(),
{
    if bufs.len() == 0 {
        Seq::empty()
    } else {
        joined(bufs.drop_last()) + bufs.last()
    }
}

/// Nothing is written once nothing is left.
pub proof fn nothing_fits_after_limit(limit: int, out: Seq<u8>, bufs: Seq<Seq<u8>>, i: int)
    requires
        0 <= i <= bufs.len(),
        written(limit, out, bufs.take(i)).0 == 0,
    ensures
        written(limit, out, bufs) == written(limit, out, bufs.take(i)),
    decreases bufs.len(),
{
    if i == bufs.len() {
        assert(bufs.take(i) =~= bufs);
    } else {
        assert(bufs.drop_last().take(i) =~= bufs.take(i));
        nothing_fits_after_limit(limit, out, bufs.drop_last(), i);
        let (_, prev) = written(limit, out, bufs.drop_last());
        if bufs.last().len() == 0 {
            assert(prev + bufs.last() =~= prev);
        }
    }
}

/// Either all buffers fit and are written one after another, or only some of
/// them are written.
pub proof fn all_or_part_is_written(limit: nat, out: Seq<u8>, bufs: Seq<Seq<u8>>)
    ensures
        joined(bufs).len() <= limit ==> written(limit as int, out, bufs) == (
            limit - joined(bufs).len(),
            out + joined(bufs),
        ),
        joined(bufs).len() > limit ==> written(limit as int, out, bufs).1.len() < out.len()
            + joined(bufs).len(),
    decreases bufs.len(),
{
    if bufs.len() > 0 {
        all_or_part_is_written(limit, out, bufs.drop_last());
        assert(out + joined(bufs.drop_last()) + bufs.last() =~= out + joined(bufs));
        limit_is_never_exceeded(limit, out, bufs);
    } else {
        assert(out + joined(bufs) =~= out);
    }
}

/// Whatever is written, the limit is never exceeded, and what has been there
/// before stays.
pub proof fn limit_is_never_exceeded(limit: nat, out: Seq<u8>, bufs: Seq<Seq<u8>>)
    ensures
        ({
            let (remaining, new_out) = written(limit as int, out, bufs);
            &&& 0 <= remaining
            &&& new_out.len() + remaining <= out.len() + limit
            &&& out.is_prefix_of(new_out)
        }),
    decreases bufs.len(),
{
    if bufs.len() > 0 {
        limit_is_never_exceeded(limit, out, bufs.drop_last());
        let (_, prev) = written(limit as int, out, bufs.drop_last());
        let (_, next) = written(limit as int, out, bufs);
        assert(next.take(out.len() as int) =~= prev.take(out.len() as int));
    }
}

// === Laws ===

/// A buffer is written if there is enough space, otherwise nothing is written and
/// there is no more space.
pub proof fn buffer_is_written_or_not(
    limit: usize,
    writer: &mut LimitedWrite,
    out: &mut Vec<u8>,
    buf: &[u8],
    count: usize,
)
    requires
        call_ensures(LimitedWrite::new, (limit,), *old(writer)),
        call_ensures(LimitedWrite::write, (writer, out, buf), count),
    ensures
        buf@.len() <= limit ==> count == buf@.len() && final(out)@ == old(out)@ + buf@
            && final(writer).remaining + count == limit,
        buf@.len() > limit ==> count == 0 && final(out)@ == old(out)@
            && final(writer).remaining == 0,
{
}

} // verus!
