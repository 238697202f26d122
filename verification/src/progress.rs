//! How much of a run is done: the bytes and rows written so far.

use muldiv::MulDiv;
use vstd::prelude::*;

verus! {

/// Something that happens to a counting writer.
pub enum WriteEvent {
    /// This number of bytes was written.
    Written(u64),
    /// This number of bytes was committed.
    Committed(u64),
}

/// What an event does to the count of a counting writer.
pub open spec fn count_changes(before: u64, event: WriteEvent, after: u64) -> bool {
    match event {
        WriteEvent::Written(n) => after == before + n,
        WriteEvent::Committed(n) => n == before && after == 0,
    }
}

/// Wrapping of a writer which counts how many bytes are written.
pub struct WriteCountWrapper<W> {
    /// The writer.
    pub inner: W,
    /// The number of bytes written since they were last committed.
    pub count: u64,
}

impl<W> WriteCountWrapper<W> {
    /// Creates a new [`WriteCountWrapper`] by wrapping another writer.
    pub fn new(inner: W) -> (r: WriteCountWrapper<W>)
        ensures
            r.inner == inner,
            r.count == 0,
    {
        WriteCountWrapper { inner, count: 0 }
    }

    /// Takes note of what the writer answered to a request to write, and passes it on.
    pub fn record_write<E>(&mut self, answer: Result<usize, E>) -> (r: Result<usize, E>)
        requires
            answer matches Ok(bytes_written) ==> old(self).count + bytes_written <= u64::MAX,
        ensures
            r == answer,
            final(self).inner == old(self).inner,
            match answer {
                Ok(bytes_written) => count_changes(
                    old(self).count,
                    WriteEvent::Written(bytes_written as u64),
                    final(self).count,
                ),
                Err(_) => final(self).count == old(self).count,
            },
    {
        match answer {
            Ok(bytes_written) => {
                self.count = self.count + bytes_written as u64;
                Ok(bytes_written)
            },
            Err(e) => Err(e),
        }
    }

    /// Resets the byte count of this instance to zero, and returns the number of bytes that are to
    /// be added to the size written by all.
    pub fn commit_bytes_written(&mut self) -> (r: u64)
        ensures
            count_changes(old(self).count, WriteEvent::Committed(r), final(self).count),
            final(self).inner == old(self).inner,
    {
        let committed: u64 = self.count;
        self.count = 0;
        committed
    }
}

/// The size written and the size expected at the end.
#[derive(Copy, Clone, Debug, PartialEq, Eq, Structural)]
pub struct SizeEstimate {
    /// The number of bytes written so far.
    pub written: u64,
    /// The number of bytes expected at the end.
    pub total: u64,
}

/// What the progress bars are to show.
#[derive(Copy, Clone, Debug, PartialEq, Eq, Structural)]
pub struct ProgressUpdate {
    /// The number of rows written so far.
    pub rows: u64,
    /// The sizes, once there is a row to go by.
    pub size: Option<SizeEstimate>,
}

/// `value * num / denom`, rounded to the closest integer and upwards from the middle.
pub open spec fn rounded_quotient(value: int, num: int, denom: int) -> int {
    (value * num + denom / 2) / denom
}

/// `n`, if it is a number of 64 bits.
pub open spec fn if_u64(n: int) -> Option<u64> {
    if 0 <= n <= u64::MAX {
        Some(n as u64)
    } else {
        None
    }
}

/// Calls `MulDiv::mul_div_round` of `muldiv`, which multiplies and divides without overflow in
/// between and gives nothing only where the quotient does not fit. It panics if `denom` is zero.
#[verifier::external_body]
fn mul_div_round(value: u64, num: u64, denom: u64) -> (r: Option<u64>)
    requires
        denom != 0,
    ensures
        r == if_u64(rounded_quotient(value as int, num as int, denom as int)),
{
    value.mul_div_round(num, denom)
}

/// The size to expect at the end, if the rows still to come are as large as those written.
pub open spec fn expected_size(written_size: u64, total_rows: u64, rows_count: u64) -> u64 {
    match if_u64(rounded_quotient(written_size as int, total_rows as int, rows_count as int)) {
        Some(size) => size,
        None => u64::MAX,
    }
}

/// What the progress bars are to show once `rows_count` of `total_rows` rows, and `written_size`
/// bytes, are written.
pub fn progress_update(total_rows: u64, rows_count: u64, written_size: u64) -> (r: ProgressUpdate)
    ensures
        r.rows == rows_count,
        rows_count == 0 ==> r.size is None,
        rows_count != 0 ==> r.size == Some(
            SizeEstimate {
                written: written_size,
                total: expected_size(written_size, total_rows, rows_count),
            },
        ),
{
    let size = if rows_count != 0 {
        let total: u64 = match mul_div_round(written_size, total_rows, rows_count) {
            Some(size) => size,
            None => u64::MAX,
        };
        Some(SizeEstimate { written: written_size, total })
    } else {
        None
    };
    ProgressUpdate { rows: rows_count, size }
}

/// Once all rows are written, the size expected at the end is the size written.
pub proof fn expected_size_at_the_end(written_size: u64, total_rows: u64)
    requires
        total_rows != 0,
    ensures
        expected_size(written_size, total_rows, total_rows) == written_size,
{
    let w = written_size as int;
    let t = total_rows as int;
    assert((w * t + t / 2) / t == w) by (nonlinear_arith)
        requires
            t > 0,
            w >= 0,
    ;
}

/// While rows are still to come, the size expected at the end is no less than the size written.
pub proof fn expected_size_covers_written(written_size: u64, total_rows: u64, rows_count: u64)
    requires
        0 < rows_count <= total_rows,
    ensures
        expected_size(written_size, total_rows, rows_count) >= written_size,
{
    let w = written_size as int;
    let t = total_rows as int;
    let r = rows_count as int;
    assert((w * t + r / 2) / r >= w) by (nonlinear_arith)
        requires
            0 < r <= t,
            w >= 0,
    ;
}

/// The bytes that some events write in all.
pub open spec fn bytes_written(events: Seq<WriteEvent>) -> int
    decreases events.len(),
{
    if events.len() == 0 {
        0
    } else {
        bytes_written(events.drop_last()) + match events.last() {
            WriteEvent::Written(n) => n as int,
            WriteEvent::Committed(_) => 0,
        }
    }
}

/// The bytes that some events commit in all.
pub open spec fn bytes_committed(events: Seq<WriteEvent>) -> int
    decreases events.len(),
{
    if events.len() == 0 {
        0
    } else {
        bytes_committed(events.drop_last()) + match events.last() {
            WriteEvent::Written(_) => 0,
            WriteEvent::Committed(n) => n as int,
        }
    }
}

/// Every byte written is either still counted or was committed exactly once, whatever happened to
/// a new counting writer since. Here `counts` are its counts before, between and after the events.
pub proof fn no_byte_is_lost(counts: Seq<u64>, events: Seq<WriteEvent>)
    requires
        counts.len() == events.len() + 1,
        counts[0] == 0,
        forall|i: int|
            0 <= i < events.len() ==> count_changes(counts[i], #[trigger] events[i], counts[i + 1]),
    ensures
        bytes_committed(events) + counts.last() == bytes_written(events),
    decreases events.len(),
{
    if events.len() > 0 {
        let last = events.len() - 1;
        assert forall|i: int| 0 <= i < last implies count_changes(
            counts.drop_last()[i],
            #[trigger] events.drop_last()[i],
            counts.drop_last()[i + 1],
        ) by {
            assert(events.drop_last()[i] == events[i]);
        }
        no_byte_is_lost(counts.drop_last(), events.drop_last());
        assert(count_changes(counts[last], events[last], counts[last + 1]));
    }
}

/// The size expected at the end is the share of the size written that all rows have of the rows
/// written, to the nearest byte, or the greatest number there is where that is greater.
pub proof fn expected_size_is_proportional(written_size: u64, total_rows: u64, rows_count: u64)
    requires
        rows_count > 0,
    ensures
        2 * (written_size * total_rows) < (2 * expected_size(written_size, total_rows, rows_count)
            + 1) * rows_count || expected_size(written_size, total_rows, rows_count) == u64::MAX,
        2 * (written_size * total_rows) >= (2 * expected_size(written_size, total_rows, rows_count)
            - 1) * rows_count,
{
    let p = written_size * total_rows;
    let r = rows_count as int;
    let half = r / 2;
    let q = (p + half) / r;
    assert(p >= 0) by (nonlinear_arith)
        requires
            p == written_size * total_rows,
    ;
    vstd::arithmetic::div_mod::lemma_fundamental_div_mod(p + half, r);
    assert(0 <= (p + half) % r < r) by (nonlinear_arith)
        requires
            r > 0,
    ;
    assert(q * r <= p + half < q * r + r) by (nonlinear_arith)
        requires
            p + half == r * q + (p + half) % r,
            0 <= (p + half) % r < r,
    ;
    assert(q >= 0) by (nonlinear_arith)
        requires
            q == (p + half) / r,
            p + half >= 0,
            r > 0,
    ;
    assert((2 * q + 1) * r == 2 * (q * r) + r) by (nonlinear_arith);
    assert((2 * q - 1) * r == 2 * (q * r) - r) by (nonlinear_arith);
    let e = expected_size(written_size, total_rows, rows_count) as int;
    assert(e <= q);
    assert((2 * e - 1) * r <= (2 * q - 1) * r) by (nonlinear_arith)
        requires
            e <= q,
            r > 0,
    ;
}

} // verus!
