//! Completed-window results and the batched sink writer.
//!
//! A tumble produces one [`InfluxResults`] bundle: the window's metric
//! record, an optional breakout event, and a performance record. The
//! [`SinkWriter`] buffers bundles and, on reaching the configured batch
//! size or on an idle timeout, splits the buffer into the three ordered
//! write classes for dispatch.

use vstd::prelude::*;
use crate::clock::now_millis;
use crate::window::Window;

verus! {

/// Sink-writer configuration: flush on reaching `batch_size` buffered
/// results, or after `flush_period` milliseconds of idleness.
#[derive(Clone, Copy, Debug)]
pub struct InfluxConfig {
    /// How many buffered results trigger an immediate flush.
    pub batch_size: usize,
    /// Idle timeout in milliseconds after which a non-empty buffer flushes.
    pub flush_period: u64,
}

impl InfluxConfig {
    /// Bundles the two sink-writer settings.
    pub fn new(batch_size: usize, flush_period: u64) -> (c: InfluxConfig)
        ensures
            c.batch_size == batch_size,
            c.flush_period == flush_period,
    {
        InfluxConfig { batch_size, flush_period }
    }
}

/// The direction of a detected crossover.
#[derive(Clone, Copy, Debug, PartialEq, Eq, Structural)]
pub enum BreakoutType {
    Bullish,
    Bearish,
}

/// The metric record of one closed window.
#[derive(Debug)]
pub struct EmaResult {
    /// Start of the closed window (ms epoch).
    pub time: i64,
    /// The short EMA accumulator after the closing advance.
    pub calc_38: u64,
    /// The long EMA accumulator after the closing advance.
    pub calc_100: u64,
    /// Price of the window's opening tick.
    pub first: u64,
    /// Price of the window's closing tick.
    pub last: u64,
    /// Largest price seen in the window.
    pub max: u64,
    /// Smallest price seen in the window.
    pub min: u64,
    /// How many ticks accumulated into the window.
    pub movements: u32,
    /// The instrument the window belongs to.
    pub id: String,
    /// The instrument's class.
    pub equity_type: String,
}

/// A moving-average crossover event produced by a tumble.
#[derive(Debug)]
pub struct Breakout {
    /// The instrument the event belongs to.
    pub id: String,
    /// Start of the window that closed when the event fired (ms epoch).
    pub time: i64,
    /// Which way the short average crossed the long one.
    pub direction: BreakoutType,
    /// The EMA pair of the previous window.
    pub previous: (u64, u64),
    /// The EMA pair of the just-closed window.
    pub current: (u64, u64),
}

impl Breakout {
    /// Records one crossover event.
    pub fn new(
        id: String,
        time: i64,
        btype: BreakoutType,
        previous: (u64, u64),
        current: (u64, u64),
    ) -> (b: Breakout)
        ensures
            b == (Breakout { id, time, direction: btype, previous, current }),
    {
        Breakout { id, time, direction: btype, previous, current }
    }
}

/// Timing telemetry for one tumble and its eventual sink write.
#[derive(Debug)]
pub struct Performance {
    /// The instrument the window belongs to.
    pub id: String,
    /// The window's sequence number after the tumble.
    pub window_number: u32,
    /// Wall-clock time at which the record was created (ms epoch).
    pub time: i64,
    /// Wall-clock start of the tumble computation; zero until recorded.
    pub window_creation_start: i64,
    /// Wall-clock end of the tumble computation; zero until recorded.
    pub window_creation_end: i64,
    /// Wall-clock end of the sink write; zero until the flush stamps it.
    pub influx_write_end: i64,
    /// How many ticks accumulated into the window.
    pub movements: u32,
}

impl Performance {
    /// A fresh record with all timing fields still unset; `time` is read
    /// from the wall clock.
    pub fn new(id: String, window_number: u32, movements: u32) -> (p: Performance)
        ensures
            p.id@ == id@,
            p.window_number == window_number,
            p.movements == movements,
            p.window_creation_start == 0,
            p.window_creation_end == 0,
            p.influx_write_end == 0,
    {
        Performance {
            id,
            window_number,
            time: now_millis(),
            window_creation_start: 0,
            window_creation_end: 0,
            influx_write_end: 0,
            movements,
        }
    }
}

/// The immutable output bundle of one tumble: a metric record, an
/// optional breakout event and a performance record.
#[derive(Debug)]
pub struct InfluxResults {
    /// The closed window's metric record.
    pub ema: EmaResult,
    /// The crossover event, when the tumble detected one.
    pub breakout: Option<Breakout>,
    /// The closed window's timing telemetry.
    pub perf: Performance,
}

impl InfluxResults {
    /// The three parts agree on the instrument they describe.
    pub open spec fn consistent(self) -> bool {
        &&& self.ema.id@ == self.perf.id@
        &&& (self.breakout matches Some(b) ==> b.id@ == self.ema.id@)
    }

    /// The three write classes this bundle splits into.
    pub open spec fn split_spec(self) -> (EmaResult, Option<Breakout>, Performance) {
        (self.ema, self.breakout, self.perf)
    }

    /// Bundles a closed window's aggregates into the output value.
    /// `window` is the instrument's window *after* the tumble: it carries
    /// the advanced EMA pair and the incremented sequence number, while
    /// the price aggregates of the closed interval arrive separately.
    pub fn new(
        id: String,
        ts: i64,
        equity_type: String,
        window: &Window,
        window_first: u64,
        window_last: u64,
        window_max: u64,
        window_min: u64,
        breakout: Option<(BreakoutType, (u64, u64))>,
        movements: u32,
    ) -> (r: InfluxResults)
        ensures
            r.ema.id@ == id@,
            r.ema.equity_type@ == equity_type@,
            r.ema.time == ts,
            r.ema.calc_38 == window.current_emas.0,
            r.ema.calc_100 == window.current_emas.1,
            r.ema.first == window_first,
            r.ema.last == window_last,
            r.ema.max == window_max,
            r.ema.min == window_min,
            r.ema.movements == movements,
            r.perf.id@ == id@,
            r.perf.window_number == window.sequence_number,
            r.perf.movements == movements,
            r.perf.window_creation_start == 0,
            r.perf.window_creation_end == 0,
            r.perf.influx_write_end == 0,
            breakout is None ==> r.breakout is None,
            (breakout matches Some((bt, prev)) ==> r.breakout matches Some(b) && b.id@ == id@
                && b.time == ts && b.direction == bt && b.previous == prev && b.current
                == window.current_emas),
            r.consistent(),
    {
        let perf = Performance::new(id.clone(), window.sequence_number, movements);
        let ema = EmaResult {
            id: id.clone(),
            calc_38: window.current_emas.0,
            calc_100: window.current_emas.1,
            time: ts,
            equity_type,
            first: window_first,
            last: window_last,
            max: window_max,
            min: window_min,
            movements,
        };
        let breakout = match breakout {
            Some(b) => Some(Breakout::new(id, ts, b.0, b.1, window.current_emas)),
            None => None,
        };
        InfluxResults { ema, breakout, perf }
    }

    /// Stamps the wall-clock start of the tumble computation.
    pub fn record_window_start(&mut self, ts: i64)
        ensures
            *final(self) == (InfluxResults {
                perf: Performance { window_creation_start: ts, ..old(self).perf },
                ..*old(self)
            }),
    {
        self.perf.window_creation_start = ts;
    }

    /// Stamps the wall-clock end of the tumble computation.
    pub fn record_window_end(&mut self, ts: i64)
        ensures
            *final(self) == (InfluxResults {
                perf: Performance { window_creation_end: ts, ..old(self).perf },
                ..*old(self)
            }),
    {
        self.perf.window_creation_end = ts;
    }

    /// Splits the bundle into its three write classes.
    pub fn into_query(self) -> (q: (EmaResult, Option<Breakout>, Performance))
        ensures
            q == self.split_spec(),
    {
        let InfluxResults { ema, breakout, perf } = self;
        (ema, breakout, perf)
    }
}

/// What recombining the three write classes of one bundle gives back:
/// the bundle, provided the metric and performance records name the same
/// instrument.
pub open spec fn recombine_spec(
    ema: EmaResult,
    breakout: Option<Breakout>,
    perf: Performance,
) -> Option<InfluxResults> {
    if ema.id@ == perf.id@ {
        Some(InfluxResults { ema, breakout, perf })
    } else {
        None
    }
}

/// Reassembles a bundle from its three write classes, matching the metric
/// and performance records on their shared instrument identity.
pub fn recombine(ema: EmaResult, breakout: Option<Breakout>, perf: Performance) -> (r: Option<
    InfluxResults,
>)
    ensures
        r == recombine_spec(ema, breakout, perf),
{
    if ema.id == perf.id {
        Some(InfluxResults { ema, breakout, perf })
    } else {
        None
    }
}

/// Splitting a bundle into the three write classes and recombining them
/// round-trips every original field.
pub proof fn lemma_split_recombine(r: InfluxResults)
    requires
        r.consistent(),
    ensures
        ({
            let (ema, breakout, perf) = r.split_spec();
            recombine_spec(ema, breakout, perf) == Some(r)
        }),
{
}

/// The metric records of a run of bundles, one per bundle, in order.
pub open spec fn metrics_of(s: Seq<InfluxResults>) -> Seq<EmaResult>
    decreases s.len(),
{
    if s.len() == 0 {
        Seq::empty()
    } else {
        metrics_of(s.drop_last()).push(s.last().ema)
    }
}

/// The breakout events among a run of bundles, in order.
pub open spec fn breakouts_of(s: Seq<InfluxResults>) -> Seq<Breakout>
    decreases s.len(),
{
    if s.len() == 0 {
        Seq::empty()
    } else {
        match s.last().breakout {
            Some(b) => breakouts_of(s.drop_last()).push(b),
            None => breakouts_of(s.drop_last()),
        }
    }
}

/// The performance records of a run of bundles, one per bundle, in order.
pub open spec fn perfs_of(s: Seq<InfluxResults>) -> Seq<Performance>
    decreases s.len(),
{
    if s.len() == 0 {
        Seq::empty()
    } else {
        perfs_of(s.drop_last()).push(s.last().perf)
    }
}

/// The three ordered write classes of one flush: window metrics, then
/// breakout events, then performance records.
#[derive(Debug)]
pub struct FlushBatch {
    /// One metric write per buffered result, in arrival order.
    pub window_writes: Vec<EmaResult>,
    /// One write per buffered result that carried a breakout event.
    pub breakout_writes: Vec<Breakout>,
    /// One performance write per buffered result, in arrival order.
    pub perf_writes: Vec<Performance>,
}

impl FlushBatch {
    /// The batch is exactly the three write classes of the buffered run `s`.
    pub open spec fn is_split_of(self, s: Seq<InfluxResults>) -> bool {
        &&& self.window_writes@ == metrics_of(s)
        &&& self.breakout_writes@ == breakouts_of(s)
        &&& self.perf_writes@ == perfs_of(s)
    }

    /// Stamps one wall-clock sink-write end time onto every performance
    /// record of the batch; nothing else changes.
    pub fn stamp_write_end(&mut self, ts: i64)
        ensures
            final(self).window_writes@ == old(self).window_writes@,
            final(self).breakout_writes@ == old(self).breakout_writes@,
            final(self).perf_writes@.len() == old(self).perf_writes@.len(),
            forall|i: int|
                0 <= i < old(self).perf_writes@.len() ==> final(self).perf_writes@[i] == (
                Performance { influx_write_end: ts, ..old(self).perf_writes@[i] }),
    {
        let ghost orig = *self;
        let n = self.perf_writes.len();
        let mut i: usize = 0;
        while i < n
            invariant
                i <= n,
                n == self.perf_writes@.len(),
                self.window_writes@ == orig.window_writes@,
                self.breakout_writes@ == orig.breakout_writes@,
                self.perf_writes@.len() == orig.perf_writes@.len(),
                forall|j: int|
                    0 <= j < i ==> self.perf_writes@[j] == (Performance {
                        influx_write_end: ts,
                        ..orig.perf_writes@[j]
                    }),
                forall|j: int| i <= j < n ==> self.perf_writes@[j] == orig.perf_writes@[j],
            decreases n - i,
        {
            self.perf_writes[i].influx_write_end = ts;
            i = i + 1;
        }
    }
}

/// Buffers completed-window results and decides when a flush happens.
///
/// The surrounding writer task feeds it each received result and each
/// idle timeout, and dispatches whatever batch comes back: metric writes
/// first, then breakout writes (skipped when empty), then — after
/// stamping the batch with one sink-write end time — performance writes.
pub struct SinkWriter {
    /// The batch-size and idle-timeout settings.
    pub config: InfluxConfig,
    /// Results received since the last flush, in arrival order.
    pub buffer: Vec<InfluxResults>,
}

/// The buffer after one received result: the result is appended, and the
/// buffer empties exactly when the append makes it reach the batch size.
pub open spec fn on_result_buffer_spec(
    batch_size: usize,
    buf: Seq<InfluxResults>,
    r: InfluxResults,
) -> Seq<InfluxResults> {
    if buf.push(r).len() == batch_size {
        Seq::empty()
    } else {
        buf.push(r)
    }
}

/// Whether one received result triggers a flush.
pub open spec fn on_result_flushes(
    batch_size: usize,
    buf: Seq<InfluxResults>,
    r: InfluxResults,
) -> bool {
    buf.push(r).len() == batch_size
}

impl SinkWriter {
    /// A writer with an empty buffer.
    pub fn new(config: InfluxConfig) -> (w: SinkWriter)
        ensures
            w.config == config,
            w.buffer@ == Seq::<InfluxResults>::empty(),
    {
        SinkWriter { config, buffer: Vec::new() }
    }

    /// Drains the whole buffer into the three write classes.
    fn flush(&mut self) -> (batch: FlushBatch)
        ensures
            final(self).config == old(self).config,
            final(self).buffer@ == Seq::<InfluxResults>::empty(),
            batch.is_split_of(old(self).buffer@),
    {
        let ghost orig = self.buffer@;
        let ghost cfg = self.config;
        let mut window_writes: Vec<EmaResult> = Vec::new();
        let mut breakout_writes: Vec<Breakout> = Vec::new();
        let mut perf_writes: Vec<Performance> = Vec::new();
        while self.buffer.len() > 0
            invariant
                self.config == cfg,
                self.buffer@.len() <= orig.len(),
                self.buffer@ == orig.skip(orig.len() - self.buffer@.len()),
                window_writes@ == metrics_of(orig.take(orig.len() - self.buffer@.len())),
                breakout_writes@ == breakouts_of(orig.take(orig.len() - self.buffer@.len())),
                perf_writes@ == perfs_of(orig.take(orig.len() - self.buffer@.len())),
            decreases self.buffer@.len(),
        {
            let ghost k = orig.len() - self.buffer@.len();
            proof {
                assert(self.buffer@[0] == orig[k]);
            }
            let r = self.buffer.remove(0);
            proof {
                assert(self.buffer@ =~= orig.skip(k + 1));
                assert(orig.take(k + 1).drop_last() =~= orig.take(k));
                assert(orig.take(k + 1).last() == orig[k]);
            }
            let InfluxResults { ema, breakout, perf } = r;
            window_writes.push(ema);
            match breakout {
                Some(b) => breakout_writes.push(b),
                None => {},
            }
            perf_writes.push(perf);
        }
        proof {
            assert(orig.take(orig.len() as int) =~= orig);
        }
        FlushBatch { window_writes, breakout_writes, perf_writes }
    }

    /// Feeds one received result into the buffer: exactly when the buffer
    /// thereby reaches the batch size, the whole buffer comes back as a
    /// flush batch and the buffer empties.
    pub fn on_result(&mut self, result: InfluxResults) -> (flush: Option<FlushBatch>)
        ensures
            final(self).config == old(self).config,
            final(self).buffer@ == on_result_buffer_spec(
                old(self).config.batch_size,
                old(self).buffer@,
                result,
            ),
            on_result_flushes(old(self).config.batch_size, old(self).buffer@, result) ==> (
            flush matches Some(b) && b.is_split_of(old(self).buffer@.push(result))),
            !on_result_flushes(old(self).config.batch_size, old(self).buffer@, result)
                ==> flush is None,
    {
        self.buffer.push(result);
        if self.buffer.len() == self.config.batch_size {
            Some(self.flush())
        } else {
            None
        }
    }

    /// An idle timeout: a non-empty buffer flushes entirely; an empty one
    /// keeps waiting.
    pub fn on_timeout(&mut self) -> (flush: Option<FlushBatch>)
        ensures
            final(self).config == old(self).config,
            final(self).buffer@ == Seq::<InfluxResults>::empty(),
            old(self).buffer@.len() == 0 ==> flush is None,
            old(self).buffer@.len() > 0 ==> (flush matches Some(b) && b.is_split_of(
                old(self).buffer@,
            )),
    {
        if self.buffer.len() > 0 {
            Some(self.flush())
        } else {
            None
        }
    }
}

/// The buffer left after feeding a back-to-back run of results into a
/// writer with batch size `batch_size`, starting from buffer `buf`.
pub open spec fn run_buffer(
    batch_size: usize,
    buf: Seq<InfluxResults>,
    results: Seq<InfluxResults>,
) -> Seq<InfluxResults>
    decreases results.len(),
{
    if results.len() == 0 {
        buf
    } else {
        run_buffer(
            batch_size,
            on_result_buffer_spec(batch_size, buf, results.first()),
            results.drop_first(),
        )
    }
}

/// How many flushes a back-to-back run of results triggers.
pub open spec fn count_flushes(
    batch_size: usize,
    buf: Seq<InfluxResults>,
    results: Seq<InfluxResults>,
) -> int
    decreases results.len(),
{
    if results.len() == 0 {
        0
    } else {
        (if on_result_flushes(batch_size, buf, results.first()) {
            1int
        } else {
            0int
        }) + count_flushes(
            batch_size,
            on_result_buffer_spec(batch_size, buf, results.first()),
            results.drop_first(),
        )
    }
}

/// Feeding in the results that are still missing from a full batch
/// flushes exactly once — on the last of them — and empties the buffer.
proof fn lemma_run_to_full_batch(
    batch_size: usize,
    buf: Seq<InfluxResults>,
    results: Seq<InfluxResults>,
)
    requires
        buf.len() + results.len() == batch_size,
        1 <= results.len(),
    ensures
        count_flushes(batch_size, buf, results) == 1,
        run_buffer(batch_size, buf, results) == Seq::<InfluxResults>::empty(),
    decreases results.len(),
{
    let first = results.first();
    let grown = buf.push(first);
    let rest = results.drop_first();
    assert(count_flushes(batch_size, buf, results) == (if on_result_flushes(batch_size, buf, first) {
        1int
    } else {
        0int
    }) + count_flushes(batch_size, on_result_buffer_spec(batch_size, buf, first), rest));
    assert(run_buffer(batch_size, buf, results) == run_buffer(
        batch_size,
        on_result_buffer_spec(batch_size, buf, first),
        rest,
    ));
    if results.len() == 1 {
        assert(on_result_flushes(batch_size, buf, first));
        assert(on_result_buffer_spec(batch_size, buf, first) == Seq::<InfluxResults>::empty());
        assert(rest.len() == 0);
        assert(count_flushes(batch_size, Seq::<InfluxResults>::empty(), rest) == 0);
        assert(run_buffer(batch_size, Seq::<InfluxResults>::empty(), rest) == Seq::<
            InfluxResults,
        >::empty());
    } else {
        assert(grown.len() < batch_size);
        assert(on_result_buffer_spec(batch_size, buf, first) == grown);
        lemma_run_to_full_batch(batch_size, grown, rest);
    }
}

/// Sending exactly `batch_size` results back-to-back into a writer whose
/// buffer is empty triggers exactly one flush, and leaves the buffer
/// empty again.
pub proof fn lemma_full_batch_flushes_once(batch_size: usize, results: Seq<InfluxResults>)
    requires
        1 <= batch_size,
        results.len() == batch_size,
    ensures
        count_flushes(batch_size, Seq::empty(), results) == 1,
        run_buffer(batch_size, Seq::empty(), results) == Seq::<InfluxResults>::empty(),
{
    lemma_run_to_full_batch(batch_size, Seq::empty(), results);
}

} // verus!
