//! Tumbling windows, exponential moving averages and crossover detection.
//!
//! Each instrument owns one [`Window`]: a fixed-length time interval that
//! collects ticks, plus a pair of exponential-moving-average accumulators.
//! A tick past the window's end closes it (a *tumble*), advances the EMA
//! pair and reports a crossover of the two averages, if one occurred.
//!
//! Prices are nonnegative fixed-point integers; the unit is the caller's
//! choice. The EMA accumulators carry [`EMA_SCALE`] extra fixed-point
//! digits relative to price units, so that the smoothing fractions
//! `2/(1+N)` do not vanish under integer division.

use vstd::prelude::*;
use crate::clock::now_millis;
use crate::influx::{BreakoutType, InfluxResults};
use crate::tick::TickEvent;
use vstd::arithmetic::div_mod::{
    lemma_fundamental_div_mod, lemma_mod_bound, lemma_div_pos_is_pos, lemma_div_is_ordered,
    lemma_div_multiples_vanish, lemma_mod_multiples_basic,
};
use vstd::arithmetic::mul::lemma_mul_nonnegative;

verus! {

/// Length of one tumbling window, in milliseconds.
pub const WINDOW_PERIOD: i64 = 300 * 1000;

/// Span of the short exponential moving average.
pub const EMA_38: u64 = 38;

/// Span of the long exponential moving average.
pub const EMA_100: u64 = 100;

/// Fixed-point scale carried by the EMA accumulators, relative to price units.
pub const EMA_SCALE: u64 = 1_000_000;

/// Largest admissible price: any larger value could overflow the scaled
/// EMA accumulators.
pub const MAX_PRICE: u64 = 18_446_744_073_709;

/// Largest value an EMA accumulator can reach when fed prices up to
/// [`MAX_PRICE`].
pub const EMA_MAX: u64 = MAX_PRICE * EMA_SCALE;

/// Latest admissible tick timestamp: leaves room for aligning a timestamp
/// up by half a window and then adding a full window period.
pub const MAX_TICK_TIME: i64 = i64::MAX - 2 * WINDOW_PERIOD;

/// The multiple of `multiplier` nearest to `number`, half-way cases rounded up.
pub open spec fn align_spec(number: int, multiplier: int) -> int {
    ((number + multiplier / 2) / multiplier) * multiplier
}

/// How the alignment relates to the timestamp it was computed from.
pub proof fn lemma_align_bounds(number: int, multiplier: int)
    requires
        0 <= number,
        0 < multiplier,
    ensures
        0 <= align_spec(number, multiplier) <= number + multiplier / 2,
        number + multiplier / 2 - multiplier < align_spec(number, multiplier),
        align_spec(number, multiplier) % multiplier == 0,
{
    let s = number + multiplier / 2;
    let q = s / multiplier;
    lemma_fundamental_div_mod(s, multiplier);
    lemma_mod_bound(s, multiplier);
    lemma_div_pos_is_pos(s, multiplier);
    lemma_mul_nonnegative(q, multiplier);
    lemma_mod_multiples_basic(q, multiplier);
}

/// Rounds `number` to the nearest multiple of `multiplier` (half-up): the
/// window-alignment function, so a window's start may land after the
/// timestamp that created it.
pub fn round_down(number: i64, multiplier: i64) -> (r: i64)
    requires
        0 <= number,
        0 < multiplier,
        number + multiplier / 2 <= i64::MAX,
    ensures
        r == align_spec(number as int, multiplier as int),
        0 <= r <= number + multiplier / 2,
        (r as int) % (multiplier as int) == 0,
{
    proof {
        lemma_align_bounds(number as int, multiplier as int);
    }
    let shifted: i64 = number + multiplier / 2;
    (shifted / multiplier) * multiplier
}

/// One advance of an EMA accumulator with span `span`, in `EMA_SCALE`-ths
/// of a price unit: the integer form of
/// `price * 2/(1+span) + prev * (1 - 2/(1+span))`.
pub open spec fn ema_step(price: u64, prev: u64, span: u64) -> int {
    (2 * price * EMA_SCALE + (span - 1) * prev) / (span + 1)
}

/// Advances both EMA accumulators with the closing price of a window.
pub fn ema_advance(price: u64, previous: (u64, u64)) -> (r: (u64, u64))
    requires
        price <= MAX_PRICE,
        previous.0 <= EMA_MAX,
        previous.1 <= EMA_MAX,
    ensures
        r.0 == ema_step(price, previous.0, EMA_38),
        r.1 == ema_step(price, previous.1, EMA_100),
        r.0 <= EMA_MAX,
        r.1 <= EMA_MAX,
{
    let scaled: u128 = (price as u128) * 2_000_000;
    let n38: u128 = scaled + 37 * (previous.0 as u128);
    let n100: u128 = scaled + 99 * (previous.1 as u128);
    let q38: u128 = n38 / 39;
    let q100: u128 = n100 / 101;
    proof {
        assert(n38 <= 39 * EMA_MAX);
        assert(n100 <= 101 * EMA_MAX);
        lemma_div_is_ordered(n38 as int, 39 * EMA_MAX, 39);
        lemma_div_is_ordered(n100 as int, 101 * EMA_MAX, 101);
        lemma_div_multiples_vanish(EMA_MAX as int, 39);
        lemma_div_multiples_vanish(EMA_MAX as int, 101);
    }
    (q38 as u64, q100 as u64)
}

/// A bearish crossover: the short average falls strictly below the long
/// one, having been at or above it in the previous window.
pub open spec fn bearish_crossover(prev: (u64, u64), cur: (u64, u64)) -> bool {
    cur.0 < cur.1 && prev.0 >= prev.1
}

/// A bullish crossover: the short average rises strictly above the long
/// one, having been at or below it in the previous window.
pub open spec fn bullish_crossover(prev: (u64, u64), cur: (u64, u64)) -> bool {
    cur.0 > cur.1 && prev.0 <= prev.1
}

/// The two crossover predicates exclude each other, and equality alone
/// never raises an event: one side must strictly cross.
pub proof fn lemma_crossover_exclusive(prev: (u64, u64), cur: (u64, u64))
    ensures
        !(bearish_crossover(prev, cur) && bullish_crossover(prev, cur)),
        cur.0 == cur.1 ==> !bearish_crossover(prev, cur) && !bullish_crossover(prev, cur),
        prev.0 == prev.1 && cur.0 == cur.1 ==> !bearish_crossover(prev, cur)
            && !bullish_crossover(prev, cur),
        prev.0 == prev.1 && cur.0 < cur.1 ==> bearish_crossover(prev, cur),
        prev.0 == prev.1 && cur.0 > cur.1 ==> bullish_crossover(prev, cur),
{
}

/// One instrument's current tumbling window and EMA state.
#[derive(Clone, Copy, Debug, PartialEq, Eq)]
pub struct Window {
    /// How many tumbles this instrument has been through.
    pub sequence_number: u32,
    /// The current pair of EMA accumulators `(span 38, span 100)`, in
    /// `EMA_SCALE`-ths of a price unit.
    pub current_emas: (u64, u64),
    /// Start of the current interval, inclusive (ms epoch).
    pub start_time: i64,
    /// End of the current interval, exclusive; always `start_time + WINDOW_PERIOD`.
    pub end_time: i64,
    /// Price of the window's opening tick.
    pub first: u64,
    /// Price of the latest tick inside the window.
    pub last: u64,
    /// Largest price seen inside the window.
    pub max: u64,
    /// Smallest price seen inside the window.
    pub min: u64,
    /// How many ticks accumulated into the window.
    pub movements: u32,
}

impl Window {
    /// Shape every reachable window keeps: the interval has the fixed
    /// length, its start lies on the alignment grid, and the EMA
    /// accumulators stay within the range the advance step preserves.
    pub open spec fn wf(self) -> bool {
        &&& self.end_time == self.start_time + WINDOW_PERIOD
        &&& (self.start_time as int) % (WINDOW_PERIOD as int) == 0
        &&& self.current_emas.0 <= EMA_MAX
        &&& self.current_emas.1 <= EMA_MAX
    }

    /// A freshly opened window: all price aggregates start at the creating
    /// tick's price and the EMA pair is zero-initialized.
    pub open spec fn new_spec(start_time: i64, price: u64) -> Window {
        Window {
            sequence_number: 0,
            current_emas: (0, 0),
            start_time,
            end_time: (start_time + WINDOW_PERIOD) as i64,
            first: price,
            last: price,
            max: price,
            min: price,
            movements: 0,
        }
    }

    /// Opens a window at `start_time` with the creating tick's price.
    pub fn new(start_time: i64, price: u64) -> (w: Window)
        requires
            start_time + WINDOW_PERIOD <= i64::MAX,
            (start_time as int) % (WINDOW_PERIOD as int) == 0,
        ensures
            w == Window::new_spec(start_time, price),
            w.wf(),
    {
        Window {
            sequence_number: 0,
            current_emas: (0, 0),
            start_time,
            end_time: start_time + WINDOW_PERIOD,
            first: price,
            last: price,
            max: price,
            min: price,
            movements: 0,
        }
    }

    /// A window after folding in one in-interval tick.
    pub open spec fn accumulate_spec(self, price: u64) -> Window {
        Window {
            max: if price > self.max { price } else { self.max },
            min: if price < self.min { price } else { self.min },
            last: price,
            movements: (self.movements + 1) as u32,
            ..self
        }
    }

    /// Folds an in-interval tick into the window's aggregates.
    pub fn accumulate(&mut self, price: u64)
        requires
            old(self).movements < u32::MAX,
        ensures
            *final(self) == old(self).accumulate_spec(price),
    {
        if price > self.max {
            self.max = price;
        }
        if price < self.min {
            self.min = price;
        }
        self.last = price;
        self.movements = self.movements + 1;
    }

    /// The window after a tumble: the interval advances to
    /// `new_start_time`, the EMA pair advances with the triggering price,
    /// and the price aggregates restart from that price.
    pub open spec fn tumble_spec(self, new_start_time: i64, last_price: u64) -> Window {
        Window {
            sequence_number: (self.sequence_number + 1) as u32,
            current_emas: (
                ema_step(last_price, self.current_emas.0, EMA_38) as u64,
                ema_step(last_price, self.current_emas.1, EMA_100) as u64,
            ),
            start_time: new_start_time,
            end_time: (new_start_time + WINDOW_PERIOD) as i64,
            first: last_price,
            last: last_price,
            max: last_price,
            min: last_price,
            movements: 0,
        }
    }

    /// The crossover a tumble reports, together with the previous EMA
    /// pair. The very first tumble reports nothing: the zero-initialized
    /// pair would yield a spurious signal.
    pub open spec fn tumble_breakout_spec(self, last_price: u64) -> Option<
        (BreakoutType, (u64, u64)),
    > {
        if self.sequence_number == 0 {
            None
        } else {
            let cur = (
                ema_step(last_price, self.current_emas.0, EMA_38) as u64,
                ema_step(last_price, self.current_emas.1, EMA_100) as u64,
            );
            let prev = self.current_emas;
            if bearish_crossover(prev, cur) {
                Some((BreakoutType::Bearish, prev))
            } else if bullish_crossover(prev, cur) {
                Some((BreakoutType::Bullish, prev))
            } else {
                None
            }
        }
    }

    /// Closes the current interval and opens the next one at
    /// `new_start_time`. Returns the detected crossover, if any, paired
    /// with the EMA pair of the closed window.
    pub fn tumble(&mut self, new_start_time: i64, last_price: u64) -> (r: Option<
        (BreakoutType, (u64, u64)),
    >)
        requires
            old(self).wf(),
            old(self).sequence_number < u32::MAX,
            last_price <= MAX_PRICE,
            new_start_time + WINDOW_PERIOD <= i64::MAX,
            (new_start_time as int) % (WINDOW_PERIOD as int) == 0,
        ensures
            *final(self) == old(self).tumble_spec(new_start_time, last_price),
            final(self).wf(),
            r == old(self).tumble_breakout_spec(last_price),
            old(self).sequence_number == 0 ==> r is None,
    {
        let new_emas = ema_advance(last_price, self.current_emas);
        let old_emas = self.current_emas;
        self.start_time = new_start_time;
        self.end_time = new_start_time + WINDOW_PERIOD;
        self.first = last_price;
        self.last = last_price;
        self.max = last_price;
        self.min = last_price;
        self.movements = 0;
        self.current_emas = new_emas;
        let result: Option<(BreakoutType, (u64, u64))> = if self.sequence_number > 0 {
            if new_emas.0 < new_emas.1 && old_emas.0 >= old_emas.1 {
                Some((BreakoutType::Bearish, old_emas))
            } else if new_emas.0 > new_emas.1 && old_emas.0 <= old_emas.1 {
                Some((BreakoutType::Bullish, old_emas))
            } else {
                None
            }
        } else {
            None
        };
        self.sequence_number = self.sequence_number + 1;
        result
    }
}

/// Two ticks inside the current interval, in time order, fold into the
/// aggregates exactly: the maximum and minimum take the extremal of the
/// prior aggregate and both prices, the closing price is the newest one,
/// and the movement count grows by two. Neither tick yields a result.
pub proof fn lemma_accumulate_two_ticks(w: Window, t1: i64, p1: u64, t2: i64, p2: u64)
    requires
        w.movements + 2 <= u32::MAX,
        w.start_time <= t1 < t2 < w.end_time,
    ensures
        ({
            let w2 = w.accumulate_spec(p1).accumulate_spec(p2);
            &&& w2.max == if p1 > w.max && p1 > p2 {
                p1
            } else if p2 > w.max {
                p2
            } else {
                w.max
            }
            &&& w2.min == if p1 < w.min && p1 < p2 {
                p1
            } else if p2 < w.min {
                p2
            } else {
                w.min
            }
            &&& w2.last == p2
            &&& w2.movements == w.movements + 2
            &&& w2.first == w.first
            &&& w2.sequence_number == w.sequence_number
            &&& w2.start_time == w.start_time
            &&& w2.end_time == w.end_time
            &&& w2.current_emas == w.current_emas
        }),
{
}

/// What the result bundle of a tumble carries, stated over the closed
/// window `w` and the triggering tick — everything except the wall-clock
/// stamps, which are read from the clock during the update. The
/// triggering tick's price folds into the closed window's `max` and
/// `min`, but not into its closing price or movement count.
pub open spec fn tumble_result_matches(
    res: InfluxResults,
    w: Window,
    id: Seq<char>,
    equity_type: Seq<char>,
    t: i64,
    price: u64,
) -> bool {
    let new_start = align_spec(t as int, WINDOW_PERIOD as int) as i64;
    let w_new = w.tumble_spec(new_start, price);
    &&& res.ema.id@ == id
    &&& res.ema.equity_type@ == equity_type
    &&& res.ema.time == w.start_time
    &&& res.ema.calc_38 == w_new.current_emas.0
    &&& res.ema.calc_100 == w_new.current_emas.1
    &&& res.ema.first == w.first
    &&& res.ema.last == w.last
    &&& res.ema.max == if price > w.max {
        price
    } else {
        w.max
    }
    &&& res.ema.min == if price < w.min {
        price
    } else {
        w.min
    }
    &&& res.ema.movements == w.movements
    &&& res.perf.id@ == id
    &&& res.perf.window_number == w_new.sequence_number
    &&& res.perf.movements == w.movements
    &&& res.perf.influx_write_end == 0
    &&& res.consistent()
    &&& (match w.tumble_breakout_spec(price) {
        None => res.breakout is None,
        Some((bt, prev)) => res.breakout matches Some(b) && b.id@ == id && b.time == w.start_time
            && b.direction == bt && b.previous == prev && b.current == w_new.current_emas,
    })
}

/// The mapping that parallel sequences of keys and windows represent:
/// later entries shadow earlier ones, though a well-formed manager never
/// holds a key twice.
pub open spec fn map_of(ids: Seq<String>, ws: Seq<Window>) -> Map<Seq<char>, Window>
    decreases ids.len(),
{
    if ids.len() == 0 || ws.len() == 0 {
        Map::empty()
    } else {
        map_of(ids.drop_last(), ws.drop_last()).insert(ids.last()@, ws.last())
    }
}

/// A key that occurs nowhere in `ids` is absent from the mapping.
proof fn lemma_map_of_absent(ids: Seq<String>, ws: Seq<Window>, k: Seq<char>)
    requires
        ids.len() == ws.len(),
        forall|i: int| 0 <= i < ids.len() ==> ids[i]@ != k,
    ensures
        !map_of(ids, ws).contains_key(k),
    decreases ids.len(),
{
    if ids.len() > 0 {
        lemma_map_of_absent(ids.drop_last(), ws.drop_last(), k);
    }
}

/// Entry `i` of distinct parallel sequences is present in the mapping,
/// with exactly its window.
proof fn lemma_map_of_index(ids: Seq<String>, ws: Seq<Window>, i: int)
    requires
        ids.len() == ws.len(),
        forall|x: int, y: int| 0 <= x < y < ids.len() ==> ids[x]@ != ids[y]@,
        0 <= i < ids.len(),
    ensures
        map_of(ids, ws).contains_key(ids[i]@),
        map_of(ids, ws)[ids[i]@] == ws[i],
    decreases ids.len(),
{
    if i < ids.len() - 1 {
        lemma_map_of_index(ids.drop_last(), ws.drop_last(), i);
    }
}

/// Replacing the window at entry `i` updates the mapping at its key and
/// nothing else.
proof fn lemma_map_of_update(ids: Seq<String>, ws: Seq<Window>, i: int, w: Window)
    requires
        ids.len() == ws.len(),
        forall|x: int, y: int| 0 <= x < y < ids.len() ==> ids[x]@ != ids[y]@,
        0 <= i < ids.len(),
    ensures
        map_of(ids, ws.update(i, w)) =~= map_of(ids, ws).insert(ids[i]@, w),
    decreases ids.len(),
{
    let last = ids.len() - 1;
    if i == last {
        assert(ws.update(i, w).drop_last() =~= ws.drop_last());
        assert(ws.update(i, w).last() == w);
    } else {
        assert(ws.update(i, w).drop_last() =~= ws.drop_last().update(i, w));
        assert(ws.update(i, w).last() == ws.last());
        lemma_map_of_update(ids.drop_last(), ws.drop_last(), i, w);
        lemma_map_of_index(ids, ws, i);
    }
}

/// The keyed store of one window per instrument: each validated tick is
/// routed to its instrument's window, and a completed-window result comes
/// back only on a tumble.
pub struct WindowManager {
    ids: Vec<String>,
    windows: Vec<Window>,
}

impl View for WindowManager {
    type V = Map<Seq<char>, Window>;

    closed spec fn view(&self) -> Map<Seq<char>, Window> {
        map_of(self.ids@, self.windows@)
    }
}

impl WindowManager {
    /// One window per key, every window well formed.
    pub closed spec fn wf(self) -> bool {
        &&& self.ids@.len() == self.windows@.len()
        &&& forall|x: int, y: int|
            0 <= x < y < self.ids@.len() ==> self.ids@[x]@ != self.ids@[y]@
        &&& forall|i: int| 0 <= i < self.windows@.len() ==> (#[trigger] self.windows@[i]).wf()
    }

    /// Every window the manager holds is well formed.
    pub proof fn lemma_entries_wf(&self, k: Seq<char>)
        requires
            self.wf(),
            self@.contains_key(k),
        ensures
            self@[k].wf(),
    {
        lemma_map_of_wf_rec(self.ids@, self.windows@, k);
    }

    /// An empty manager: no instrument has a window yet.
    pub fn new() -> (m: WindowManager)
        ensures
            m.wf(),
            m@ == Map::<Seq<char>, Window>::empty(),
    {
        WindowManager { ids: Vec::new(), windows: Vec::new() }
    }

    /// The index of `id`'s entry, if the instrument has one.
    fn find_index(&self, id: &String) -> (r: Option<usize>)
        requires
            self.wf(),
        ensures
            match r {
                Some(i) => i < self.ids@.len() && self.ids@[i as int]@ == id@,
                None => forall|i: int| 0 <= i < self.ids@.len() ==> self.ids@[i]@ != id@,
            },
    {
        let n = self.ids.len();
        let mut i: usize = 0;
        while i < n
            invariant
                i <= n,
                n == self.ids@.len(),
                forall|j: int| 0 <= j < i ==> self.ids@[j]@ != id@,
            decreases n - i,
        {
            if self.ids[i].eq(id) {
                return Some(i);
            }
            i = i + 1;
        }
        None
    }

    /// Routes one validated tick to its instrument's window.
    ///
    /// A first tick opens the window, aligned to the nearest multiple of
    /// [`WINDOW_PERIOD`]; a tick before the window's start is dropped; a
    /// tick inside the interval accumulates; a tick at or past the end
    /// tumbles the window and yields the closed window's result bundle.
    /// Only the bundle's wall-clock stamps are left unspecified: they are
    /// read from the clock around the tumble computation.
    pub fn update(&mut self, tick_event: TickEvent) -> (r: Option<InfluxResults>)
        requires
            old(self).wf(),
            tick_event.last is Some,
            tick_event.trading_timestamp is Some,
            0 <= tick_event.trading_timestamp.unwrap() <= MAX_TICK_TIME,
            tick_event.last.unwrap() <= MAX_PRICE,
            old(self)@.contains_key(tick_event.id@) ==> (old(self)@[tick_event.id@].movements
                < u32::MAX && old(self)@[tick_event.id@].sequence_number < u32::MAX),
        ensures
            final(self).wf(),
            ({
                let k = tick_event.id@;
                let t = tick_event.trading_timestamp.unwrap();
                let p = tick_event.last.unwrap();
                let new_start = align_spec(t as int, WINDOW_PERIOD as int) as i64;
                if !old(self)@.contains_key(k) {
                    &&& final(self)@ == old(self)@.insert(k, Window::new_spec(new_start, p))
                    &&& r is None
                } else {
                    let w = old(self)@[k];
                    if t < w.start_time {
                        &&& final(self)@ == old(self)@
                        &&& r is None
                    } else if t < w.end_time {
                        &&& final(self)@ == old(self)@.insert(k, w.accumulate_spec(p))
                        &&& r is None
                    } else {
                        &&& final(self)@ == old(self)@.insert(k, w.tumble_spec(new_start, p))
                        &&& (r matches Some(res) && tumble_result_matches(
                            res,
                            w,
                            k,
                            tick_event.equity_type@,
                            t,
                            p,
                        ))
                    }
                }
            }),
    {
        let trading_timestamp = tick_event.trading_timestamp.unwrap();
        let last = tick_event.last.unwrap();
        proof {
            lemma_align_bounds(trading_timestamp as int, WINDOW_PERIOD as int);
        }
        match self.find_index(&tick_event.id) {
            None => {
                let start = round_down(trading_timestamp, WINDOW_PERIOD);
                let w = Window::new(start, last);
                proof {
                    lemma_map_of_absent(self.ids@, self.windows@, tick_event.id@);
                }
                self.ids.push(tick_event.id);
                self.windows.push(w);
                proof {
                    assert(self.ids@.drop_last() =~= old(self).ids@);
                    assert(self.windows@.drop_last() =~= old(self).windows@);
                    assert(self@ =~= old(self)@.insert(tick_event.id@, w));
                }
                None
            },
            Some(i) => {
                let w = self.windows[i];
                proof {
                    lemma_map_of_index(self.ids@, self.windows@, i as int);
                }
                if trading_timestamp < w.start_time {
                    return None;
                }
                if trading_timestamp < w.end_time {
                    let mut w2 = w;
                    w2.accumulate(last);
                    self.windows[i] = w2;
                    proof {
                        lemma_map_of_update(self.ids@, old(self).windows@, i as int, w2);
                    }
                    None
                } else {
                    let start_ms = now_millis();
                    let window_first = w.first;
                    let window_last = w.last;
                    let window_max = if last > w.max {
                        last
                    } else {
                        w.max
                    };
                    let window_min = if last < w.min {
                        last
                    } else {
                        w.min
                    };
                    let movements = w.movements;
                    let window_start_time = w.start_time;
                    let mut w2 = w;
                    let new_start = round_down(trading_timestamp, WINDOW_PERIOD);
                    let breakout = w2.tumble(new_start, last);
                    self.windows[i] = w2;
                    proof {
                        lemma_map_of_update(self.ids@, old(self).windows@, i as int, w2);
                    }
                    let mut result = InfluxResults::new(
                        tick_event.id,
                        window_start_time,
                        tick_event.equity_type,
                        &w2,
                        window_first,
                        window_last,
                        window_max,
                        window_min,
                        breakout,
                        movements,
                    );
                    result.record_window_start(start_ms);
                    result.record_window_end(now_millis());
                    Some(result)
                }
            },
        }
    }

    /// A copy of the instrument's current window, if it has one.
    pub fn get(&self, id: &String) -> (r: Option<Window>)
        requires
            self.wf(),
        ensures
            r == (if self@.contains_key(id@) {
                Some(self@[id@])
            } else {
                None::<Window>
            }),
    {
        match self.find_index(id) {
            Some(i) => {
                proof {
                    lemma_map_of_index(self.ids@, self.windows@, i as int);
                }
                Some(self.windows[i])
            },
            None => {
                proof {
                    lemma_map_of_absent(self.ids@, self.windows@, id@);
                }
                None
            },
        }
    }
}

/// Helper for [`WindowManager::lemma_entries_wf`]: a looked-up window of
/// distinct, elementwise well-formed parallel sequences is well formed.
proof fn lemma_map_of_wf_rec(ids: Seq<String>, ws: Seq<Window>, k: Seq<char>)
    requires
        ids.len() == ws.len(),
        forall|i: int| 0 <= i < ws.len() ==> (#[trigger] ws[i]).wf(),
        map_of(ids, ws).contains_key(k),
    ensures
        map_of(ids, ws)[k].wf(),
    decreases ids.len(),
{
    if ids.len() > 0 {
        let last = ids.len() - 1;
        if k == ids[last]@ {
            assert(map_of(ids, ws)[k] == ws[last]);
        } else {
            lemma_map_of_wf_rec(ids.drop_last(), ws.drop_last(), k);
        }
    }
}

} // verus!
