//! Behavioural tests for the validator, the window state machine and the
//! per-instrument manager.

use consumer::tick::TickEvent;
use consumer::window::{round_down, ema_advance, Window, WindowManager, WINDOW_PERIOD};
use consumer::influx::BreakoutType;

fn tick(id: &str, price: u64, time: i64) -> TickEvent {
    TickEvent {
        last: Some(price),
        trading_timestamp: Some(time),
        id: id.to_string(),
        equity_type: "stock".to_string(),
    }
}

#[test]
fn valid_tick_accepted() {
    assert!(tick("A", 10, 1_000).is_valid());
}

#[test]
fn missing_price_rejected() {
    let t = TickEvent {
        last: None,
        trading_timestamp: Some(1_000),
        id: "A".to_string(),
        equity_type: "stock".to_string(),
    };
    assert!(!t.is_valid());
}

#[test]
fn missing_timestamp_rejected() {
    let t = TickEvent {
        last: Some(10),
        trading_timestamp: None,
        id: "A".to_string(),
        equity_type: "stock".to_string(),
    };
    assert!(!t.is_valid());
}

#[test]
fn midnight_timestamp_rejected() {
    assert!(!tick("A", 10, 0).is_valid());
    assert!(!tick("A", 10, 86_400_000).is_valid());
    assert!(!tick("A", 10, 7 * 86_400_000).is_valid());
    assert!(!tick("A", 10, -86_400_000).is_valid());
}

#[test]
fn near_midnight_timestamp_accepted() {
    assert!(tick("A", 10, 1).is_valid());
    assert!(tick("A", 10, 86_399_999).is_valid());
    assert!(tick("A", 10, -1).is_valid());
}

#[test]
fn round_down_exact_values() {
    assert_eq!(round_down(0, 300_000), 0);
    assert_eq!(round_down(149_999, 300_000), 0);
    assert_eq!(round_down(150_000, 300_000), 300_000);
    assert_eq!(round_down(310_000, 300_000), 300_000);
    assert_eq!(round_down(450_000, 300_000), 600_000);
}

#[test]
fn ema_advance_exact_values() {
    assert_eq!(ema_advance(9, (0, 0)), (461_538, 178_217));
    assert_eq!(ema_advance(10, (461_538, 178_217)), (950_689, 372_707));
}

#[test]
fn window_new_starts_from_creating_price() {
    let w = Window::new(0, 42);
    assert_eq!(w.start_time, 0);
    assert_eq!(w.end_time, WINDOW_PERIOD);
    assert_eq!(w.first, 42);
    assert_eq!(w.last, 42);
    assert_eq!(w.max, 42);
    assert_eq!(w.min, 42);
    assert_eq!(w.movements, 0);
    assert_eq!(w.sequence_number, 0);
    assert_eq!(w.current_emas, (0, 0));
}

#[test]
fn two_in_window_ticks_fold_into_aggregates() {
    let mut m = WindowManager::new();
    assert!(m.update(tick("A", 10, 1_000)).is_none());
    assert!(m.update(tick("A", 15, 2_000)).is_none());
    assert!(m.update(tick("A", 7, 3_000)).is_none());
    let w = m.get(&"A".to_string()).unwrap();
    assert_eq!(w.max, 15);
    assert_eq!(w.min, 7);
    assert_eq!(w.last, 7);
    assert_eq!(w.first, 10);
    assert_eq!(w.movements, 2);
}

#[test]
fn late_tick_mutates_nothing() {
    let mut m = WindowManager::new();
    // alignment rounds half-up: this window starts after its creating tick
    assert!(m.update(tick("A", 10, 160_000)).is_none());
    let before = m.get(&"A".to_string()).unwrap();
    assert_eq!(before.start_time, 300_000);
    assert!(m.update(tick("A", 99, 200_000)).is_none());
    let after = m.get(&"A".to_string()).unwrap();
    assert_eq!(before, after);
}

#[test]
fn first_tumble_never_yields_breakout() {
    let mut w = Window::new(0, 10);
    // a crossing EMA constellation, but sequence_number is still zero
    w.current_emas = (1_000, 1_000);
    let r = w.tumble(300_000, 0);
    assert!(r.is_none());
    assert_eq!(w.sequence_number, 1);
}

#[test]
fn bearish_crossover_detected() {
    let mut w = Window::new(0, 10);
    w.current_emas = (1_000, 1_000);
    w.sequence_number = 1;
    let r = w.tumble(300_000, 0);
    // new pair (948, 980): short fell strictly below long
    let (direction, previous) = r.unwrap();
    assert_eq!(direction, BreakoutType::Bearish);
    assert_eq!(previous, (1_000, 1_000));
    assert_eq!(w.current_emas, (948, 980));
}

#[test]
fn bullish_crossover_detected() {
    let mut w = Window::new(0, 10);
    w.current_emas = (1_000, 1_000);
    w.sequence_number = 1;
    let r = w.tumble(300_000, 1);
    // new pair (52230, 20782): short rose strictly above long
    let (direction, previous) = r.unwrap();
    assert_eq!(direction, BreakoutType::Bullish);
    assert_eq!(previous, (1_000, 1_000));
    assert_eq!(w.current_emas, (52_230, 20_782));
}

#[test]
fn equal_emas_on_both_sides_no_crossover() {
    let mut w = Window::new(0, 10);
    w.current_emas = (0, 0);
    w.sequence_number = 1;
    // price 0 keeps both accumulators at exactly zero: no strict cross
    let r = w.tumble(300_000, 0);
    assert!(r.is_none());
    assert_eq!(w.current_emas, (0, 0));
}

#[test]
fn tumble_resets_window_state() {
    let mut w = Window::new(0, 10);
    w.max = 20;
    w.min = 5;
    w.movements = 7;
    let r = w.tumble(300_000, 13);
    assert!(r.is_none());
    assert_eq!(w.start_time, 300_000);
    assert_eq!(w.end_time, 600_000);
    assert_eq!(w.first, 13);
    assert_eq!(w.last, 13);
    assert_eq!(w.max, 13);
    assert_eq!(w.min, 13);
    assert_eq!(w.movements, 0);
    assert_eq!(w.sequence_number, 1);
}

#[test]
fn idle_window_never_completes() {
    // no tick ever passes the window's end: no result is produced and the
    // window silently holds its incomplete state
    let mut m = WindowManager::new();
    assert!(m.update(tick("A", 10, 1_000)).is_none());
    assert!(m.update(tick("A", 11, 299_999)).is_none());
    let w = m.get(&"A".to_string()).unwrap();
    assert_eq!(w.sequence_number, 0);
    assert_eq!(w.movements, 1);
}

#[test]
fn manager_isolates_instruments() {
    let mut m = WindowManager::new();
    assert!(m.update(tick("A", 10, 1_000)).is_none());
    assert!(m.update(tick("B", 50, 1_000)).is_none());
    assert!(m.update(tick("A", 11, 2_000)).is_none());
    let a = m.get(&"A".to_string()).unwrap();
    let b = m.get(&"B".to_string()).unwrap();
    assert_eq!(a.last, 11);
    assert_eq!(a.movements, 1);
    assert_eq!(b.last, 50);
    assert_eq!(b.movements, 0);
    assert!(m.get(&"C".to_string()).is_none());
}

#[test]
fn end_to_end_example() {
    // instrument "X", ticks (10, t=0), (12, t=150000), (9, t=310000)
    let mut m = WindowManager::new();
    assert!(m.update(tick("X", 10, 0)).is_none());
    assert!(m.update(tick("X", 12, 150_000)).is_none());
    let res = m.update(tick("X", 9, 310_000)).unwrap();
    assert_eq!(res.ema.id, "X");
    assert_eq!(res.ema.equity_type, "stock");
    assert_eq!(res.ema.first, 10);
    assert_eq!(res.ema.last, 12);
    assert_eq!(res.ema.max, 12);
    // the tumble-triggering tick's price folds into the closed window's min
    assert_eq!(res.ema.min, 9);
    assert_eq!(res.ema.movements, 1);
    assert_eq!(res.ema.time, 0);
    // no breakout: the sequence number was zero before the tumble
    assert!(res.breakout.is_none());
    // the EMA pair advanced with new_price = 9 and is no longer zero
    assert_eq!(res.ema.calc_38, 461_538);
    assert_eq!(res.ema.calc_100, 178_217);
    assert_eq!(res.perf.id, "X");
    assert_eq!(res.perf.window_number, 1);
    assert_eq!(res.perf.movements, 1);
    assert_eq!(res.perf.influx_write_end, 0);
    // the new window opened at the aligned start with the trigger price
    let w = m.get(&"X".to_string()).unwrap();
    assert_eq!(w.start_time, 300_000);
    assert_eq!(w.first, 9);
    assert_eq!(w.movements, 0);
    assert_eq!(w.sequence_number, 1);
    assert_eq!(w.current_emas, (461_538, 178_217));
}
