//! Behavioural tests for the batched sink writer and the result bundle
//! round trip.

use consumer::influx::{
    recombine, Breakout, BreakoutType, EmaResult, InfluxConfig, InfluxResults, Performance,
    SinkWriter,
};
use consumer::cli::PartitionSubcommand;

fn metric(id: &str, seq: u32) -> EmaResult {
    EmaResult {
        time: 300_000 * seq as i64,
        calc_38: 461_538,
        calc_100: 178_217,
        first: 10,
        last: 12,
        max: 12,
        min: 9,
        movements: 1,
        id: id.to_string(),
        equity_type: "stock".to_string(),
    }
}

fn perf(id: &str, seq: u32) -> Performance {
    Performance {
        id: id.to_string(),
        window_number: seq,
        time: 1_000,
        window_creation_start: 10,
        window_creation_end: 20,
        influx_write_end: 0,
        movements: 1,
    }
}

fn bundle(id: &str, seq: u32, with_breakout: bool) -> InfluxResults {
    let breakout = if with_breakout {
        Some(Breakout {
            id: id.to_string(),
            time: 300_000 * seq as i64,
            direction: BreakoutType::Bullish,
            previous: (1_000, 1_000),
            current: (52_230, 20_782),
        })
    } else {
        None
    };
    InfluxResults { ema: metric(id, seq), breakout, perf: perf(id, seq) }
}

#[test]
fn flush_happens_exactly_at_batch_size() {
    let mut writer = SinkWriter::new(InfluxConfig::new(3, 500));
    assert!(writer.on_result(bundle("A", 1, false)).is_none());
    assert!(writer.on_result(bundle("B", 1, true)).is_none());
    let batch = writer.on_result(bundle("C", 1, false)).unwrap();
    assert_eq!(batch.window_writes.len(), 3);
    assert_eq!(batch.breakout_writes.len(), 1);
    assert_eq!(batch.perf_writes.len(), 3);
    assert_eq!(batch.window_writes[0].id, "A");
    assert_eq!(batch.window_writes[1].id, "B");
    assert_eq!(batch.window_writes[2].id, "C");
    assert_eq!(batch.breakout_writes[0].id, "B");
    assert_eq!(batch.perf_writes[0].id, "A");
    assert_eq!(batch.perf_writes[2].id, "C");
    assert!(writer.buffer.is_empty());
    // no further flush before more results arrive
    assert!(writer.on_result(bundle("D", 1, false)).is_none());
}

#[test]
fn timeout_flushes_partial_buffer() {
    let mut writer = SinkWriter::new(InfluxConfig::new(3, 500));
    assert!(writer.on_result(bundle("A", 1, false)).is_none());
    assert!(writer.on_result(bundle("B", 1, false)).is_none());
    let batch = writer.on_timeout().unwrap();
    assert_eq!(batch.window_writes.len(), 2);
    assert_eq!(batch.breakout_writes.len(), 0);
    assert_eq!(batch.perf_writes.len(), 2);
    assert!(writer.buffer.is_empty());
    // exactly one flush: the buffer is empty now, so a timeout is silent
    assert!(writer.on_timeout().is_none());
}

#[test]
fn timeout_with_empty_buffer_is_silent() {
    let mut writer = SinkWriter::new(InfluxConfig::new(3, 500));
    assert!(writer.on_timeout().is_none());
}

#[test]
fn stamp_write_end_marks_every_performance_record() {
    let mut writer = SinkWriter::new(InfluxConfig::new(2, 500));
    assert!(writer.on_result(bundle("A", 1, true)).is_none());
    let mut batch = writer.on_result(bundle("B", 2, false)).unwrap();
    batch.stamp_write_end(777);
    assert_eq!(batch.perf_writes.len(), 2);
    for p in &batch.perf_writes {
        assert_eq!(p.influx_write_end, 777);
    }
    // everything else is untouched
    assert_eq!(batch.perf_writes[0].id, "A");
    assert_eq!(batch.perf_writes[0].window_creation_start, 10);
    assert_eq!(batch.perf_writes[1].id, "B");
    assert_eq!(batch.window_writes.len(), 2);
    assert_eq!(batch.breakout_writes.len(), 1);
}

#[test]
fn split_and_recombine_round_trips_all_fields() {
    let original = bundle("A", 4, true);
    let (ema, breakout, perf) = original.into_query();
    assert_eq!(ema.id, "A");
    assert_eq!(perf.window_number, 4);
    let back = recombine(ema, breakout, perf).unwrap();
    let expected = bundle("A", 4, true);
    assert_eq!(back.ema.id, expected.ema.id);
    assert_eq!(back.ema.equity_type, expected.ema.equity_type);
    assert_eq!(back.ema.time, expected.ema.time);
    assert_eq!(back.ema.calc_38, expected.ema.calc_38);
    assert_eq!(back.ema.calc_100, expected.ema.calc_100);
    assert_eq!(back.ema.first, expected.ema.first);
    assert_eq!(back.ema.last, expected.ema.last);
    assert_eq!(back.ema.max, expected.ema.max);
    assert_eq!(back.ema.min, expected.ema.min);
    assert_eq!(back.ema.movements, expected.ema.movements);
    let b = back.breakout.unwrap();
    let eb = expected.breakout.unwrap();
    assert_eq!(b.id, eb.id);
    assert_eq!(b.time, eb.time);
    assert_eq!(b.direction, eb.direction);
    assert_eq!(b.previous, eb.previous);
    assert_eq!(b.current, eb.current);
    assert_eq!(back.perf.id, expected.perf.id);
    assert_eq!(back.perf.window_number, expected.perf.window_number);
    assert_eq!(back.perf.window_creation_start, expected.perf.window_creation_start);
    assert_eq!(back.perf.window_creation_end, expected.perf.window_creation_end);
    assert_eq!(back.perf.influx_write_end, expected.perf.influx_write_end);
    assert_eq!(back.perf.movements, expected.perf.movements);
}

#[test]
fn recombine_rejects_mismatched_instruments() {
    let a = bundle("A", 1, false);
    let b = bundle("B", 1, false);
    assert!(recombine(a.ema, None, b.perf).is_none());
}

#[test]
fn influx_config_holds_settings() {
    let c = InfluxConfig::new(500, 500);
    assert_eq!(c.batch_size, 500);
    assert_eq!(c.flush_period, 500);
}

#[test]
fn partition_policies_spawn_expected_instance_counts() {
    assert_eq!(PartitionSubcommand::Single.instance_count(), 1);
    assert_eq!(PartitionSubcommand::ByExchange.instance_count(), 3);
    assert_eq!((PartitionSubcommand::Multi { n: 8 }).instance_count(), 8);
}
