use arcade_core::decimal::decimal_string;
use arcade_core::systems::time_metrics::TimeMessage;
use arcade_core::systems::time_metrics::TimeMessageChannel;
use arcade_core::systems::time_metrics::TimeMetricsWrapperSystem;
use arcade_core::systems::time_metrics::TimeMetricsWriterSystem;
use std::time::Duration;
use std::time::Instant;

fn message(name: &'static str, start: u128, end: u128) -> TimeMessage {
    TimeMessage { name, start, end }
}

#[test]
fn a_channel_takes_exactly_its_capacity() {
    let mut channel = TimeMessageChannel::new(3);
    assert_eq!(channel.try_push_offsets("a", 1, 2), None);
    assert_eq!(channel.try_push_offsets("b", 3, 4), None);
    assert_eq!(channel.try_push_offsets("c", 5, 6), None);
    assert_eq!(channel.try_push_offsets("d", 7, 8), Some(message("d", 7, 8)));
    assert_eq!(channel.try_push_offsets("e", 9, 9), Some(message("e", 9, 9)));
    assert_eq!(
        channel.drain(),
        vec![message("a", 1, 2), message("b", 3, 4), message("c", 5, 6)]
    );
}

#[test]
fn a_channel_of_one() {
    let mut channel = TimeMessageChannel::new(1);
    channel.push_offsets("only", 10, 20);
    assert_eq!(channel.try_push_offsets("more", 30, 40), Some(message("more", 30, 40)));
    assert_eq!(channel.pop(), Some(message("only", 10, 20)));
    assert_eq!(channel.pop(), None);
    channel.push_offsets("next", 50, 60);
    assert_eq!(channel.pop(), Some(message("next", 50, 60)));
}

#[test]
fn popping_gives_each_message_once_and_oldest_first() {
    let mut channel = TimeMessageChannel::new(100);
    for i in 0..100u128 {
        channel.push_offsets("system", i, i + 1);
    }
    for i in 0..100u128 {
        let popped = channel.pop().unwrap();
        assert_eq!(popped, message("system", i, i + 1));
        assert!(popped.end >= popped.start);
    }
    assert_eq!(channel.pop(), None);
    assert_eq!(channel.pop(), None);
}

#[test]
fn room_comes_back_as_messages_leave() {
    let mut channel = TimeMessageChannel::new(2);
    channel.push_offsets("a", 0, 1);
    channel.push_offsets("b", 1, 2);
    assert_eq!(channel.pop(), Some(message("a", 0, 1)));
    channel.push_offsets("c", 2, 3);
    assert_eq!(channel.try_push_offsets("d", 3, 4), Some(message("d", 3, 4)));
    assert_eq!(channel.pop(), Some(message("b", 1, 2)));
    assert_eq!(channel.pop(), Some(message("c", 2, 3)));
    assert_eq!(channel.pop(), None);
    for round in 0..10u128 {
        channel.push_offsets("x", round, round);
        channel.push_offsets("y", round, round + 1);
        assert_eq!(channel.drain(), vec![message("x", round, round), message("y", round, round + 1)]);
    }
}

#[test]
fn a_new_channel_is_empty() {
    let mut channel = TimeMessageChannel::new(4);
    assert_eq!(channel.pop(), None);
    assert_eq!(channel.drain(), vec![]);
    let mut large = TimeMessageChannel::new(2_000_000);
    assert_eq!(large.pop(), None);
    for i in 0..2_000_000u128 {
        large.push_offsets("a", i, i);
    }
    assert_eq!(large.try_push_offsets("b", 0, 0), Some(message("b", 0, 0)));
    assert_eq!(large.pop(), Some(message("a", 0, 0)));
}

#[test]
fn times_are_counted_from_the_given_baseline() {
    let baseline = Instant::now();
    let mut channel = TimeMessageChannel::with_baseline(3, baseline);
    channel.push_message("at_once", baseline, baseline);
    channel.push_message(
        "later",
        baseline + Duration::from_micros(40),
        baseline + Duration::from_nanos(2_500_999),
    );
    assert_eq!(channel.pop(), Some(message("at_once", 0, 0)));
    assert_eq!(channel.pop(), Some(message("later", 40, 2_500)));
    let later = baseline + Duration::from_secs(1);
    let mut shifted = TimeMessageChannel::with_baseline(1, later);
    shifted.push_message("before", baseline, later + Duration::from_micros(7));
    assert_eq!(shifted.pop(), Some(message("before", 0, 7)));
}

#[test]
fn pushing_and_popping_leave_the_baseline_alone() {
    let baseline = Instant::now();
    let mut channel = TimeMessageChannel::with_baseline(2, baseline);
    let at = baseline + Duration::from_millis(3);
    for _ in 0..5 {
        channel.push_message("a", at, at);
        channel.push_offsets("b", 1, 2);
        assert_eq!(channel.try_push_message("c", at, at), Some(message("c", 3_000, 3_000)));
        assert_eq!(channel.pop(), Some(message("a", 3_000, 3_000)));
        assert_eq!(channel.drain(), vec![message("b", 1, 2)]);
    }
}

#[test]
fn a_run_that_ends_before_it_starts_is_recorded_as_it_is() {
    let baseline = Instant::now();
    let mut channel = TimeMessageChannel::with_baseline(1, baseline);
    let start = baseline + Duration::from_millis(2);
    let end = baseline + Duration::from_millis(1);
    channel.push_message("backwards", start, end);
    assert_eq!(channel.pop(), Some(message("backwards", 2_000, 1_000)));
}

#[test]
fn instants_are_counted_from_the_making_of_the_channel() {
    let before = Instant::now();
    let mut channel = TimeMessageChannel::new(2);
    let start = Instant::now() + Duration::from_micros(1_500);
    let end = start + Duration::from_micros(1_250);
    channel.push_message("collision_system", start, end);
    assert_eq!(channel.try_push_message("early", before, before), None);
    assert_eq!(
        channel.try_push_message("late", start, end).map(|refused| refused.name),
        Some("late")
    );
    let first = channel.pop().unwrap();
    assert_eq!(first.name, "collision_system");
    assert!(first.start >= 1_500);
    assert_eq!(first.end - first.start, 1_250);
    assert_eq!(channel.pop(), Some(message("early", 0, 0)));
    assert_eq!(channel.pop(), None);
}

#[test]
fn the_wrapper_reports_under_its_name() {
    let system = TimeMetricsWrapperSystem::new(17u8, "marine_animation_system");
    assert_eq!(system.inner, 17);
    assert_eq!(system.name, "marine_animation_system");
    let mut channel = TimeMessageChannel::new(1);
    let start = Instant::now();
    let end = start + Duration::from_millis(2);
    system.run(&mut channel, start, end);
    let refused = system.try_run(&mut channel, start, end).unwrap();
    assert_eq!(refused.name, "marine_animation_system");
    assert_eq!(refused.end - refused.start, 2_000);
    let reported = channel.pop().unwrap();
    assert_eq!(reported.name, "marine_animation_system");
    assert_eq!(reported.end - reported.start, 2_000);
    assert_eq!(system.try_run(&mut channel, start, end), None);
    assert_eq!(channel.drain().len(), 1);
}

#[test]
fn the_writer_turns_every_message_into_a_line() {
    let mut channel = TimeMessageChannel::new(3);
    channel.push_offsets("collision_system", 1500, 2750);
    channel.push_offsets("direction_system", 0, 0);
    channel.push_offsets("camera_motion_system", 999_999, 1_000_000);
    let writer = TimeMetricsWriterSystem::new(Vec::<u8>::new());
    assert!(writer.writer.is_empty());
    let lines = writer.run(&mut channel);
    assert_eq!(
        lines,
        vec![
            String::from("collision_system started=1500 ended=2750"),
            String::from("direction_system started=0 ended=0"),
            String::from("camera_motion_system started=999999 ended=1000000"),
        ]
    );
    assert_eq!(channel.pop(), None);
    assert_eq!(writer.run(&mut channel), Vec::<String>::new());
}

#[test]
fn a_line_holds_name_start_and_end() {
    assert_eq!(message("s", 7, 12).line(), "s started=7 ended=12");
    assert_eq!(message("", 0, 0).line(), " started=0 ended=0");
    assert_eq!(
        message("time_metrics", u128::MAX, u128::MAX).line(),
        "time_metrics started=340282366920938463463374607431768211455 ended=340282366920938463463374607431768211455"
    );
}

#[test]
fn decimal_text_of_numbers() {
    assert_eq!(decimal_string(0), "0");
    assert_eq!(decimal_string(9), "9");
    assert_eq!(decimal_string(10), "10");
    assert_eq!(decimal_string(1234567890), "1234567890");
    assert_eq!(decimal_string(100_000), "100000");
    assert_eq!(decimal_string(u64::MAX as u128), "18446744073709551615");
    assert_eq!(decimal_string(u128::MAX), "340282366920938463463374607431768211455");
    for n in [0u128, 7, 42, 99, 100, 101, 65_535, 1 << 70] {
        assert_eq!(decimal_string(n), n.to_string());
    }
}
