use reddit_video::span::Span;
use reddit_video::timeline::{build_timeline, checked_total, TimelineEntry};
use reddit_video::timestamp::{leading_zeros, seconds_chars, timestamp_from_duration};
use reddit_video::voice::Voice;

fn clip(text: &str, duration: Span) -> Voice {
    Voice { text: text.to_string(), bytes: Vec::new(), duration }
}

fn seconds(duration: Span) -> String {
    seconds_chars(duration).into_iter().collect()
}

#[test]
fn span_counts_nanoseconds() {
    assert_eq!(Span::zero(), Span::from_secs(0));
    assert_eq!(Span::from_secs(2), Span::from_millis(2000));
    assert_eq!(Span::new(1, 500_000_000), Span::from_millis(1500));
    assert_eq!(Span::new(1, 2_000_000_000), Span::from_secs(3));
    assert_eq!(Span::new(3, 7).as_secs(), 3);
    assert_eq!(Span::new(3, 7).subsec_nanos(), 7);
    assert_eq!(Span::from_millis(1250).as_secs(), 1);
    assert_eq!(Span::from_millis(1250).subsec_nanos(), 250_000_000);
}

#[test]
fn span_adds_up() {
    assert_eq!(Span::from_secs(2).plus(Span::from_millis(500)), Span::from_millis(2500));
    assert_eq!(
        Span::from_secs(2).checked_add(Span::from_secs(3)),
        Some(Span::from_secs(5))
    );
    assert_eq!(
        Span::new(0, 999_999_999).checked_add(Span::new(0, 1)),
        Some(Span::from_secs(1))
    );
}

#[test]
fn timestamp_of_zero() {
    assert_eq!(timestamp_from_duration(Span::zero()), "0:00:00");
}

#[test]
fn timestamp_of_an_hour_a_minute_and_a_second() {
    assert_eq!(timestamp_from_duration(Span::from_secs(3661)), "1:01:01");
}

#[test]
fn timestamp_pads_minutes_and_seconds_only() {
    assert_eq!(timestamp_from_duration(Span::from_secs(59)), "0:00:59");
    assert_eq!(timestamp_from_duration(Span::from_secs(60)), "0:01:00");
    assert_eq!(timestamp_from_duration(Span::from_secs(3599)), "0:59:59");
    assert_eq!(timestamp_from_duration(Span::from_secs(36_000)), "10:00:00");
    assert_eq!(timestamp_from_duration(Span::from_secs(360_000 + 62)), "100:01:02");
}

#[test]
fn timestamp_drops_what_is_below_a_second() {
    assert_eq!(timestamp_from_duration(Span::from_millis(7_999)), "0:00:07");
}

#[test]
fn leading_zeros_fill_up_short_numbers() {
    assert_eq!(leading_zeros(0, 2), "00");
    assert_eq!(leading_zeros(7, 2), "07");
    assert_eq!(leading_zeros(42, 2), "42");
    assert_eq!(leading_zeros(123, 2), "123");
    assert_eq!(leading_zeros(5, 4), "0005");
    assert_eq!(leading_zeros(5, 0), "5");
}

#[test]
fn seconds_are_written_without_needless_zeros() {
    assert_eq!(seconds(Span::zero()), "0");
    assert_eq!(seconds(Span::from_secs(2)), "2");
    assert_eq!(seconds(Span::from_millis(2500)), "2.5");
    assert_eq!(seconds(Span::from_millis(5)), "0.005");
    assert_eq!(seconds(Span::new(1, 1)), "1.000000001");
    assert_eq!(seconds(Span::new(12, 26_122_448)), "12.026122448");
    assert_eq!(seconds(Span::new(0, 120_000_000)), "0.12");
}

#[test]
fn timeline_accumulates_the_lengths() {
    let voices = vec![
        clip("a", Span::from_millis(1500)),
        clip("b", Span::from_millis(250)),
        clip("c", Span::zero()),
        clip("d", Span::new(4, 1)),
    ];
    let timeline = build_timeline(&voices);
    assert_eq!(
        timeline.entries,
        vec![
            TimelineEntry { start: Span::zero(), end: Span::from_millis(1500) },
            TimelineEntry { start: Span::from_millis(1500), end: Span::from_millis(1750) },
            TimelineEntry { start: Span::from_millis(1750), end: Span::from_millis(1750) },
            TimelineEntry { start: Span::from_millis(1750), end: Span::new(5, 750_000_001) },
        ]
    );
    assert_eq!(timeline.total, Span::new(5, 750_000_001));
    assert_eq!(checked_total(&voices), Some(Span::new(5, 750_000_001)));
}

#[test]
fn timeline_of_no_clips_is_empty() {
    let timeline = build_timeline(&Vec::new());
    assert!(timeline.entries.is_empty());
    assert_eq!(timeline.total, Span::zero());
    assert_eq!(checked_total(&Vec::new()), Some(Span::zero()));
}

#[test]
fn timeline_is_contiguous_and_never_goes_back() {
    let voices: Vec<Voice> =
        (0..20u64).map(|i| clip("x", Span::from_millis(i * 137 % 1000))).collect();
    let timeline = build_timeline(&voices);
    assert_eq!(timeline.entries.len(), voices.len());
    assert_eq!(timeline.entries[0].start, Span::zero());
    for i in 0..voices.len() {
        assert_eq!(timeline.entries[i].start.plus(voices[i].duration), timeline.entries[i].end);
        if i + 1 < voices.len() {
            assert_eq!(timeline.entries[i].end, timeline.entries[i + 1].start);
        }
    }
    assert_eq!(timeline.total, timeline.entries[19].end);
}
