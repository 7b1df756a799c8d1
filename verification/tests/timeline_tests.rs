use std::time::Duration;

use otip::domain::{QuadrantFlags, ScanSegment, TimelineSegment, TimelineSegmentType, VideoId};
use otip::timeline::Timeline;

fn ms(d: Duration) -> u64 {
    d.as_millis() as u64
}

fn explicit(start: Duration, end: Duration, flags: Option<QuadrantFlags>) -> TimelineSegment {
    TimelineSegment {
        start_ms: ms(start),
        end_ms: ms(end),
        segment_type: TimelineSegmentType::ExplicitContent,
        scan_segment: Some(ScanSegment {
            start_ms: ms(start),
            end_ms: ms(end),
            is_explicit: true,
            confidence_pct: 90,
            quadrant_flags: flags,
        }),
    }
}

#[test]
fn test_timeline_basic() {
    let video_id = VideoId::new();
    let duration = Duration::from_secs(100);
    let mut timeline = Timeline::new(video_id, ms(duration));
    let segment = explicit(Duration::from_secs(10), Duration::from_secs(20), Some(QuadrantFlags::new()));
    timeline.add_segment(segment);

    let at_15s = timeline.get_segment_at(ms(Duration::from_secs(15)));
    assert!(at_15s.is_some());
    assert_eq!(at_15s.unwrap().segment_type, TimelineSegmentType::ExplicitContent);

    let at_5s = timeline.get_segment_at(ms(Duration::from_secs(5)));
    assert!(at_5s.is_none());
}

#[test]
fn test_skip_zones() {
    let video_id = VideoId::new();
    let duration = Duration::from_secs(100);
    let mut timeline = Timeline::new(video_id, ms(duration));
    timeline.add_segment(explicit(Duration::from_secs(10), Duration::from_secs(12), None));

    let zones = timeline.get_skip_zones(500);
    assert_eq!(zones.len(), 1);
    assert_eq!(zones[0].0, ms(Duration::from_millis(9500)));
    assert_eq!(zones[0].1, ms(Duration::from_millis(12500)));

    assert!(timeline.is_in_skip_zone(ms(Duration::from_secs(11)), 500));
    assert!(!timeline.is_in_skip_zone(ms(Duration::from_secs(8)), 500));

    let next_safe = timeline.get_next_safe_position(ms(Duration::from_secs(11)), 500);
    assert_eq!(next_safe, Some(ms(Duration::from_millis(12500))));
}

#[test]
fn read_after_write_replaces_same_start() {
    let mut t = Timeline::new(VideoId::from_bits(7), 60_000);
    t.add_segment(explicit(Duration::from_secs(5), Duration::from_secs(6), None));
    let safe = TimelineSegment {
        start_ms: 5_000,
        end_ms: 6_000,
        segment_type: TimelineSegmentType::ScannedSafe,
        scan_segment: None,
    };
    t.add_segment(safe);
    assert_eq!(t.get_all_segments().len(), 1);
    assert_eq!(t.get_segment_at(5_000), Some(safe));
    assert!(t.get_explicit_segments().is_empty());
    assert_eq!(t.video_id(), VideoId::from_bits(7));
    assert_eq!(t.duration(), 60_000);
}

#[test]
fn segments_stay_sorted_and_range_query() {
    let mut t = Timeline::new(VideoId::from_bits(1), 100_000);
    t.add_segments(vec![
        explicit(Duration::from_secs(30), Duration::from_secs(31), None),
        explicit(Duration::from_secs(10), Duration::from_secs(11), None),
        explicit(Duration::from_secs(20), Duration::from_secs(21), None),
    ]);
    let starts: Vec<u64> = t.get_all_segments().iter().map(|s| s.start_ms).collect();
    assert_eq!(starts, vec![10_000, 20_000, 30_000]);
    let mid: Vec<u64> = t.get_segments_in_range(15_000, 30_000).iter().map(|s| s.start_ms).collect();
    assert_eq!(mid, vec![20_000, 30_000]);
    assert_eq!(t.scanned_ms(), 3_000);
}

#[test]
fn skip_zones_merge_and_clip() {
    let mut t = Timeline::new(VideoId::from_bits(1), 20_000);
    t.add_segment(explicit(Duration::from_secs(10), Duration::from_secs(11), None));
    t.add_segment(explicit(Duration::from_millis(11_800), Duration::from_secs(12), None));
    t.add_segment(explicit(Duration::from_millis(19_900), Duration::from_secs(20), None));
    assert_eq!(t.get_skip_zones(500), vec![(9_500, 12_500), (19_400, 20_000)]);
    // The offered safe position is outside every zone.
    let p = t.get_next_safe_position(10_000, 500).unwrap();
    assert_eq!(p, 12_500);
    assert!(!t.is_in_skip_zone(p, 500));
    assert_eq!(t.get_next_safe_position(15_000, 500), None);
}

#[test]
fn segment_at_only_within_a_segment() {
    let mut t = Timeline::new(VideoId::from_bits(3), 100_000);
    t.add_segment(explicit(Duration::from_secs(10), Duration::from_secs(20), None));
    assert_eq!(
        t.get_segment_at(15_000).map(|s| s.segment_type),
        Some(TimelineSegmentType::ExplicitContent)
    );
    assert!(t.get_segment_at(5_000).is_none());
    assert!(t.get_segment_at(20_000).is_none());
    assert!(t.get_segment_at(25_000).is_none());
}

#[test]
fn scanned_total_counts_overlaps_once() {
    let mut t = Timeline::new(VideoId::from_bits(4), 100_000);
    let safe = |a: u64, b: u64| TimelineSegment {
        start_ms: a,
        end_ms: b,
        segment_type: TimelineSegmentType::ScannedSafe,
        scan_segment: None,
    };
    t.add_segment(safe(0, 60_000));
    t.add_segment(safe(30_000, 90_000));
    assert_eq!(t.scanned_ms(), 90_000);
    t.add_segment(safe(95_000, 100_000));
    assert_eq!(t.scanned_ms(), 95_000);
    t.add_segment(TimelineSegment {
        start_ms: 91_000,
        end_ms: 99_000,
        segment_type: TimelineSegmentType::Unknown,
        scan_segment: None,
    });
    assert_eq!(t.scanned_ms(), 95_000);
}
