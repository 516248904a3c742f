use downloader::manager::total_size;
use downloader::plan::{offset_segments, range_segments, PlanError};
use downloader::segment::Segment;
use std::sync::Arc;

fn intervals(segments: &Vec<Segment>) -> Vec<(u64, u64)> {
    segments.iter().map(|s| (s.start, s.end)).collect()
}

#[test]
fn ranges_of_2500_bytes_in_chunks_of_1000() {
    let segments = range_segments("http://example.com/file.bin", 2500, 1000);
    assert_eq!(intervals(&segments), vec![(0, 999), (1000, 1999), (2000, 2499)]);
    for segment in &segments {
        assert_eq!(segment.url.as_str(), "http://example.com/file.bin");
    }
}

#[test]
fn ranges_partition_the_resource() {
    for (length, chunk) in [(1u64, 1u64), (10, 3), (9, 3), (7, 10), (1000, 1), (4096, 512)] {
        let segments = range_segments("http://h/x", length, chunk);
        let expected = (length + chunk - 1) / chunk;
        assert_eq!(segments.len() as u64, expected);
        assert_eq!(segments[0].start, 0);
        assert_eq!(segments[segments.len() - 1].end, length - 1);
        for i in 0..segments.len() {
            let i64 = i as u64;
            assert_eq!(segments[i].start, i64 * chunk);
            assert_eq!(segments[i].end, std::cmp::min((i64 + 1) * chunk - 1, length - 1));
            if i + 1 < segments.len() {
                assert_eq!(segments[i + 1].start, segments[i].end + 1);
            }
        }
    }
}

#[test]
fn ranges_of_an_empty_resource() {
    assert!(range_segments("http://h/x", 0, 1000).is_empty());
}

#[test]
fn ranges_of_a_resource_shorter_than_a_chunk() {
    let segments = range_segments("http://h/x", 800, 1000);
    assert_eq!(intervals(&segments), vec![(0, 799)]);
}

#[test]
fn ranges_of_a_whole_number_of_chunks() {
    let segments = range_segments("http://h/x", 3000, 1000);
    assert_eq!(intervals(&segments), vec![(0, 999), (1000, 1999), (2000, 2999)]);
}

#[test]
fn ranges_near_the_end_of_the_address_space() {
    let segments = range_segments("http://h/x", u64::MAX, u64::MAX - 1);
    assert_eq!(intervals(&segments), vec![(0, u64::MAX - 2), (u64::MAX - 1, u64::MAX - 1)]);
}

#[test]
fn planning_twice_gives_the_same_segments() {
    let first = range_segments("http://h/x", 123_456, 1000);
    let second = range_segments("http://h/x", 123_456, 1000);
    assert_eq!(intervals(&first), intervals(&second));
    assert_eq!(first.len(), 124);
    for (a, b) in first.iter().zip(second.iter()) {
        assert_eq!(a.url.as_str(), b.url.as_str());
    }
}

#[test]
fn offsets_are_running_sums() {
    let urls = vec!["http://h/1.ts".to_string(), "http://h/2.ts".to_string(), "http://cdn/3.ts".to_string()];
    let sizes = vec![Some(100), Some(200), Some(300)];
    let segments = offset_segments(&urls, &sizes).unwrap();
    assert_eq!(intervals(&segments), vec![(0, 99), (100, 299), (300, 599)]);
    assert_eq!(segments[0].url.as_str(), "http://h/1.ts");
    assert_eq!(segments[1].url.as_str(), "http://h/2.ts");
    assert_eq!(segments[2].url.as_str(), "http://cdn/3.ts");
    assert_eq!(total_size(&segments), Some(600));
}

#[test]
fn offsets_skip_entries_of_unknown_size() {
    let urls = vec!["a".to_string(), "b".to_string(), "c".to_string()];
    let sizes = vec![Some(10), None, Some(5)];
    let segments = offset_segments(&urls, &sizes).unwrap();
    assert_eq!(intervals(&segments), vec![(0, 9), (10, 14)]);
    assert_eq!(segments[1].url.as_str(), "c");
}

#[test]
fn offsets_skip_entries_of_size_zero() {
    let urls = vec!["a".to_string(), "b".to_string(), "c".to_string()];
    let sizes = vec![Some(0), Some(7), Some(0)];
    let segments = offset_segments(&urls, &sizes).unwrap();
    assert_eq!(intervals(&segments), vec![(0, 6)]);
    assert_eq!(segments[0].url.as_str(), "b");
}

#[test]
fn offsets_pair_entries_by_position() {
    let urls = vec!["a".to_string(), "b".to_string(), "c".to_string()];
    let sizes = vec![Some(1), Some(2)];
    let segments = offset_segments(&urls, &sizes).unwrap();
    assert_eq!(intervals(&segments), vec![(0, 0), (1, 2)]);
    let none = offset_segments(&Vec::new(), &sizes).unwrap();
    assert!(none.is_empty());
}

#[test]
fn offsets_beyond_64_bits_are_refused() {
    let urls = vec!["a".to_string(), "b".to_string()];
    let sizes = vec![Some(u64::MAX), Some(1)];
    assert_eq!(offset_segments(&urls, &sizes).err(), Some(PlanError::TooLarge));
    let late = vec![Some(1), Some(u64::MAX)];
    assert_eq!(offset_segments(&urls, &late).err(), Some(PlanError::TooLarge));
    let fitting = vec![Some(u64::MAX)];
    let segments = offset_segments(&urls, &fitting).unwrap();
    assert_eq!(intervals(&segments), vec![(0, u64::MAX - 1)]);
    let exact = vec![Some(u64::MAX - 1), Some(1)];
    let segments = offset_segments(&urls, &exact).unwrap();
    assert_eq!(intervals(&segments), vec![(0, u64::MAX - 2), (u64::MAX - 1, u64::MAX - 1)]);
}

#[test]
fn total_size_adds_up_the_sizes() {
    let url = Arc::new("u".to_string());
    let segments = vec![Segment::new(url.clone(), 0, 9), Segment::new(url.clone(), 20, 24)];
    assert_eq!(total_size(&segments), Some(15));
    assert_eq!(total_size(&Vec::new()), Some(0));
}

#[test]
fn total_size_refuses_what_does_not_fit() {
    let url = Arc::new("u".to_string());
    let backwards = vec![Segment::new(url.clone(), 5, 4)];
    assert_eq!(total_size(&backwards), None);
    let huge = vec![Segment::new(url.clone(), 0, u64::MAX)];
    assert_eq!(total_size(&huge), None);
    let two = vec![Segment::new(url.clone(), 0, u64::MAX - 1), Segment::new(url.clone(), 0, 0)];
    assert_eq!(total_size(&two), None);
}
