use movie_shorts::media::{
    is_mp4_name, is_music_name, parse_dimensions, parse_probed_duration_ms, pick_num_clips,
    validate_duration_range, vertical_canvas,
};
use movie_shorts::music::{cover_target, MusicAssembly};
use movie_shorts::retime::{plan_retime, RetimePlan};

fn bytes(s: &str) -> Vec<u8> {
    s.as_bytes().to_vec()
}

#[test]
fn retime_speed_cap_recenters_window() {
    // A 20 s segment against 8 s of narration: naive speed 2.5 exceeds the
    // 1.75 cap, so the window shrinks to 14 s centred at 110.
    let p = plan_retime(100, 120, 8000).unwrap();
    assert_eq!(p.use_start, 103);
    assert_eq!(p.use_end, 117);
    assert_eq!(p.speed_num, 14000);
    assert_eq!(p.speed_den, 8000);
    // speed == 1.75 exactly
    assert_eq!(p.speed_num * 4, p.speed_den * 7);
}

#[test]
fn retime_under_cap_keeps_window() {
    // 12 s over 10 s: speed 1.2, window untouched.
    let p = plan_retime(50, 62, 10000).unwrap();
    assert_eq!(
        p,
        RetimePlan { use_start: 50, use_end: 62, speed_num: 12000, speed_den: 10000 }
    );
}

#[test]
fn retime_feeding_own_output_back_is_stable() {
    // No cap applies to [50,62] with 10 s narration; feeding the returned
    // window back in reproduces the same plan.
    let p1 = plan_retime(50, 62, 10000).unwrap();
    let p2 = plan_retime(p1.use_start, p1.use_end, 10000).unwrap();
    assert_eq!(p1, p2);
    // The capped case settles after one step too: [103,117] at 8 s is
    // exactly at the cap, so the second pass keeps window and speed.
    let c1 = plan_retime(100, 120, 8000).unwrap();
    let c2 = plan_retime(c1.use_start, c1.use_end, 8000).unwrap();
    assert_eq!(c2.use_start, c1.use_start);
    assert_eq!(c2.use_end, c1.use_end);
    assert_eq!(c2.speed_num * c1.speed_den, c1.speed_num * c2.speed_den);
}

#[test]
fn retime_rejects_empty_segment_and_tiny_narration() {
    assert!(plan_retime(10, 10, 5000).is_none());
    assert!(plan_retime(20, 10, 5000).is_none());
    assert!(plan_retime(10, 20, 100).is_none());
    assert!(plan_retime(10, 20, 101).is_some());
}

#[test]
fn retime_clamps_absurdly_slow_speed() {
    // A 1 s segment against a day of narration: naive speed is far below
    // 0.05, so the hard floor applies.
    let p = plan_retime(4, 5, 86_400_000).unwrap();
    assert_eq!(p.use_start, 4);
    assert_eq!(p.use_end, 5);
    assert_eq!((p.speed_num, p.speed_den), (1, 20));
}

#[test]
fn retime_pts_scale_is_inverse_speed() {
    let p = plan_retime(50, 62, 10000).unwrap();
    assert_eq!(p.pts_scale(), (p.speed_den, p.speed_num));
}

#[test]
fn music_single_short_pool_covers_target() {
    // One 90 s song: 50 s usable past the skip-in, so 130 s of cover takes
    // 50 + 50 + 30.
    let durations = vec![90_000u64];
    let picks = vec![0usize, 0, 0, 0];
    let m = cover_target(130_000, &durations, &picks);
    assert_eq!(m.covered_ms, 130_000);
    assert_eq!(m.fragments.len(), 3);
    assert_eq!(m.fragments[0].offset_ms, 40_000);
    assert_eq!(m.fragments[0].take_ms, 50_000);
    assert_eq!(m.fragments[1].take_ms, 50_000);
    assert_eq!(m.fragments[2].take_ms, 30_000);
}

#[test]
fn music_rejects_short_songs_and_thin_tails() {
    let m = MusicAssembly::new(100_000);
    assert!(m.offer_song(60_000).is_none());
    assert!(m.offer_song(41_000).is_none());
    let (offset, take) = m.offer_song(61_000).unwrap();
    assert_eq!(offset, 40_000);
    assert_eq!(take, 21_000);
}

#[test]
fn music_stops_at_fragment_ceiling() {
    // An unreachable target: assembly stops at exactly 200 fragments.
    let durations = vec![100_000u64];
    let picks = vec![0usize; 250];
    let m = cover_target(100_000_000_000, &durations, &picks);
    assert_eq!(m.fragments.len(), 200);
    assert_eq!(m.covered_ms, 200 * 60_000);
}

#[test]
fn music_epsilon_counts_as_covered() {
    let mut m = MusicAssembly::new(100);
    assert!(m.needs_more());
    let (offset, take) = m.offer_song(90_000).unwrap();
    assert_eq!(take, 100);
    m.commit_fragment(0, offset, take);
    assert!(!m.needs_more());
    assert_eq!(m.covered_ms, 100);
}

#[test]
fn vertical_canvas_is_even_nine_sixteenths() {
    assert_eq!(vertical_canvas(1080), (608, 1080));
    assert_eq!(vertical_canvas(720), (404, 720));
    assert_eq!(vertical_canvas(719), (404, 718));
}

#[test]
fn media_file_classification() {
    assert!(is_mp4_name(&bytes("Movie.MP4")));
    assert!(is_mp4_name(&bytes("a.b.mp4")));
    assert!(!is_mp4_name(&bytes("movie.mp41")));
    assert!(!is_mp4_name(&bytes("mp4")));
    assert!(!is_mp4_name(&bytes(".mp4")));
    assert!(is_music_name(&bytes("song.Mp3")));
    assert!(is_music_name(&bytes("song.M4A")));
    assert!(!is_music_name(&bytes("song.wav")));
}

#[test]
fn clip_count_draw_stays_in_range() {
    for draw in 0u64..40 {
        let n = pick_num_clips(draw);
        assert!((20..=30).contains(&n));
    }
    assert_eq!(pick_num_clips(0), 20);
    assert_eq!(pick_num_clips(10), 30);
    assert_eq!(pick_num_clips(11), 20);
}

#[test]
fn probe_output_parsing() {
    assert_eq!(parse_dimensions(&bytes("1920x1080")), Some((1920, 1080)));
    assert_eq!(parse_dimensions(&bytes("1920x1080x3")), None);
    assert_eq!(parse_dimensions(&bytes("0x1080")), None);
    assert_eq!(parse_dimensions(&bytes("1920")), None);
    assert_eq!(parse_probed_duration_ms(&bytes("4245.706667")), Some(4_245_706));
    assert_eq!(parse_probed_duration_ms(&bytes("12")), Some(12_000));
    assert_eq!(parse_probed_duration_ms(&bytes("0.5")), Some(500));
    assert_eq!(parse_probed_duration_ms(&bytes("0.100")), None);
    assert_eq!(parse_probed_duration_ms(&bytes("N/A")), None);
    assert_eq!(parse_probed_duration_ms(&bytes("")), None);
}

#[test]
fn duration_guidance_range() {
    assert!(!validate_duration_range(149));
    assert!(validate_duration_range(150));
    assert!(validate_duration_range(270));
    assert!(!validate_duration_range(271));
}
