use librebooks_core::duration::Duration;
use librebooks_core::metadata::{Chapter, Metadata};
use librebooks_core::player::{resolve_seek, SeekDirection};

fn secs(s: u64) -> Duration {
    Duration::from_millis(s * 1000)
}

fn chapter(title: &str, start_secs: u64, end_secs: u64) -> Chapter {
    Chapter { title: String::from(title), start: secs(start_secs), end: secs(end_secs) }
}

/// Two adjacent chapters: [0, 600] and [600, 1200] seconds.
fn two_chapter_book() -> Metadata {
    Metadata {
        path: String::from("book.mp3"),
        title: String::from("A Book"),
        artist: String::from("Someone"),
        duration: secs(1200),
        chapters: vec![chapter("Intro", 0, 600), chapter("One", 600, 1200)],
    }
}

#[test]
fn chapter_at_before_boundary() {
    let m = two_chapter_book();
    assert_eq!(m.chapter_index_at(secs(599)), Some(0));
    assert_eq!(m.chapter_at(secs(599)).unwrap().title, "Intro");
}

#[test]
fn chapter_at_shared_boundary_goes_to_the_earlier_chapter() {
    // 600 lies in both chapters (boundaries are inclusive); the first
    // matching chapter in sequence order wins.
    let m = two_chapter_book();
    assert_eq!(m.chapter_index_at(secs(600)), Some(0));
}

#[test]
fn chapter_at_outside_every_chapter() {
    let m = two_chapter_book();
    assert_eq!(m.chapter_index_at(secs(1201)), None);
    assert!(m.chapter_at(secs(1201)).is_none());
}

#[test]
fn chapter_at_on_an_empty_book() {
    let m = Metadata::empty();
    assert_eq!(m.chapter_index_at(secs(0)), None);
}

#[test]
fn next_chapter_targets_current_end() {
    let m = two_chapter_book();
    assert_eq!(m.next_chapter(secs(300)), Some(secs(600)));
    assert_eq!(m.next_chapter(secs(700)), Some(secs(1200)));
    assert_eq!(m.next_chapter(secs(1500)), None);
}

#[test]
fn previous_chapter_near_start_jumps_one_back() {
    // Five seconds into the chapter starting at 600: retarget to the
    // chapter ten seconds before that start, i.e. the first chapter.
    let m = two_chapter_book();
    assert_eq!(m.previous_chapter(secs(605)), Some(secs(0)));
}

#[test]
fn previous_chapter_far_in_restarts_it() {
    // Fifty seconds into the chapter starting at 600: restart it.
    let m = two_chapter_book();
    assert_eq!(m.previous_chapter(secs(650)), Some(secs(600)));
}

#[test]
fn previous_chapter_at_the_very_start_of_the_book() {
    // Five seconds into the first chapter: ten seconds back saturates at
    // zero, which the first chapter contains, so it restarts.
    let m = two_chapter_book();
    assert_eq!(m.previous_chapter(secs(5)), Some(secs(0)));
}

#[test]
fn previous_chapter_outside_every_chapter() {
    let m = two_chapter_book();
    assert_eq!(m.previous_chapter(secs(1500)), None);
}

#[test]
fn chapter_progress_reports_elapsed_and_length() {
    let m = two_chapter_book();
    let (elapsed, length) = m.chapter_progress(secs(650)).unwrap();
    assert_eq!(elapsed, secs(50));
    assert_eq!(length, secs(600));
    // The presentation layer derives its fraction from the parts.
    let fraction = elapsed.millis as f64 / length.millis as f64;
    assert!((fraction - 50.0 / 600.0).abs() < 1e-9);
    assert!(m.chapter_progress(secs(1500)).is_none());
}

#[test]
fn resolve_seek_clamps_at_both_ends() {
    let pos = secs(30);
    assert_eq!(resolve_seek(pos, SeekDirection::Forward(secs(10))), secs(40));
    assert_eq!(resolve_seek(pos, SeekDirection::Backward(secs(10))), secs(20));
    assert_eq!(resolve_seek(pos, SeekDirection::At(secs(90))), secs(90));
    // Skipping back past the start lands on zero.
    assert_eq!(
        resolve_seek(secs(3), SeekDirection::Backward(secs(10))),
        Duration::from_millis(0)
    );
    // Skipping forward saturates instead of wrapping.
    assert_eq!(
        resolve_seek(Duration::from_millis(u64::MAX), SeekDirection::Forward(secs(1))),
        Duration::from_millis(u64::MAX)
    );
}

#[test]
fn clock_parts_wrap_at_one_day() {
    assert_eq!(secs(3661).clock_parts(), (1, 1, 1));
    assert_eq!(secs(0).clock_parts(), (0, 0, 0));
    assert_eq!(Duration::from_millis(59_999).clock_parts(), (0, 0, 59));
    assert_eq!(secs(90_000).clock_parts(), (1, 0, 0));
}

#[test]
fn nanosecond_conversions() {
    assert_eq!(secs(1).to_nanos(), Some(1_000_000_000));
    assert_eq!(Duration::from_millis(u64::MAX).to_nanos(), None);
    assert_eq!(Duration::from_nanos(1_500_000).millis, 1);
    assert_eq!(Duration::from_nanos(999_999).millis, 0);
}
