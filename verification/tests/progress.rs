use audio_scan::{mini_player_position, should_report, BATCH_SIZE};

#[test]
fn batch_is_ten_files() {
    assert_eq!(BATCH_SIZE, 10);
}

#[test]
fn report_follows_every_tenth_file() {
    assert!(should_report(100, 10));
    assert!(should_report(100, 20));
    assert!(should_report(5, 30));
    assert!(!should_report(100, 9));
    assert!(!should_report(100, 11));
    assert!(!should_report(100, 1));
}

#[test]
fn report_follows_the_file_that_reaches_the_count() {
    assert!(should_report(7, 7));
    assert!(should_report(1, 1));
    assert!(!should_report(7, 6));
    assert!(!should_report(7, 8));
}

#[test]
fn report_follows_no_file_at_all() {
    assert!(should_report(0, 0));
    assert!(should_report(3, 0));
}

#[test]
fn mini_player_sits_in_the_lower_right_corner() {
    assert_eq!(mini_player_position((1920, 1080), (420, 90)), Some((1480, 930)));
    assert_eq!(mini_player_position((3840, 2160), (840, 180)), Some((2980, 1920)));
}

#[test]
fn mini_player_on_small_screen_goes_beyond_the_edge() {
    assert_eq!(mini_player_position((400, 100), (420, 90)), Some((-40, -50)));
    assert_eq!(mini_player_position((0, 0), (0, 0)), Some((-20, -60)));
}

#[test]
fn mini_player_position_must_fit() {
    assert_eq!(mini_player_position((4294967295, 1080), (0, 90)), None);
    assert_eq!(mini_player_position((0, 1080), (4294967295, 90)), None);
    assert_eq!(mini_player_position((1920, 4294967295), (420, 0)), None);
    assert_eq!(mini_player_position((2147483667, 2147483707), (0, 0)), Some((2147483647, 2147483647)));
    assert_eq!(mini_player_position((2147483668, 2147483707), (0, 0)), None);
    assert_eq!(mini_player_position((0, 0), (2147483628, 2147483588)), Some((-2147483648, -2147483648)));
    assert_eq!(mini_player_position((0, 0), (2147483629, 2147483588)), None);
}
