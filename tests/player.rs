use uta::api::{Data, LoadOutcome, Player};
use uta::env::get_env_mpv_args;
use uta::error::Error;
use uta::text::{parse_i64, parse_u64, split_on_char, words_of};
use uta::tui::{PlaylistItem, Tui, TuiAction, TuiEvent};

fn strings(v: &[&str]) -> Vec<String> {
    v.iter().map(|s| s.to_string()).collect()
}

#[test]
fn volume_is_clamped() {
    assert_eq!(Player::volume(-5), 0);
    assert_eq!(Player::volume(i64::MIN), 0);
    assert_eq!(Player::volume(0), 0);
    assert_eq!(Player::volume(42), 42);
    assert_eq!(Player::volume(100), 100);
    assert_eq!(Player::volume(150), 100);
    assert_eq!(Player::volume(i64::MAX), 100);
}

#[test]
fn percentage_of_position() {
    assert_eq!(Player::get_procentage(Some(37), Some(150)), 24);
    assert_eq!(Player::get_procentage(Some(37), Some(0)), 100);
    assert_eq!(Player::get_procentage(None, None), 100);
    assert_eq!(Player::get_procentage(Some(50), None), 100);
    assert_eq!(Player::get_procentage(None, Some(400)), 100);
    assert_eq!(Player::get_procentage(Some(29), Some(100)), 29);
    assert_eq!(
        Player::get_procentage(Some(u64::MAX), Some(1)),
        u64::MAX as u128 * 100
    );
}

#[test]
fn random_entry_excludes_last_position() {
    let mut seen = [false; 5];
    for _ in 0..500 {
        let r = Player::rand(5).unwrap();
        assert!((1..5).contains(&r));
        seen[r] = true;
    }
    assert!(!seen[0]);
    assert!(seen[1] && seen[2] && seen[3] && seen[4]);
    for _ in 0..50 {
        assert_eq!(Player::rand(2).unwrap(), 1);
    }
}

#[test]
fn random_entry_needs_two_entries() {
    for count in [0usize, 1] {
        match Player::rand(count) {
            Err(Error::ExecuteErr(_)) => {}
            other => panic!("unexpected: {other:?}"),
        }
    }
}

#[test]
fn session_round_trip() {
    let mut saved = Player::new("/tmp/mpvsocket", strings(&["--volume=70"]));
    saved.data.url = Some("https://youtube.com/watch?v=abc".to_string());
    saved.data.elapsed_seconds = 93;
    saved.data.running = true;
    let stored = saved.data.clone();

    let mut live = Player::new("/tmp/mpvsocket", get_env_mpv_args(None, None));
    let fresh = live.data.clone();
    assert_eq!(live.load_session(None), LoadOutcome::Missing);
    assert_eq!(live.data, fresh);
    assert_eq!(live.data.url, None);
    assert_eq!(live.data.elapsed_seconds, 0);

    assert_eq!(live.load_session(Some(stored.clone())), LoadOutcome::Restored);
    assert_eq!(live.data, stored);
}

#[test]
fn session_for_another_socket_is_refused() {
    let other = Player::new("/tmp/other", vec![]);
    let mut live = Player::new("/tmp/mpvsocket", vec![]);
    let before = live.data.clone();
    assert_eq!(live.load_session(Some(other.data.clone())), LoadOutcome::Rejected);
    assert_eq!(live.data, before);
    let bare = Data {
        running: false,
        logging_enabled: false,
        mpv_args: vec![],
        url: None,
        elapsed_seconds: 0,
    };
    assert_eq!(live.load_session(Some(bare)), LoadOutcome::Rejected);
}

#[test]
fn start_without_target_fails() {
    let player = Player::new("/tmp/mpvsocket", vec![]);
    match player.start(None) {
        Err(Error::ExecuteErr(m)) => assert_eq!(m, "url is empty"),
        other => panic!("unexpected: {other:?}"),
    }
}

#[test]
fn configured_player_arguments() {
    assert_eq!(get_env_mpv_args(None, None), strings(&["--volume=50", "--no-video"]));
    assert_eq!(get_env_mpv_args(Some("70"), Some("true")), strings(&["--volume=70", ""]));
    assert_eq!(get_env_mpv_args(Some("5"), Some("false")), strings(&["--volume=5", "--no-video"]));
    assert_eq!(get_env_mpv_args(None, Some("yes")), strings(&["--volume=50", ""]));
}

#[test]
fn downloader_arguments() {
    assert_eq!(Player::downland("", "abc"), strings(&["", "youtube.com/abc", "abc"]));
    assert_eq!(
        Player::downland("-f best", "watch?v=x"),
        strings(&["-f", "best", "youtube.com/watch?v=x", "watch?v=x"])
    );
}

#[test]
fn thumbnail_address() {
    assert_eq!(
        Player::thumbnail_url("https://www.youtube.com/watch?v=t0zooRIpAe4"),
        "https://i.ytimg.com/vi/t0zooRIpAe4/hqdefault.jpg"
    );
    assert_eq!(
        Player::thumbnail_url("watch?v=a&list=watch?v=b"),
        "https://i.ytimg.com/vi/b/hqdefault.jpg"
    );
    assert_eq!(Player::thumbnail_url("xyz"), "https://i.ytimg.com/vi/xyz/hqdefault.jpg");
}

#[test]
fn title_falls_back_to_none() {
    assert_eq!(Player::print(None), "none");
    assert_eq!(Player::print(Some("Song".to_string())), "Song");
}

#[test]
fn error_messages() {
    assert_eq!(Error::IoErr("gone".to_string()).message(), "io error: gone");
    assert_eq!(Error::IntErr("bad".to_string()).message(), "parse int error: bad");
    assert_eq!(Error::MpvError("x".to_string()).message(), "mpv error: x");
}

#[test]
fn text_helpers() {
    assert_eq!(split_on_char("a,,b,", ','), strings(&["a", "", "b", ""]));
    assert_eq!(split_on_char("", ','), strings(&[""]));
    assert_eq!(words_of("  a \tb\r\n c "), strings(&["a", "b", "c"]));
    assert_eq!(parse_i64("-9223372036854775808"), Some(i64::MIN));
    assert_eq!(parse_i64("9223372036854775807"), Some(i64::MAX));
    assert_eq!(parse_i64("9223372036854775808"), None);
    assert_eq!(parse_i64("-"), None);
    assert_eq!(parse_i64("+3"), None);
    assert_eq!(parse_u64("18446744073709551615"), Some(u64::MAX));
    assert_eq!(parse_u64("18446744073709551616"), None);
    assert_eq!(parse_u64("007"), Some(7));
}

#[test]
fn playlist_view_events() {
    let items = vec![
        PlaylistItem { id: 0, filename: "a".to_string() },
        PlaylistItem { id: 1, filename: "b".to_string() },
    ];
    let mut tui = Tui::new(items);
    assert_eq!(tui.playlist_len(), 2);
    assert!(tui.is_selected(0));
    tui.down();
    assert_eq!(tui.index, 0);
    tui.up();
    tui.up();
    tui.up();
    assert_eq!(tui.index, 2);
    tui.down();
    assert!(tui.is_selected(1));
    assert_eq!(tui.handle_event(TuiEvent::Resize(80, 24)), TuiAction::Continue);
    assert_eq!(tui.window, Some((80, 24)));
    assert_eq!(tui.handle_event(TuiEvent::Key), TuiAction::Continue);
    assert_eq!(tui.handle_event(TuiEvent::Idle), TuiAction::Continue);
    assert_eq!(tui.handle_event(TuiEvent::Escape), TuiAction::Leave);
    assert_eq!(tui.window, Some((80, 24)));
}
