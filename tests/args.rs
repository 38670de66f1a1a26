use uta::api::Player;
use uta::args::{Args, Command};
use uta::dispatch::{Run, Step};
use uta::error::Error;
use uta::env::get_env_mpv_args;

fn toks(v: &[&str]) -> Vec<String> {
    v.iter().map(|s| s.to_string()).collect()
}

fn parse(v: &[&str]) -> Vec<Command> {
    Args::parse(&toks(v)).commands
}

#[test]
fn flags_map_to_commands() {
    assert_eq!(
        parse(&["-k", "--next", "-p", "-t", "--loop-playlist", "--loop-single", "-r", "-h"]),
        vec![
            Command::Kill,
            Command::Next,
            Command::Prev,
            Command::Toggle,
            Command::LoopPlaylist,
            Command::LoopSingle,
            Command::Random,
            Command::Help,
        ]
    );
    assert_eq!(
        parse(&["--downland", "--print", "--runnig", "--p-volume", "--percentage", "--get-link"]),
        vec![
            Command::Download,
            Command::Print,
            Command::Running,
            Command::PrintVolume,
            Command::Percentage,
            Command::GetLink,
        ]
    );
}

#[test]
fn bare_number_is_not_a_link() {
    assert_eq!(parse(&["42"]), vec![Command::Unrecognized("42".to_string())]);
    let mut player = Player::new("/tmp/mpvsocket", get_env_mpv_args(None, None));
    let steps = Args::parse(&toks(&["42"])).plan(&mut player);
    assert_eq!(steps, vec![Step::Skip("42".to_string())]);
    assert_eq!(player.data.url, None);
}

#[test]
fn url_is_a_link_that_starts_the_player() {
    let url = "https://youtube.com/watch?v=xyz";
    assert_eq!(parse(&[url]), vec![Command::Link(url.to_string())]);
    let mut player = Player::new("/tmp/mpvsocket", get_env_mpv_args(None, None));
    assert!(!player.connected);
    let steps = Args::parse(&toks(&[url])).plan(&mut player);
    assert_eq!(steps, vec![Step::Start(url.to_string())]);
    assert_eq!(player.data.url, Some(url.to_string()));
    let argv = player.start(Some(url.to_string())).unwrap();
    assert_eq!(
        argv,
        toks(&[
            "--no-terminal",
            "--input-ipc-server=/tmp/mpvsocket",
            "--volume=50",
            "--no-video",
            url,
        ])
    );
    assert_eq!(player.start(None).unwrap(), argv);
}

#[test]
fn local_paths_are_links() {
    assert_eq!(parse(&["/music/a.mp3"]), vec![Command::Link("/music/a.mp3".to_string())]);
    assert_eq!(parse(&["./a.mp3"]), vec![Command::Link("./a.mp3".to_string())]);
    assert_eq!(parse(&["~/a.mp3"]), vec![Command::Link("~/a.mp3".to_string())]);
    assert_eq!(parse(&["song"]), vec![Command::Unrecognized("song".to_string())]);
    assert_eq!(parse(&["--bogus"]), vec![Command::Unrecognized("--bogus".to_string())]);
}

#[test]
fn seek_and_volume_read_numbers() {
    assert_eq!(parse(&["-s", "30"]), vec![Command::Seek(30)]);
    assert_eq!(parse(&["-seek", "30"]), vec![Command::Seek(30)]);
    assert_eq!(parse(&["-s"]), vec![Command::Seek(0)]);
    assert_eq!(parse(&["-v", "80"]), vec![Command::Volume(80)]);
    assert_eq!(parse(&["--volume", "-20"]), vec![Command::Volume(-20)]);
    assert_eq!(parse(&["-v"]), vec![Command::Volume(50)]);
    assert_eq!(
        parse(&["-v", "loud", "-k"]),
        vec![Command::Volume(50), Command::Unrecognized("loud".to_string()), Command::Kill]
    );
    assert_eq!(
        parse(&["-s", "99999999999999999999"]),
        vec![Command::Seek(0), Command::Unrecognized("99999999999999999999".to_string())]
    );
}

#[test]
fn link_and_thumbnail_take_a_value() {
    assert_eq!(parse(&["-l", "song.mp3"]), vec![Command::Link("song.mp3".to_string())]);
    assert_eq!(
        parse(&["--thumbnail", "out.jpg"]),
        vec![Command::Thumbnail("out.jpg".to_string())]
    );
    assert_eq!(
        parse(&["--link", "--kill"]),
        vec![Command::Unrecognized("--link".to_string()), Command::Kill]
    );
    assert_eq!(parse(&["--thumbnail"]), vec![Command::Unrecognized("--thumbnail".to_string())]);
}

#[test]
fn parsing_is_total_and_deterministic() {
    let inputs: Vec<Vec<String>> = vec![
        toks(&[]),
        toks(&["", "-", "--", "-v", "-s", "-l"]),
        toks(&["x", "1", "-1", "https://", "日本", "-v", "3", "-l", "a"]),
    ];
    for v in inputs {
        let a = Args::parse(&v);
        let b = Args::parse(&v);
        assert_eq!(a, b);
        assert!(a.commands.len() <= v.len());
        assert!(v.len() <= 2 * a.commands.len());
    }
}

#[test]
fn empty_invocation_selects() {
    let mut player = Player::new("/tmp/mpvsocket", vec![]);
    let steps = Args::parse(&vec![]).plan(&mut player);
    assert_eq!(steps, vec![Step::Select]);
}

#[test]
fn plan_follows_argument_order() {
    let mut player = Player::new("/tmp/mpvsocket", vec![]);
    let steps = Args::parse(&toks(&["-n", "-v", "150", "/a.mp3", "-s", "40", "/b.mp3", "zz"]))
        .plan(&mut player);
    assert_eq!(
        steps,
        vec![
            Step::Next,
            Step::SetVolume(100),
            Step::Start("/a.mp3".to_string()),
            Step::Seek(40),
            Step::Start("/b.mp3".to_string()),
            Step::Skip("zz".to_string()),
        ]
    );
    assert_eq!(player.data.url, Some("/b.mp3".to_string()));
}

#[test]
fn steps_without_connection_are_refused() {
    let mut player = Player::new("/tmp/mpvsocket", vec![]);
    let refused = player.allow(&Step::Next).unwrap_err();
    assert_eq!(refused.message(), "execute error: no connection to the player");
    assert!(player.allow(&Step::Print).is_ok());
    assert!(player.allow(&Step::Percentage).is_ok());
    assert!(player.allow(&Step::Start("/a".to_string())).is_ok());
    player.set_connected(true);
    assert!(player.allow(&Step::Next).is_ok());
    assert!(Step::SetVolume(3).needs_connection());
    assert!(!Step::Kill.needs_connection());
}

#[test]
fn each_token_is_a_command_or_a_value() {
    // -v takes "7", -l takes "x", --thumbnail takes "p": three values.
    let v = toks(&["-v", "7", "-l", "x", "--thumbnail", "p", "-n", "-s", "q", "5"]);
    let cmds = Args::parse(&v).commands;
    assert_eq!(cmds.len(), v.len() - 3);
    assert_eq!(
        cmds,
        vec![
            Command::Volume(7),
            Command::Link("x".to_string()),
            Command::Thumbnail("p".to_string()),
            Command::Next,
            Command::Seek(0),
            Command::Unrecognized("q".to_string()),
            Command::Unrecognized("5".to_string()),
        ]
    );
}

#[test]
fn run_stops_at_first_failure() {
    let mut run = Run::new(vec![Step::Next, Step::Prev, Step::Kill]);
    assert_eq!(run.next_step(), Some(Step::Next));
    run.record(Ok(()));
    assert_eq!(run.next_step(), Some(Step::Prev));
    run.record(Err(Error::MpvError("gone".to_string())));
    assert_eq!(run.next_step(), None);
    assert_eq!(run.outcome(), Err(Error::MpvError("gone".to_string())));

    let mut run = Run::new(vec![Step::Help]);
    assert_eq!(run.next_step(), Some(Step::Help));
    run.record(Ok(()));
    assert_eq!(run.next_step(), None);
    assert_eq!(run.outcome(), Ok(()));
}
