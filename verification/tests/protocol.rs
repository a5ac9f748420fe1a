use vlc_rc::client::clamp_volume;
use vlc_rc::client::command_text;
use vlc_rc::client::parse_is_playing;
use vlc_rc::client::parse_time;
use vlc_rc::client::parse_title;
use vlc_rc::client::parse_volume;
use vlc_rc::client::pause_plan;
use vlc_rc::client::play_step;
use vlc_rc::client::set_volume_step;
use vlc_rc::client::stop_step;
use vlc_rc::client::Command;
use vlc_rc::client::MAX_VOLUME;
use vlc_rc::client::MIN_VOLUME;
use vlc_rc::client::session::trim_output;
use vlc_rc::Error;

#[test]
fn trim_output_strips_prompt_and_spaces() {
    let mut s = String::from("> 25");
    trim_output(&mut s);
    assert_eq!(s, "25");

    let mut s = String::from(">  >25");
    trim_output(&mut s);
    assert_eq!(s, "25");

    let mut s = String::from("25");
    trim_output(&mut s);
    assert_eq!(s, "25");

    let mut s = String::from(">>> ");
    trim_output(&mut s);
    assert_eq!(s, "");
}

#[test]
fn volume_reading_is_parsed_and_clamped() {
    assert_eq!(parse_volume("25\n").unwrap(), 25);
    assert_eq!(parse_volume(" 0 \n").unwrap(), 0);
    assert_eq!(parse_volume("200\n").unwrap(), 200);
    // A transient out-of-range reading is clamped, not treated as an error.
    assert_eq!(parse_volume("300\n").unwrap(), MAX_VOLUME);
    assert_eq!(parse_volume("65535\n").unwrap(), MAX_VOLUME);
}

#[test]
fn volume_reading_errors_on_non_numeric_text() {
    assert!(matches!(parse_volume("abc\n"), Err(Error::ParseErr)));
    assert!(matches!(parse_volume("\n"), Err(Error::ParseErr)));
    assert!(matches!(parse_volume("12a\n"), Err(Error::ParseErr)));
    assert!(matches!(parse_volume("-5\n"), Err(Error::ParseErr)));
    // Beyond the wire format's 16-bit range the reading is malformed.
    assert!(matches!(parse_volume("65536\n"), Err(Error::ParseErr)));
}

#[test]
fn time_reading_yields_none_instead_of_an_error() {
    assert_eq!(parse_time("12\n"), Some(12));
    assert_eq!(parse_time(" 0 "), Some(0));
    assert_eq!(parse_time("+25"), Some(25));
    assert_eq!(parse_time("\n"), None);
    assert_eq!(parse_time("stopped\n"), None);
    assert_eq!(parse_time("1.5\n"), None);
}

#[test]
fn title_reading_yields_none_when_empty() {
    assert_eq!(parse_title("Chopin Nocturnes.mp3\n").as_deref(), Some("Chopin Nocturnes.mp3"));
    assert_eq!(parse_title("   \n"), None);
    assert_eq!(parse_title(""), None);
}

#[test]
fn playing_state_is_the_literal_one() {
    assert!(parse_is_playing("1\n"));
    assert!(parse_is_playing(" 1 "));
    assert!(!parse_is_playing("0\n"));
    assert!(!parse_is_playing("10\n"));
    assert!(!parse_is_playing("\n"));
}

#[test]
fn command_wire_text() {
    assert_eq!(command_text(&Command::Playlist), "playlist");
    assert_eq!(command_text(&Command::Subtitles), "strack");
    assert_eq!(command_text(&Command::GetVolume), "volume");
    assert_eq!(command_text(&Command::SetVolume(25)), "volume 25");
    assert_eq!(command_text(&Command::SetVolume(0)), "volume 0");
    assert_eq!(command_text(&Command::IsPlaying), "is_playing");
    assert_eq!(command_text(&Command::Play), "play");
    assert_eq!(command_text(&Command::Stop), "stop");
    assert_eq!(command_text(&Command::Pause), "pause");
    assert_eq!(command_text(&Command::GetTime), "get_time");
    assert_eq!(command_text(&Command::GetTitle), "get_title");
    assert_eq!(command_text(&Command::SeekForward(5)), "seek +5");
    assert_eq!(command_text(&Command::SeekBackward(5)), "seek -5");
    assert_eq!(command_text(&Command::SeekForward(4294967295)), "seek +4294967295");
    assert_eq!(command_text(&Command::Next), "next");
    assert_eq!(command_text(&Command::Prev), "prev");
    assert_eq!(command_text(&Command::Fullscreen(true)), "fullscreen on");
    assert_eq!(command_text(&Command::Fullscreen(false)), "fullscreen off");
}

#[test]
fn volume_requests_above_the_bound_act_as_the_bound() {
    assert_eq!(clamp_volume(255), MAX_VOLUME);
    assert_eq!(clamp_volume(201), MAX_VOLUME);
    assert_eq!(clamp_volume(MAX_VOLUME), MAX_VOLUME);
    assert_eq!(clamp_volume(MIN_VOLUME), MIN_VOLUME);
    assert_eq!(clamp_volume(25), 25);
    // The convergence loop for an over-bound request is the loop for the bound.
    assert_eq!(set_volume_step(255, 100), set_volume_step(MAX_VOLUME, 100));
    assert_eq!(set_volume_step(255, 100), Some(Command::SetVolume(MAX_VOLUME)));
    assert_eq!(set_volume_step(255, MAX_VOLUME), None);
    assert_eq!(set_volume_step(25, 25), None);
    assert_eq!(set_volume_step(25, 24), Some(Command::SetVolume(25)));
}

#[test]
fn stop_when_already_stopped_issues_nothing() {
    assert_eq!(stop_step(false), None);
    assert_eq!(stop_step(true), Some(Command::Stop));
}

#[test]
fn play_respects_the_playlist_and_the_playing_state() {
    assert_eq!(play_step(0, false), None);
    assert_eq!(play_step(0, true), None);
    assert_eq!(play_step(3, true), None);
    assert_eq!(play_step(3, false), Some(Command::Play));
}

#[test]
fn pause_toggles_only_a_playing_track() {
    assert_eq!(pause_plan(true), vec![Command::Play, Command::Pause]);
    assert!(pause_plan(false).is_empty());
}
