use vlc_rc::client::Subtitle;
use vlc_rc::client::Track;

#[test]
fn track_from_parts_none() {
    assert!(Track::from_parts("+----[ Playlist - playlist ]").is_none());
    assert!(Track::from_parts("| 1 - Playlist").is_none());
    assert!(Track::from_parts("| 2 - Media Library").is_none());
    assert!(Track::from_parts("+----[ End of playlist ]").is_none());
}

#[test]
fn track_from_parts_some() {
    let t = Track::from_parts("| 8 - Chopin Nocturnes.mp3 (01:50:55)").unwrap();
    assert_eq!(t.index(), 8);
    assert_eq!(t.title(), "Chopin Nocturnes.mp3");
    assert_eq!(t.length(), "01:50:55");

    let t = Track::from_parts("| *1 - Bach (00:00:01).mp3 (01:50:55)").unwrap();
    assert_eq!(t.index(), 1);
    assert_eq!(t.title(), "Bach (00:00:01).mp3");
    assert_eq!(t.length(), "01:50:55");
}

#[test]
fn subtitle_from_parts_none() {
    assert!(Subtitle::from_parts("+----[ spu-es ]").is_none());
    assert!(Subtitle::from_parts("+----[ end of spu-es ]").is_none());
}

#[test]
fn subtitle_from_parts_some() {
    let s = Subtitle::from_parts("| -1 - Disable *").unwrap();
    assert_eq!(s.index(), -1);
    assert_eq!(s.title(), "Disable *");

    let s = Subtitle::from_parts("| 2 - Track 1 - [English]").unwrap();
    assert_eq!(s.index(), 2);
    assert_eq!(s.title(), "Track 1 - [English]");
}

#[test]
fn track_rejects_blank_and_bare_lines() {
    assert!(Track::from_parts("").is_none());
    assert!(Track::from_parts("|").is_none());
    assert!(Track::from_parts("| 5 - NoDuration").is_none());
    // A negative index is not a track row.
    assert!(Track::from_parts("| -3 - Oddity (00:10:00)").is_none());
}

#[test]
fn track_index_too_large_is_rejected() {
    // The digits are well-formed but the value does not fit a 32-bit index.
    assert!(Track::from_parts("| 99999999999 - Big (00:00:01)").is_none());
}

#[test]
fn subtitle_negative_index_bounds() {
    let s = Subtitle::from_parts("| -2147483648 - Lowest").unwrap();
    assert_eq!(s.index(), -2147483648);
    assert!(Subtitle::from_parts("| -2147483649 - TooLow").is_none());
    assert!(Subtitle::from_parts("| 2147483648 - TooHigh").is_none());
}

#[test]
fn playlist_block_keeps_only_track_rows_in_order() {
    let block = "+----[ Playlist - playlist ]\n\
                 | 8 - Chopin Nocturnes.mp3 (01:50:55)\n\
                 | *1 - Bach (00:00:01).mp3 (01:50:55)\n\
                 | 2 - Media Library\n\
                 +----[ End of playlist ]\n\
                 > ";
    let tracks = vlc_rc::client::media::tracks_from_block(block);
    assert_eq!(tracks.len(), 2);
    assert_eq!(tracks[0].index(), 8);
    assert_eq!(tracks[0].title(), "Chopin Nocturnes.mp3");
    assert_eq!(tracks[1].index(), 1);
    assert_eq!(tracks[1].title(), "Bach (00:00:01).mp3");
}

#[test]
fn subtitle_block_keeps_only_subtitle_rows_in_order() {
    let block = "+----[ spu-es ]\n\
                 | -1 - Disable *\n\
                 | 2 - Track 1 - [English]\n\
                 +----[ end of spu-es ]\n\
                 > ";
    let subs = vlc_rc::client::media::subtitles_from_block(block);
    assert_eq!(subs.len(), 2);
    assert_eq!(subs[0].index(), -1);
    assert_eq!(subs[0].title(), "Disable *");
    assert_eq!(subs[1].index(), 2);
    assert_eq!(subs[1].title(), "Track 1 - [English]");
}

#[test]
fn block_lines_with_carriage_returns() {
    let block = "| 3 - One.mp3 (00:03:20)\r\n| 4 - Two.mp3 (00:04:10)\r\n> ";
    let tracks = vlc_rc::client::media::tracks_from_block(block);
    assert_eq!(tracks.len(), 2);
    assert_eq!(tracks[0].index(), 3);
    assert_eq!(tracks[0].length(), "00:03:20");
    assert_eq!(tracks[1].index(), 4);
    assert_eq!(tracks[1].title(), "Two.mp3");
}

#[test]
fn equal_lines_give_equal_records() {
    let a = Track::from_parts("| 8 - X (01:50:55)");
    let b = Track::from_parts("| 8 - X (01:50:55)");
    assert_eq!(a, b);
    let a = Subtitle::from_parts("| 2 - Y");
    let b = Subtitle::from_parts("| 2 - Y");
    assert_eq!(a, b);
}

#[test]
fn tab_separated_rows_parse() {
    let t = Track::from_parts("|\t7\t-\tTabbed.mp3\t(00:01:02)").unwrap();
    assert_eq!(t.index(), 7);
    assert_eq!(t.title(), "Tabbed.mp3");
    assert_eq!(t.length(), "00:01:02");
}
