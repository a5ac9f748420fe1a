//! The client-side protocol layer: media records, session framing, and the
//! command facade's verified logic.
//!
//! Each player operation is "write one command line, read one response,
//! interpret it". The interpretation of every response, the wire text of
//! every command, and the decision taken in every round of a convergence
//! loop are defined here; the caller owning the byte stream performs the
//! writes and reads and feeds the observations back in.

pub mod media;
pub mod session;

pub use media::Playlist;
pub use media::Subtitle;
pub use media::Subtitles;
pub use media::Track;
pub use media::MAX_VOLUME;
pub use media::MIN_VOLUME;

use vstd::prelude::*;

use crate::error::Error;
use crate::text::dec_rep;
use crate::text::format_u64;
use crate::text::parse_uint;
use crate::text::parse_uint_spec;
use crate::text::trim_line;
use crate::text::trim_spec;

verus! {

/// A command of the player's wire protocol, without its line terminator.
#[derive(Debug, Clone, Copy, PartialEq, Eq, Structural)]
pub enum Command {
    /// Request the playlist listing.
    Playlist,
    /// Request the subtitle-track listing.
    Subtitles,
    /// Query the current volume.
    GetVolume,
    /// Set the volume to the given amount.
    SetVolume(u8),
    /// Query whether a track is playing.
    IsPlaying,
    /// Start playback.
    Play,
    /// Stop playback.
    Stop,
    /// Toggle between playback and pause.
    Pause,
    /// Query the elapsed time of the current track.
    GetTime,
    /// Query the current track's title.
    GetTitle,
    /// Seek forward by the given number of seconds.
    SeekForward(u32),
    /// Seek backward by the given number of seconds.
    SeekBackward(u32),
    /// Jump to the next track of the playlist.
    Next,
    /// Jump to the previous track of the playlist.
    Prev,
    /// Switch fullscreen mode on or off.
    Fullscreen(bool),
}

/// The exact wire text of a command.
pub open spec fn command_spec(c: Command) -> Seq<char> {
    match c {
        Command::Playlist => "playlist"@,
        Command::Subtitles => "strack"@,
        Command::GetVolume => "volume"@,
        Command::SetVolume(v) => "volume "@ + dec_rep(v as int),
        Command::IsPlaying => "is_playing"@,
        Command::Play => "play"@,
        Command::Stop => "stop"@,
        Command::Pause => "pause"@,
        Command::GetTime => "get_time"@,
        Command::GetTitle => "get_title"@,
        Command::SeekForward(n) => "seek +"@ + dec_rep(n as int),
        Command::SeekBackward(n) => "seek -"@ + dec_rep(n as int),
        Command::Next => "next"@,
        Command::Prev => "prev"@,
        Command::Fullscreen(on) => if on {
            "fullscreen on"@
        } else {
            "fullscreen off"@
        },
    }
}

/// Renders the wire text of `c`; the caller appends the line terminator.
pub fn command_text(c: &Command) -> (r: String)
    ensures
        r@ == command_spec(*c),
{
    match c {
        Command::Playlist => String::from_str("playlist"),
        Command::Subtitles => String::from_str("strack"),
        Command::GetVolume => String::from_str("volume"),
        Command::SetVolume(v) => {
            let mut s = String::from_str("volume ");
            let d = format_u64(*v as u64);
            s.append(d.as_str());
            s
        },
        Command::IsPlaying => String::from_str("is_playing"),
        Command::Play => String::from_str("play"),
        Command::Stop => String::from_str("stop"),
        Command::Pause => String::from_str("pause"),
        Command::GetTime => String::from_str("get_time"),
        Command::GetTitle => String::from_str("get_title"),
        Command::SeekForward(n) => {
            let mut s = String::from_str("seek +");
            let d = format_u64(*n as u64);
            s.append(d.as_str());
            s
        },
        Command::SeekBackward(n) => {
            let mut s = String::from_str("seek -");
            let d = format_u64(*n as u64);
            s.append(d.as_str());
            s
        },
        Command::Next => String::from_str("next"),
        Command::Prev => String::from_str("prev"),
        Command::Fullscreen(on) => {
            if *on {
                String::from_str("fullscreen on")
            } else {
                String::from_str("fullscreen off")
            }
        },
    }
}

/// What a volume response denotes: the reading of its trimmed text as an
/// unsigned decimal number, clamped down to the bound — a transient
/// out-of-range reading is not an error — or nothing where the text is not
/// numeric.
pub open spec fn volume_reading(line: Seq<char>) -> Option<u8> {
    match parse_uint_spec(trim_spec(line), u16::MAX as int) {
        Option::Some(v) => Option::Some(
            (if v > MAX_VOLUME as int {
                MAX_VOLUME as int
            } else {
                v
            }) as u8,
        ),
        Option::None => Option::None,
    }
}

/// Interprets the response to a volume query. A numeric reading is owed to
/// the caller, clamped to the bound; a non-numeric line is a parse error.
pub fn parse_volume(line: &str) -> (r: Result<u8, Error>)
    ensures
        match r {
            Result::Ok(v) => volume_reading(line@) == Option::Some(v),
            Result::Err(e) => volume_reading(line@) is None && e is ParseErr,
        },
{
    let t = trim_line(line);
    match parse_uint(t.as_str(), 65535u64) {
        Option::Some(v) => {
            if v <= MAX_VOLUME as u64 {
                Result::Ok(v as u8)
            } else {
                Result::Ok(MAX_VOLUME)
            }
        },
        Option::None => Result::Err(Error::ParseErr),
    }
}

/// Interprets the response to an elapsed-time query: the number of seconds,
/// or `None` — the player is stopped — where the trimmed line is not
/// numeric. A non-numeric line is deliberately not an error.
pub fn parse_time(line: &str) -> (r: Option<u32>)
    ensures
        match r {
            Option::Some(v) => parse_uint_spec(trim_spec(line@), u32::MAX as int) == Option::Some(
                v as int,
            ),
            Option::None => parse_uint_spec(trim_spec(line@), u32::MAX as int) is None,
        },
{
    match parse_uint(trim_line(line).as_str(), 4294967295u64) {
        Option::Some(v) => Option::Some(v as u32),
        Option::None => Option::None,
    }
}

/// Interprets the response to a title query: the trimmed title, or `None` —
/// no current media — where the line is empty after trimming.
pub fn parse_title(line: &str) -> (r: Option<String>)
    ensures
        match r {
            Option::Some(t) => t@ == trim_spec(line@) && t@.len() > 0,
            Option::None => trim_spec(line@).len() == 0,
        },
{
    let t = trim_line(line);
    if t.as_str().unicode_len() != 0 {
        Option::Some(t)
    } else {
        Option::None
    }
}

/// Interprets the response to a playing-state query: the literal text `1`
/// means playing; anything else means not playing.
pub fn parse_is_playing(line: &str) -> (r: bool)
    ensures
        r == (trim_spec(line@) == "1"@),
{
    let t = trim_line(line);
    proof {
        reveal_strlit("1");
    }
    let n = t.as_str().unicode_len();
    if n == 1 && t.as_str().get_char(0) == '1' {
        proof {
            assert(t@ =~= "1"@);
        }
        true
    } else {
        false
    }
}

/// The clamp applied to every requested volume amount.
pub open spec fn clamped_volume(amt: u8) -> u8 {
    if amt > MAX_VOLUME {
        MAX_VOLUME
    } else {
        amt
    }
}

/// Clamps a requested volume amount to the allowed bound.
pub fn clamp_volume(amt: u8) -> (r: u8)
    ensures
        r == clamped_volume(amt),
{
    if amt > MAX_VOLUME {
        MAX_VOLUME
    } else {
        amt
    }
}

/// What one round of the set-volume convergence loop decides, from the
/// volume the player reported: either the clamped target is reached and no
/// command is owed, or the set command must be sent and the volume queried
/// again.
pub open spec fn set_volume_decision(target: u8, observed: u8) -> Option<Command> {
    if observed == clamped_volume(target) {
        Option::None
    } else {
        Option::Some(Command::SetVolume(clamped_volume(target)))
    }
}

/// One round of the set-volume convergence loop.
pub fn set_volume_step(target: u8, observed: u8) -> (r: Option<Command>)
    ensures
        r == set_volume_decision(target, observed),
{
    let c = clamp_volume(target);
    if observed == c {
        Option::None
    } else {
        Option::Some(Command::SetVolume(c))
    }
}

/// What one round of the play convergence loop decides: with an empty
/// playlist playing is not attempted and the operation succeeds as a no-op;
/// otherwise the play command is owed until the player reports playback.
pub open spec fn play_decision(playlist_len: nat, playing: bool) -> Option<Command> {
    if playlist_len == 0 || playing {
        Option::None
    } else {
        Option::Some(Command::Play)
    }
}

/// One round of the play convergence loop.
pub fn play_step(playlist_len: usize, playing: bool) -> (r: Option<Command>)
    ensures
        r == play_decision(playlist_len as nat, playing),
{
    if playlist_len == 0 || playing {
        Option::None
    } else {
        Option::Some(Command::Play)
    }
}

/// What one round of the stop convergence loop decides: the stop command is
/// owed only while the player still reports playback.
pub open spec fn stop_decision(playing: bool) -> Option<Command> {
    if playing {
        Option::Some(Command::Stop)
    } else {
        Option::None
    }
}

/// One round of the stop convergence loop.
pub fn stop_step(playing: bool) -> (r: Option<Command>)
    ensures
        r == stop_decision(playing),
{
    if playing {
        Option::Some(Command::Stop)
    } else {
        Option::None
    }
}

/// What a pause request issues: the pause command toggles, so a playing
/// track is first forced into playback and then toggled, which lands on
/// paused; an already stopped player is left alone.
pub open spec fn pause_decision(playing: bool) -> Seq<Command> {
    if playing {
        seq![Command::Play, Command::Pause]
    } else {
        Seq::empty()
    }
}

/// The commands one pause request writes, in order.
pub fn pause_plan(playing: bool) -> (r: Vec<Command>)
    ensures
        r@ == pause_decision(playing),
{
    let mut r: Vec<Command> = Vec::new();
    if playing {
        r.push(Command::Play);
        r.push(Command::Pause);
        proof {
            assert(r@ =~= seq![Command::Play, Command::Pause]);
        }
    } else {
        proof {
            assert(r@ =~= Seq::<Command>::empty());
        }
    }
    r
}

/// Law: a volume request above the bound behaves identically to a request
/// of exactly the bound — every round of the convergence loop decides the
/// same for both.
pub proof fn lemma_volume_request_clamp(amt: u8, observed: u8)
    requires
        amt > MAX_VOLUME,
    ensures
        set_volume_decision(amt, observed) == set_volume_decision(MAX_VOLUME, observed),
{
}

/// Law: a reported volume above the bound is reported to the caller as the
/// bound, not as an error.
pub proof fn lemma_volume_reading_clamp(line: Seq<char>, v: int)
    requires
        parse_uint_spec(trim_spec(line), u16::MAX as int) == Option::Some(v),
        v > MAX_VOLUME as int,
    ensures
        volume_reading(line) == Option::Some(MAX_VOLUME),
{
}

/// Law: stopping when already stopped is idempotent — the first confirming
/// query ends the loop, with no further mutate command issued.
pub proof fn lemma_stop_idempotent()
    ensures
        stop_decision(false) is None,
{
}

} // verus!
