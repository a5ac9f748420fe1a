//! Typed records extracted from the player's console listings, and the
//! line grammars that produce them.
//!
//! A listing block is a run of lines; a line either is a genuine row —
//! a list-item marker, an index, a separator, a title, and (for tracks) a
//! trailing parenthesized duration — or it is a header, footer or blank
//! line, which extraction silently skips. The grammars are deterministic:
//! each run of whitespace or digits is taken as long as possible, and a
//! track title, being free text that may itself contain parentheses, runs
//! greedily up to the last duration anchor on the line.

use vstd::prelude::*;

use crate::text::digit_run_val;
use crate::text::digits_end;
use crate::text::dec_val;
use crate::text::is_digit_char;
use crate::text::is_ws_char;
use crate::text::scan_digits;
use crate::text::scan_ws;
use crate::text::ws_end;

verus! {

/// The minimum amount for a volume setting.
pub const MIN_VOLUME: u8 = 0;

/// The maximum amount for a volume setting.
pub const MAX_VOLUME: u8 = 200;

/// A type alias for a collection of [tracks](Track).
pub type Playlist = Vec<Track>;

/// A type alias for a collection of [subtitles](Subtitle).
pub type Subtitles = Vec<Subtitle>;

/// Mathematical image of a [`Track`].
pub ghost struct TrackView {
    pub index: int,
    pub title: Seq<char>,
    pub length: Seq<char>,
}

/// Mathematical image of a [`Subtitle`].
pub ghost struct SubtitleView {
    pub index: int,
    pub title: Seq<char>,
}

/// A duration of the form `DD:DD:DD` (digits only) starts at position `j`.
pub open spec fn duration_at(s: Seq<char>, j: int) -> bool {
    &&& 0 <= j
    &&& j + 8 <= s.len()
    &&& is_digit_char(s[j])
    &&& is_digit_char(s[j + 1])
    &&& s[j + 2] == ':'
    &&& is_digit_char(s[j + 3])
    &&& is_digit_char(s[j + 4])
    &&& s[j + 5] == ':'
    &&& is_digit_char(s[j + 6])
    &&& is_digit_char(s[j + 7])
}

/// The anchor that ends a track title: one whitespace character, an opening
/// parenthesis, then the duration.
pub open spec fn track_anchor_at(s: Seq<char>, j: int) -> bool {
    &&& 0 <= j
    &&& j + 10 <= s.len()
    &&& is_ws_char(s[j])
    &&& s[j + 1] == '('
    &&& duration_at(s, j + 2)
}

/// The last position at or below `j` where a track anchor starts, `-1`
/// where there is none: a title is greedy, so the last anchor ends it.
pub open spec fn last_track_anchor(s: Seq<char>, j: int) -> int
    decreases j + 1,
{
    if j < 0 {
        -1
    } else if track_anchor_at(s, j) {
        j
    } else {
        last_track_anchor(s, j - 1)
    }
}

/// The head shared by both row grammars: the list-item marker `|`,
/// whitespace, an optional one-character flag equal to `flag`, the
/// index digits, whitespace, the `-` separator, whitespace. Yields the
/// digit-run bounds and the position right after the separator run.
pub open spec fn row_head(s: Seq<char>, flag: char) -> Option<(int, int, int)> {
    if s.len() == 0 || s[0] != '|' {
        None
    } else {
        let i1 = ws_end(s, 1);
        if i1 == 1 {
            None
        } else {
            let i2 = if i1 < s.len() && s[i1] == flag {
                i1 + 1
            } else {
                i1
            };
            let i3 = digits_end(s, i2);
            if i3 == i2 {
                None
            } else {
                let i4 = ws_end(s, i3);
                if i4 == i3 || i4 >= s.len() || s[i4] != '-' {
                    None
                } else {
                    let i5 = ws_end(s, i4 + 1);
                    if i5 == i4 + 1 {
                        None
                    } else {
                        Some((i2, i3, i5))
                    }
                }
            }
        }
    }
}

/// What a playlist line denotes: a track row carries an optional `*`
/// selection marker before its non-negative index, and its title runs to the
/// last duration anchor; any other line denotes nothing.
pub open spec fn track_parse(s: Seq<char>) -> Option<TrackView> {
    match row_head(s, '*') {
        Option::None => Option::None,
        Option::Some((d0, d1, t0)) => {
            let j = last_track_anchor(s, s.len() - 10);
            if j <= t0 {
                Option::None
            } else {
                let v = dec_val(s.subrange(d0, d1));
                if v > i32::MAX as int {
                    Option::None
                } else {
                    Option::Some(
                        TrackView {
                            index: v,
                            title: s.subrange(t0, j),
                            length: s.subrange(j + 2, j + 10),
                        },
                    )
                }
            }
        },
    }
}

/// What a subtitle-listing line denotes: a subtitle row carries an optional
/// `-` sign before its index — negative indices name sentinel entries — and
/// its title is the whole remainder of the line; any other line denotes
/// nothing.
pub open spec fn subtitle_parse(s: Seq<char>) -> Option<SubtitleView> {
    match row_head(s, '-') {
        Option::None => Option::None,
        Option::Some((d0, d1, t0)) => {
            if t0 >= s.len() {
                Option::None
            } else {
                let m = dec_val(s.subrange(d0, d1));
                let v = if d0 > 0 && s[d0 - 1] == '-' {
                    -m
                } else {
                    m
                };
                if v < i32::MIN as int || v > i32::MAX as int {
                    Option::None
                } else {
                    Option::Some(SubtitleView { index: v, title: s.subrange(t0, s.len() as int) })
                }
            }
        },
    }
}

fn anchor_check(s: &str, j: usize) -> (b: bool)
    requires
        j + 10 <= s@.len(),
        j + 10 <= usize::MAX,
    ensures
        b == track_anchor_at(s@, j as int),
{
    crate::text::ws_char(s.get_char(j)) && s.get_char(j + 1) == '(' && crate::text::digit_char(
        s.get_char(j + 2),
    ) && crate::text::digit_char(s.get_char(j + 3)) && s.get_char(j + 4) == ':'
        && crate::text::digit_char(s.get_char(j + 5)) && crate::text::digit_char(s.get_char(j + 6))
        && s.get_char(j + 7) == ':' && crate::text::digit_char(s.get_char(j + 8))
        && crate::text::digit_char(s.get_char(j + 9))
}

fn find_last_anchor(s: &str, top: usize) -> (r: Option<usize>)
    requires
        top + 10 <= s@.len(),
        top + 10 <= usize::MAX,
    ensures
        match r {
            Option::Some(j) => j <= top && j as int == last_track_anchor(s@, top as int),
            Option::None => last_track_anchor(s@, top as int) == -1,
        },
{
    let mut j: usize = top;
    loop
        invariant
            j <= top,
            top + 10 <= s@.len(),
            top + 10 <= usize::MAX,
            last_track_anchor(s@, top as int) == last_track_anchor(s@, j as int),
        decreases j,
    {
        if anchor_check(s, j) {
            return Option::Some(j);
        }
        if j == 0 {
            proof {
                assert(last_track_anchor(s@, 0) == last_track_anchor(s@, -1));
            }
            return Option::None;
        }
        j = j - 1;
    }
}

fn scan_row_head(s: &str, flag: char) -> (r: Option<(usize, usize, usize)>)
    ensures
        match r {
            Option::Some(h) => {
                &&& row_head(s@, flag) == Option::Some((h.0 as int, h.1 as int, h.2 as int))
                &&& 1 < h.0 < h.1 <= s@.len()
                &&& h.1 < h.2 <= s@.len()
                &&& crate::text::all_digits(s@.subrange(h.0 as int, h.1 as int))
            },
            Option::None => row_head(s@, flag) is None,
        },
{
    let n = s.unicode_len();
    if n == 0 || s.get_char(0) != '|' {
        return Option::None;
    }
    let i1 = scan_ws(s, 1);
    if i1 == 1 {
        return Option::None;
    }
    let i2: usize = if i1 < n && s.get_char(i1) == flag {
        i1 + 1
    } else {
        i1
    };
    let i3 = scan_digits(s, i2);
    if i3 == i2 {
        return Option::None;
    }
    let i4 = scan_ws(s, i3);
    if i4 == i3 || i4 == n || s.get_char(i4) != '-' {
        return Option::None;
    }
    let i5 = scan_ws(s, i4 + 1);
    if i5 == i4 + 1 {
        return Option::None;
    }
    proof {
        crate::text::lemma_digits_end_range(s@, i2 as int);
    }
    Option::Some((i2, i3, i5))
}

/// A media track in a player's [playlist](Playlist).
#[derive(Debug, Clone, PartialEq, Eq)]
pub struct Track {
    index: i32,
    title: String,
    length: String,
}

impl View for Track {
    type V = TrackView;

    closed spec fn view(&self) -> TrackView {
        TrackView { index: self.index as int, title: self.title@, length: self.length@ }
    }
}

impl Track {
    /// Gets the track's index in the playlist.
    pub fn index(&self) -> (r: i32)
        ensures
            r as int == self@.index,
    {
        self.index
    }

    /// Gets the track's title - commonly the file name.
    pub fn title(&self) -> (r: &str)
        ensures
            r@ == self@.title,
    {
        self.title.as_str()
    }

    /// Gets the track's length as `<hours>:<minutes>:<seconds>`.
    pub fn length(&self) -> (r: &str)
        ensures
            r@ == self@.length,
    {
        self.length.as_str()
    }

    /// Attempts to construct a track from one line of a playlist listing,
    /// returning `None` where the line is not a track row.
    pub fn from_parts(parts: &str) -> (r: Option<Track>)
        ensures
            match r {
                Option::Some(t) => track_parse(parts@) == Option::Some(t@),
                Option::None => track_parse(parts@) is None,
            },
    {
        let h = match scan_row_head(parts, '*') {
            Option::Some(h) => h,
            Option::None => {
                return Option::None;
            },
        };
        let d0 = h.0;
        let d1 = h.1;
        let t0 = h.2;
        let n = parts.unicode_len();
        if n < 10 {
            proof {
                assert(last_track_anchor(parts@, parts@.len() - 10) == -1);
            }
            return Option::None;
        }
        let j = match find_last_anchor(parts, n - 10) {
            Option::Some(j) => j,
            Option::None => {
                return Option::None;
            },
        };
        if j <= t0 {
            return Option::None;
        }
        proof {
            crate::text::lemma_dec_val_bounds(parts@.subrange(d0 as int, d1 as int));
        }
        let v = match digit_run_val(parts, d0, d1, 2147483647u64) {
            Option::Some(v) => v,
            Option::None => {
                return Option::None;
            },
        };
        let title = String::from_str(parts.substring_char(t0, j));
        let length = String::from_str(parts.substring_char(j + 2, j + 10));
        Option::Some(Track { index: v as i32, title: title, length: length })
    }
}

/// A subtitle track associated with a media file.
#[derive(Debug, Clone, PartialEq, Eq)]
pub struct Subtitle {
    index: i32,
    title: String,
}

impl View for Subtitle {
    type V = SubtitleView;

    closed spec fn view(&self) -> SubtitleView {
        SubtitleView { index: self.index as int, title: self.title@ }
    }
}

impl Subtitle {
    /// Gets the subtitle track's index in the player.
    pub fn index(&self) -> (r: i32)
        ensures
            r as int == self@.index,
    {
        self.index
    }

    /// Gets the subtitle track's name.
    pub fn title(&self) -> (r: &str)
        ensures
            r@ == self@.title,
    {
        self.title.as_str()
    }

    /// Attempts to construct a subtitle record from one line of a subtitle
    /// listing, returning `None` where the line is not a subtitle row.
    pub fn from_parts(parts: &str) -> (r: Option<Subtitle>)
        ensures
            match r {
                Option::Some(t) => subtitle_parse(parts@) == Option::Some(t@),
                Option::None => subtitle_parse(parts@) is None,
            },
    {
        let h = match scan_row_head(parts, '-') {
            Option::Some(h) => h,
            Option::None => {
                return Option::None;
            },
        };
        let d0 = h.0;
        let d1 = h.1;
        let t0 = h.2;
        let n = parts.unicode_len();
        if t0 == n {
            return Option::None;
        }
        let neg = parts.get_char(d0 - 1) == '-';
        let bound: u64 = if neg {
            2147483648u64
        } else {
            2147483647u64
        };
        proof {
            crate::text::lemma_dec_val_bounds(parts@.subrange(d0 as int, d1 as int));
        }
        let m = match digit_run_val(parts, d0, d1, bound) {
            Option::Some(m) => m,
            Option::None => {
                return Option::None;
            },
        };
        let index: i32 = if neg {
            (-(m as i64)) as i32
        } else {
            m as i32
        };
        let title = String::from_str(parts.substring_char(t0, n));
        Option::Some(Subtitle { index: index, title: title })
    }
}

/// The track records among `lines`, in order: extraction keeps exactly the
/// lines that are genuine track rows.
pub open spec fn tracks_of(lines: Seq<Seq<char>>) -> Seq<TrackView>
    decreases lines.len(),
{
    if lines.len() == 0 {
        Seq::empty()
    } else {
        let rest = tracks_of(lines.drop_first());
        match track_parse(lines[0]) {
            Option::Some(t) => seq![t] + rest,
            Option::None => rest,
        }
    }
}

/// The subtitle records among `lines`, in order.
pub open spec fn subtitles_of(lines: Seq<Seq<char>>) -> Seq<SubtitleView>
    decreases lines.len(),
{
    if lines.len() == 0 {
        Seq::empty()
    } else {
        let rest = subtitles_of(lines.drop_first());
        match subtitle_parse(lines[0]) {
            Option::Some(t) => seq![t] + rest,
            Option::None => rest,
        }
    }
}

/// The views of a sequence of tracks.
pub open spec fn track_views(ts: Seq<Track>) -> Seq<TrackView> {
    ts.map_values(|t: Track| t@)
}

/// The views of a sequence of subtitles.
pub open spec fn subtitle_views(ts: Seq<Subtitle>) -> Seq<SubtitleView> {
    ts.map_values(|t: Subtitle| t@)
}

/// Extracts the track rows of a playlist listing block, in emission order.
pub fn tracks_from_block(block: &str) -> (r: Playlist)
    ensures
        track_views(r@) == tracks_of(crate::text::split_lines(block@)),
{
    let lines = crate::text::split_into_lines(block);
    let ghost lv = crate::text::line_views(lines@);
    let mut r: Vec<Track> = Vec::new();
    let mut i: usize = 0;
    proof {
        assert(lv.subrange(0, lv.len() as int) =~= lv);
        assert(track_views(r@) + tracks_of(lv) =~= tracks_of(lv));
    }
    while i < lines.len()
        invariant
            0 <= i <= lines@.len(),
            lv == crate::text::line_views(lines@),
            lv.len() == lines@.len(),
            track_views(r@) + tracks_of(lv.subrange(i as int, lv.len() as int)) == tracks_of(lv),
        decreases lines@.len() - i,
    {
        let ghost suffix = lv.subrange(i as int, lv.len() as int);
        proof {
            assert(suffix[0] == lv[i as int]);
            assert(lv[i as int] == lines@[i as int]@);
            assert(suffix.drop_first() =~= lv.subrange(i + 1, lv.len() as int));
        }
        match Track::from_parts(lines[i].as_str()) {
            Option::Some(t) => {
                proof {
                    assert(track_views(r@.push(t)) =~= track_views(r@) + seq![t@]);
                    assert((track_views(r@) + seq![t@]) + tracks_of(
                        lv.subrange(i + 1, lv.len() as int),
                    ) =~= track_views(r@) + (seq![t@] + tracks_of(
                        lv.subrange(i + 1, lv.len() as int),
                    )));
                }
                r.push(t);
            },
            Option::None => {},
        }
        i = i + 1;
    }
    proof {
        assert(lv.subrange(lv.len() as int, lv.len() as int) =~= Seq::<Seq<char>>::empty());
        assert(track_views(r@) + Seq::<TrackView>::empty() =~= track_views(r@));
    }
    r
}

/// Extracts the subtitle rows of a subtitle listing block, in emission
/// order.
pub fn subtitles_from_block(block: &str) -> (r: Subtitles)
    ensures
        subtitle_views(r@) == subtitles_of(crate::text::split_lines(block@)),
{
    let lines = crate::text::split_into_lines(block);
    let ghost lv = crate::text::line_views(lines@);
    let mut r: Vec<Subtitle> = Vec::new();
    let mut i: usize = 0;
    proof {
        assert(lv.subrange(0, lv.len() as int) =~= lv);
        assert(subtitle_views(r@) + subtitles_of(lv) =~= subtitles_of(lv));
    }
    while i < lines.len()
        invariant
            0 <= i <= lines@.len(),
            lv == crate::text::line_views(lines@),
            lv.len() == lines@.len(),
            subtitle_views(r@) + subtitles_of(lv.subrange(i as int, lv.len() as int))
                == subtitles_of(lv),
        decreases lines@.len() - i,
    {
        let ghost suffix = lv.subrange(i as int, lv.len() as int);
        proof {
            assert(suffix[0] == lv[i as int]);
            assert(lv[i as int] == lines@[i as int]@);
            assert(suffix.drop_first() =~= lv.subrange(i + 1, lv.len() as int));
        }
        match Subtitle::from_parts(lines[i].as_str()) {
            Option::Some(t) => {
                proof {
                    assert(subtitle_views(r@.push(t)) =~= subtitle_views(r@) + seq![t@]);
                    assert((subtitle_views(r@) + seq![t@]) + subtitles_of(
                        lv.subrange(i + 1, lv.len() as int),
                    ) =~= subtitle_views(r@) + (seq![t@] + subtitles_of(
                        lv.subrange(i + 1, lv.len() as int),
                    )));
                }
                r.push(t);
            },
            Option::None => {},
        }
        i = i + 1;
    }
    proof {
        assert(lv.subrange(lv.len() as int, lv.len() as int) =~= Seq::<Seq<char>>::empty());
        assert(subtitle_views(r@) + Seq::<SubtitleView>::empty() =~= subtitle_views(r@));
    }
    r
}

} // verus!
