//! What is on the screen: rows, headings and bars, as styled pieces of text.
//!
//! Colors and boldness are data here. The program turns them into escape
//! sequences and measures how wide a text is.

use vstd::prelude::*;
use crate::app::{App, Screen, SearchRow};
use crate::config::VERSION;
use crate::local::{Entry, Mpv, Repeat};
use crate::pane::LINES_ABOVE;
use crate::playback::{
    heading, heading_of, total_ms, total_ms_of, unsigned, unsigned_of, whole_ms_of, Artist, Device, Playback, Playlist,
    RepeatState, Track,
};
use crate::radio::{is_kept, keeps, Station};
use crate::releases::{Release, ReleaseRow, Releases};
use crate::text::{
    chars_of, concat, decimal, decimal_of, join, join_with, pad, padded, run, run_of, string_of, texts, two_digits, two_digits_of,
};
use crate::theme::{ACCENT, AMBER, CYAN, FG, FG_BRIGHT, FG_DIM, FG_MUTED, OK};

verus! {

// ---- Styled text ----------------------------------------------------

/// A piece of a line. It is cut to `fit` cells if that is given, styled, and
/// filled with blanks up to `width` characters, in this order.
#[derive(Debug)]
pub struct Span {
    pub text: String,
    pub color: Option<u8>,
    pub bold: bool,
    pub fit: Option<usize>,
    pub width: usize,
}

#[verifier::ext_equal]
pub struct SpanView {
    pub text: Seq<char>,
    pub color: Option<u8>,
    pub bold: bool,
    pub fit: Option<usize>,
    pub width: usize,
}

impl View for Span {
    type V = SpanView;

    open spec fn view(&self) -> SpanView {
        SpanView { text: self.text@, color: self.color, bold: self.bold, fit: self.fit, width: self.width }
    }
}

/// A line: its pieces, and a style around all of them.
#[derive(Debug)]
pub struct Line {
    pub spans: Vec<Span>,
    pub color: Option<u8>,
    pub bold: bool,
}

#[verifier::ext_equal]
pub struct LineView {
    pub spans: Seq<SpanView>,
    pub color: Option<u8>,
    pub bold: bool,
}

pub open spec fn span_views(v: Seq<Span>) -> Seq<SpanView> {
    Seq::new(v.len(), |i: int| v[i]@)
}

impl View for Line {
    type V = LineView;

    open spec fn view(&self) -> LineView {
        LineView { spans: span_views(self.spans@), color: self.color, bold: self.bold }
    }
}

pub open spec fn line_views(v: Seq<Line>) -> Seq<LineView> {
    Seq::new(v.len(), |i: int| v[i]@)
}

/// Text as it is.
pub open spec fn plain(text: Seq<char>) -> SpanView {
    SpanView { text, color: None, bold: false, fit: None, width: 0 }
}

/// Text in a color.
pub open spec fn tinted(text: Seq<char>, color: u8) -> SpanView {
    SpanView { text, color: Some(color), bold: false, fit: None, width: 0 }
}

/// Bold text in a color.
pub open spec fn strong(text: Seq<char>, color: u8) -> SpanView {
    SpanView { text, color: Some(color), bold: true, fit: None, width: 0 }
}

/// Text in a column: cut to its width, and filled up to it.
pub open spec fn column(text: Seq<char>, width: usize) -> SpanView {
    SpanView { text, color: None, bold: false, fit: Some(width), width }
}

/// A line without a style of its own.
pub open spec fn bare(spans: Seq<SpanView>) -> LineView {
    LineView { spans, color: None, bold: false }
}

/// An empty line.
pub open spec fn blank() -> LineView {
    bare(Seq::empty())
}

impl Line {
    fn empty() -> (r: Line)
        ensures
            r@ == blank(),
    {
        let r = Line { spans: Vec::new(), color: None, bold: false };
        assert(r@.spans =~= Seq::<SpanView>::empty());
        r
    }

    fn put(&mut self, s: Span)
        ensures
            final(self)@ == (LineView { spans: old(self)@.spans.push(s@), ..old(self)@ }),
    {
        self.spans.push(s);
        assert(self@.spans =~= old(self)@.spans.push(s@));
    }

    fn put_all(&mut self, v: Vec<Span>)
        ensures
            final(self)@ == (LineView { spans: old(self)@.spans + span_views(v@), ..old(self)@ }),
    {
        let ghost all = v@;
        let ghost before = self@;
        assert(before.spans + span_views(all).take(0) =~= before.spans);
        for s in it: v
            invariant
                it.seq() == all,
                self@ == (LineView { spans: before.spans + span_views(all).take(it.index() as int), ..before }),
        {
            let ghost k = it.index() as int;
            assert(span_views(all)[k] == s@);
            self.put(s);
            assert(self@.spans =~= before.spans + span_views(all).take(k + 1));
        }
        assert(span_views(all).take(all.len() as int) =~= span_views(all));
    }

    fn plain(&mut self, text: &str)
        ensures
            final(self)@ == (LineView { spans: old(self)@.spans.push(plain(text@)), ..old(self)@ }),
    {
        self.put(Span { text: text.to_owned(), color: None, bold: false, fit: None, width: 0 });
    }

    fn tinted(&mut self, text: &str, color: u8)
        ensures
            final(self)@ == (LineView { spans: old(self)@.spans.push(tinted(text@, color)), ..old(self)@ }),
    {
        self.put(Span { text: text.to_owned(), color: Some(color), bold: false, fit: None, width: 0 });
    }

    fn strong(&mut self, text: &str, color: u8)
        ensures
            final(self)@ == (LineView { spans: old(self)@.spans.push(strong(text@, color)), ..old(self)@ }),
    {
        self.put(Span { text: text.to_owned(), color: Some(color), bold: true, fit: None, width: 0 });
    }

    fn column(&mut self, text: &str, width: usize)
        ensures
            final(self)@ == (LineView { spans: old(self)@.spans.push(column(text@, width)), ..old(self)@ }),
    {
        self.put(Span { text: text.to_owned(), color: None, bold: false, fit: Some(width), width });
    }
}

fn put_line(out: &mut Vec<Line>, l: Line)
    ensures
        line_views(final(out)@) == line_views(old(out)@).push(l@),
{
    out.push(l);
    assert(line_views(out@) =~= line_views(old(out)@).push(l@));
}

// ---- Cutting --------------------------------------------------------

/// How many cells the first `n` characters take.
pub open spec fn cells(widths: Seq<usize>, n: int) -> int
    decreases n,
{
    if n <= 0 {
        0
    } else {
        cells(widths, n - 1) + widths[n - 1]
    }
}

/// How many characters fit into `room` cells, from character `from` on.
pub open spec fn fitting(widths: Seq<usize>, from: int, room: int) -> int
    decreases widths.len() - from,
{
    if from < 0 || from >= widths.len() || widths[from] > room {
        0
    } else {
        1 + fitting(widths, from + 1, room - widths[from])
    }
}

/// `s` in at most `max` cells: as it is where it fits, or else cut, with an
/// ellipsis. `widths` holds the width of each character, `total` that of all.
pub open spec fn cut(s: Seq<char>, widths: Seq<usize>, total: usize, max: usize) -> Seq<char> {
    if total <= max {
        s
    } else {
        s.take(fitting(widths, 0, if max > 0 { max - 1 } else { 0 })).push('…')
    }
}

pub fn truncate(s: &str, widths: &Vec<usize>, total: usize, max: usize) -> (r: String)
    requires
        widths@.len() == s@.len(),
    ensures
        r@ == cut(s@, widths@, total, max),
{
    if total <= max {
        return s.to_owned();
    }
    let v = chars_of(s);
    let ghost room: int = if max > 0 {
        max - 1
    } else {
        0
    };
    let mut left: usize = if max > 0 {
        max - 1
    } else {
        0
    };
    let mut n: usize = 0;
    while n < widths.len() && widths[n] <= left
        invariant
            n <= widths@.len(),
            fitting(widths@, 0, room) == n + fitting(widths@, n as int, left as int),
        decreases widths.len() - n,
    {
        left = left - widths[n];
        n = n + 1;
    }
    let mut out = string_of(&v, 0, n);
    assert(out@ =~= s@.take(n as int));
    out.push('…');
    out
}

proof fn lemma_fitting(widths: Seq<usize>, from: int, room: int)
    requires
        0 <= from <= widths.len(),
        0 <= room,
    ensures
        0 <= fitting(widths, from, room) <= widths.len() - from,
        cells(widths, from + fitting(widths, from, room)) <= cells(widths, from) + room,
        from + fitting(widths, from, room) < widths.len() ==> cells(widths, from + fitting(widths, from, room) + 1)
            > cells(widths, from) + room,
    decreases widths.len() - from,
{
    if from < widths.len() && widths[from] <= room {
        lemma_fitting(widths, from + 1, room - widths[from]);
        assert(cells(widths, from + 1) == cells(widths, from) + widths[from]);
    } else if from < widths.len() {
        assert(cells(widths, from + 1) == cells(widths, from) + widths[from]);
    }
}

/// What fits is as long as can be: it takes no more than the room there is,
/// and with one character more it would.
pub proof fn law_fitting_is_longest(widths: Seq<usize>, room: int)
    requires
        0 <= room,
    ensures
        0 <= fitting(widths, 0, room) <= widths.len(),
        cells(widths, fitting(widths, 0, room)) <= room,
        fitting(widths, 0, room) < widths.len() ==> cells(widths, fitting(widths, 0, room) + 1) > room,
{
    lemma_fitting(widths, 0, room);
}

/// A cut text takes no more cells than it may, its ellipsis included.
pub proof fn law_cut_text_fits(s: Seq<char>, widths: Seq<usize>, total: usize, max: usize)
    requires
        widths.len() == s.len(),
        total > max,
        max > 0,
    ensures
        ({
            let n = fitting(widths, 0, max - 1);
            &&& cut(s, widths, total, max) == s.take(n).push('…')
            &&& cells(widths, n) + 1 <= max
        }),
{
    lemma_fitting(widths, 0, max - 1);
}

impl Span {
    /// The text of a piece, cut if it has to be.
    pub open spec fn text_cut(self, widths: Seq<usize>, total: usize) -> Seq<char> {
        match self.fit {
            Some(max) => cut(self.text@, widths, total, max),
            None => self.text@,
        }
    }

    /// The text that is drawn. A piece without a style is filled up here; in
    /// one with a style the escape sequences count too, so it is filled up
    /// once it is styled.
    pub open spec fn drawn(self, widths: Seq<usize>, total: usize) -> Seq<char> {
        if self.color is None && !self.bold {
            padded(self.text_cut(widths, total), self.width as nat)
        } else {
            self.text_cut(widths, total)
        }
    }

    /// The text that is drawn. `widths` holds the width of each character,
    /// `total` that of the whole text.
    pub fn shown(&self, widths: &Vec<usize>, total: usize) -> (r: String)
        requires
            widths@.len() == self.text@.len(),
        ensures
            r@ == self.drawn(widths@, total),
    {
        let text: String = match self.fit {
            Some(max) => truncate(&self.text, widths, total, max),
            None => self.text.clone(),
        };
        match self.color {
            None => if self.bold {
                text
            } else {
                pad(&text, self.width)
            },
            Some(_) => text,
        }
    }
}

// ---- Times and bars -------------------------------------------------

/// Minutes and seconds.
pub open spec fn minutes(ms: nat) -> Seq<char> {
    decimal(ms / 1000 / 60) + ":"@ + two_digits(ms / 1000 % 60)
}

pub fn fmt_ms(ms: u64) -> (r: String)
    ensures
        r@ == minutes(ms as nat),
{
    let secs: u64 = ms / 1000;
    let mut r = decimal_of(secs / 60);
    r.append(":");
    r.append(&two_digits_of(secs % 60));
    r
}

/// The narrowest bar that shows how far it got.
pub const BAR_MIN: usize = 4;

/// The progress bar in `width` cells, `filled` of them done; dashes where the
/// length is not known or there is no room.
pub open spec fn bar(total_ms: u64, width: usize, filled: usize) -> Seq<SpanView> {
    if total_ms == 0 || width < BAR_MIN {
        seq![plain(run('—', width as nat))]
    } else {
        seq![
            tinted(run('━', filled as nat), ACCENT),
            tinted(
                run(
                    '─',
                    if filled <= width {
                        (width - filled) as nat
                    } else {
                        0
                    },
                ),
                FG_DIM,
            ),
        ]
    }
}

pub fn progress_bar(total_ms: u64, width: usize, filled: usize) -> (r: Vec<Span>)
    ensures
        span_views(r@) == bar(total_ms, width, filled),
{
    let mut r: Vec<Span> = Vec::new();
    if total_ms == 0 || width < BAR_MIN {
        r.push(Span { text: run_of('—', width), color: None, bold: false, fit: None, width: 0 });
    } else {
        let rest: usize = if filled <= width {
            width - filled
        } else {
            0
        };
        r.push(Span { text: run_of('━', filled), color: Some(ACCENT), bold: false, fit: None, width: 0 });
        r.push(Span { text: run_of('─', rest), color: Some(FG_DIM), bold: false, fit: None, width: 0 });
    }
    assert(span_views(r@) =~= bar(total_ms, width, filled));
    r
}

/// How many characters pieces hold together.
pub open spec fn length(spans: Seq<SpanView>) -> nat
    decreases spans.len(),
{
    if spans.len() == 0 {
        0
    } else {
        length(spans.drop_last()) + spans.last().text.len()
    }
}

/// The bar is as wide as it should be, however far it got.
pub proof fn law_bar_fills_its_width(total_ms: u64, width: usize, filled: usize)
    requires
        filled <= width,
    ensures
        length(bar(total_ms, width, filled)) == width,
{
    let b = bar(total_ms, width, filled);
    reveal_with_fuel(length, 3);
    if b.len() == 1 {
        assert(b.drop_last() =~= Seq::<SpanView>::empty());
    } else {
        assert(b.drop_last() =~= seq![b[0]]);
        assert(b.drop_last().drop_last() =~= Seq::<SpanView>::empty());
    }
}

// ---- Rows -----------------------------------------------------------

/// A row of a list: bright and bold under the cursor, or else in a color of
/// its own, if any.
pub open spec fn row(spans: Seq<SpanView>, selected: bool, color: Option<u8>) -> LineView {
    if selected {
        LineView { spans, color: Some(FG_BRIGHT), bold: true }
    } else {
        LineView { spans, color, bold: false }
    }
}

/// The start of a row, with the cursor or without.
pub open spec fn lead(selected: bool) -> Seq<char> {
    if selected {
        "  ▸  "@
    } else {
        "     "@
    }
}

fn lead_of(selected: bool) -> (r: &'static str)
    ensures
        r@ == lead(selected),
{
    if selected {
        "  ▸  "
    } else {
        "     "
    }
}

impl Line {
    fn mark(&mut self, selected: bool, color: Option<u8>)
        requires
            old(self)@.color is None,
            !old(self)@.bold,
        ensures
            final(self)@ == row(old(self)@.spans, selected, color),
    {
        if selected {
            self.color = Some(FG_BRIGHT);
            self.bold = true;
        } else {
            self.color = color;
        }
    }
}

/// A track: its name, its artists and how long it is.
pub open spec fn track_line(t: Track, selected: bool) -> LineView {
    row(
        seq![
            plain(lead(selected)),
            column(t.name@, 40),
            plain("  "@),
            column(join(texts(t.artists@), ", "@), 28),
            plain("  "@),
            tinted(minutes(unsigned(t.duration_ms) as nat), FG_DIM),
        ],
        selected,
        None,
    )
}

pub fn track_row(t: &Track, selected: bool) -> (r: Line)
    ensures
        r@ == track_line(*t, selected),
{
    let mut l = Line::empty();
    l.plain(lead_of(selected));
    l.column(&t.name, 40);
    l.plain("  ");
    l.column(&join_with(&t.artists, ", "), 28);
    l.plain("  ");
    l.tinted(&fmt_ms(unsigned_of(t.duration_ms)), FG_DIM);
    assert(l@.spans =~= track_line(*t, selected).spans);
    l.mark(selected, None);
    l
}

/// An artist.
pub open spec fn artist_line(a: Artist, selected: bool) -> LineView {
    row(
        seq![plain(lead(selected)), column("♪ "@ + a.name@, 60), plain("  "@), tinted("artist"@, FG_DIM)],
        selected,
        Some(CYAN),
    )
}

pub fn artist_row(a: &Artist, selected: bool) -> (r: Line)
    ensures
        r@ == artist_line(*a, selected),
{
    let mut l = Line::empty();
    l.plain(lead_of(selected));
    l.column(&concat("♪ ", &a.name), 60);
    l.plain("  ");
    l.tinted("artist", FG_DIM);
    assert(l@.spans =~= artist_line(*a, selected).spans);
    l.mark(selected, Some(CYAN));
    l
}

/// A playlist and how many tracks it holds.
pub open spec fn playlist_line(p: Playlist, selected: bool) -> LineView {
    row(
        seq![
            plain(lead(selected)),
            column(p.name@, 40),
            plain("  "@),
            tinted(decimal(p.total as nat) + " tracks"@, FG_DIM),
        ],
        selected,
        None,
    )
}

fn playlist_row(p: &Playlist, selected: bool) -> (r: Line)
    ensures
        r@ == playlist_line(*p, selected),
{
    let mut l = Line::empty();
    l.plain(lead_of(selected));
    l.column(&p.name, 40);
    l.plain("  ");
    l.tinted(&concat(&decimal_of(p.total as u64), " tracks"), FG_DIM);
    assert(l@.spans =~= playlist_line(*p, selected).spans);
    l.mark(selected, None);
    l
}

/// A device's volume; a dash where it is not known.
pub open spec fn volume_text(v: Option<u32>) -> Seq<char> {
    match v {
        Some(n) => decimal(n as nat) + "%"@,
        None => "—"@,
    }
}

/// A device: whether it is active, its name, its kind and its volume.
pub open spec fn device_line(d: Device, selected: bool) -> LineView {
    row(
        seq![
            plain(lead(selected)),
            plain(
                if d.is_active {
                    "● "@
                } else {
                    "○ "@
                },
            ),
            column(d.name@, 24),
            plain("  "@),
            SpanView { text: d.kind@, color: None, bold: false, fit: None, width: 10 },
            plain("  vol "@ + volume_text(d.volume_percent)),
        ],
        selected,
        if d.is_active {
            Some(OK)
        } else {
            None
        },
    )
}

fn device_row(d: &Device, selected: bool) -> (r: Line)
    ensures
        r@ == device_line(*d, selected),
{
    let mut l = Line::empty();
    l.plain(lead_of(selected));
    l.plain(
        if d.is_active {
            "● "
        } else {
            "○ "
        },
    );
    l.column(&d.name, 24);
    l.plain("  ");
    l.put(Span { text: d.kind.clone(), color: None, bold: false, fit: None, width: 10 });
    let vol: String = match d.volume_percent {
        Some(n) => concat(&decimal_of(n as u64), "%"),
        None => "—".to_owned(),
    };
    l.plain(&concat("  vol ", &vol));
    assert(l@.spans =~= device_line(*d, selected).spans);
    let color: Option<u8> = if d.is_active {
        Some(OK)
    } else {
        None
    };
    l.mark(selected, color);
    l
}

// ---- Lists ----------------------------------------------------------

/// The heading above a list: an empty line, the title and an empty line.
pub open spec fn titled(title: Seq<char>) -> Seq<LineView> {
    seq![blank(), bare(seq![plain("  "@), strong(title, ACCENT)]), blank()]
}

fn put_title(out: &mut Vec<Line>, title: &str)
    ensures
        line_views(final(out)@) == line_views(old(out)@) + titled(title@),
{
    put_line(out, Line::empty());
    let mut l = Line::empty();
    l.plain("  ");
    l.strong(title, ACCENT);
    assert(l@.spans =~= seq![plain("  "@), strong(title@, ACCENT)]);
    put_line(out, l);
    put_line(out, Line::empty());
    assert(line_views(out@) =~= line_views(old(out)@) + titled(title@));
}

/// What stands in place of a list.
pub open spec fn note(text: Seq<char>) -> LineView {
    bare(seq![plain("  "@), tinted(text, FG_DIM)])
}

fn put_note(out: &mut Vec<Line>, text: &str)
    ensures
        line_views(final(out)@) == line_views(old(out)@).push(note(text@)),
{
    let mut l = Line::empty();
    l.plain("  ");
    l.tinted(text, FG_DIM);
    assert(l@.spans =~= note(text@).spans);
    put_line(out, l);
}

/// A list under its title, or what stands in its place.
pub open spec fn listed(title: Seq<char>, rows: Seq<LineView>, empty: Seq<char>) -> Seq<LineView> {
    titled(title) + (if rows.len() == 0 {
        seq![note(empty)]
    } else {
        rows
    })
}

pub open spec fn track_lines(tracks: Seq<Track>, idx: usize) -> Seq<LineView> {
    Seq::new(tracks.len(), |i: int| track_line(tracks[i], i == idx))
}

fn put_tracks(out: &mut Vec<Line>, tracks: &Vec<Track>, idx: usize)
    ensures
        line_views(final(out)@) == line_views(old(out)@) + track_lines(tracks@, idx),
{
    let ghost before = line_views(out@);
    let ghost rows = track_lines(tracks@, idx);
    let mut i: usize = 0;
    assert(before + rows.take(0) =~= before);
    while i < tracks.len()
        invariant
            i <= tracks@.len(),
            rows == track_lines(tracks@, idx),
            line_views(out@) == before + rows.take(i as int),
        decreases tracks.len() - i,
    {
        put_line(out, track_row(&tracks[i], i == idx));
        assert(line_views(out@) =~= before + rows.take(i as int + 1));
        i = i + 1;
    }
    assert(rows.take(i as int) =~= rows);
}

fn put_track_list(out: &mut Vec<Line>, title: &str, tracks: &Vec<Track>, idx: usize, empty: &str)
    ensures
        line_views(final(out)@) == line_views(old(out)@) + listed(title@, track_lines(tracks@, idx), empty@),
{
    put_title(out, title);
    if tracks.len() == 0 {
        put_note(out, empty);
    } else {
        put_tracks(out, tracks, idx);
    }
    assert(line_views(out@) =~= line_views(old(out)@) + listed(title@, track_lines(tracks@, idx), empty@));
}

/// A row of the search results.
pub open spec fn search_line(r: SearchRow, selected: bool) -> LineView {
    match r {
        SearchRow::Artist(a) => artist_line(a, selected),
        SearchRow::Track(t) => track_line(t, selected),
    }
}

pub open spec fn search_rows(rows: Seq<SearchRow>, idx: usize) -> Seq<LineView> {
    Seq::new(rows.len(), |i: int| search_line(rows[i], i == idx))
}

pub open spec fn playlist_rows(playlists: Seq<Playlist>, idx: usize) -> Seq<LineView> {
    Seq::new(playlists.len(), |i: int| playlist_line(playlists[i], i == idx))
}

pub open spec fn device_rows(devices: Seq<Device>, idx: usize) -> Seq<LineView> {
    Seq::new(devices.len(), |i: int| device_line(devices[i], i == idx))
}

/// The line above the search results: what was searched for.
pub open spec fn query_line(query: Seq<char>) -> LineView {
    bare(
        seq![plain("  "@), tinted("/"@, ACCENT), plain("  "@)] + (if query.len() == 0 {
            seq![tinted("Press / to search…"@, FG_DIM)]
        } else {
            seq![tinted("query:"@, FG_DIM), plain("  "@), tinted(query, FG)]
        }),
    )
}

impl App {
    /// The name of the open playlist.
    pub open spec fn playlist_title(self) -> Seq<char> {
        match self.open_playlist {
            Some(p) => p.name@,
            None => "Playlist"@,
        }
    }

    fn title_of_playlist(&self) -> (r: &str)
        ensures
            r@ == self.playlist_title(),
    {
        match &self.open_playlist {
            Some(p) => p.name.as_str(),
            None => "Playlist",
        }
    }

    pub open spec fn search_page(self) -> Seq<LineView> {
        seq![blank(), query_line(self.search_query@), blank()] + search_rows(self.search_results@, self.search_idx) + (
        if self.search_results@.len() == 0 && self.search_query@.len() > 0 {
            seq![note("(no results)"@)]
        } else {
            Seq::empty()
        })
    }

    pub open spec fn playlists_page(self) -> Seq<LineView> {
        listed("Your playlists"@, playlist_rows(self.playlists@, self.playlists_idx), "Loading…"@)
    }

    pub open spec fn playlist_tracks_page(self) -> Seq<LineView> {
        listed(self.playlist_title(), track_lines(self.playlist_tracks@, self.playlist_tracks_idx), "Loading…"@)
    }

    pub open spec fn saved_page(self) -> Seq<LineView> {
        listed("Your liked songs"@, track_lines(self.saved_tracks@, self.saved_idx), "Loading…"@)
    }

    pub open spec fn queue_page(self) -> Seq<LineView> {
        listed(
            "Up next"@,
            track_lines(self.queue@, self.queue_idx),
            "(queue empty — Spotify shows context-driven autoplay here)"@,
        )
    }

    pub open spec fn devices_page(self) -> Seq<LineView> {
        listed(
            "Spotify Connect devices"@,
            device_rows(self.devices@, self.devices_idx),
            "No devices available (open Spotify on your phone or desktop first)."@,
        )
    }

    pub fn lines_search(&self, out: &mut Vec<Line>)
        ensures
            line_views(final(out)@) == line_views(old(out)@) + self.search_page(),
    {
        let ghost before = line_views(out@);
        put_line(out, Line::empty());
        let mut l = Line::empty();
        l.plain("  ");
        l.tinted("/", ACCENT);
        l.plain("  ");
        if self.search_query.as_str().is_empty() {
            l.tinted("Press / to search…", FG_DIM);
        } else {
            l.tinted("query:", FG_DIM);
            l.plain("  ");
            l.tinted(&self.search_query, FG);
        }
        assert(l@.spans =~= query_line(self.search_query@).spans);
        put_line(out, l);
        put_line(out, Line::empty());
        let ghost top = seq![blank(), query_line(self.search_query@), blank()];
        let ghost rows = search_rows(self.search_results@, self.search_idx);
        assert(line_views(out@) =~= before + top + rows.take(0));
        let mut i: usize = 0;
        while i < self.search_results.len()
            invariant
                i <= self.search_results@.len(),
                rows == search_rows(self.search_results@, self.search_idx),
                line_views(out@) == before + top + rows.take(i as int),
            decreases self.search_results.len() - i,
        {
            let selected: bool = i == self.search_idx;
            let r = match &self.search_results[i] {
                SearchRow::Artist(a) => artist_row(a, selected),
                SearchRow::Track(t) => track_row(t, selected),
            };
            put_line(out, r);
            assert(line_views(out@) =~= before + top + rows.take(i as int + 1));
            i = i + 1;
        }
        assert(rows.take(i as int) =~= rows);
        if self.search_results.len() == 0 && !self.search_query.as_str().is_empty() {
            put_note(out, "(no results)");
        }
        assert(line_views(out@) =~= before + self.search_page());
    }

    pub fn lines_playlists(&self, out: &mut Vec<Line>)
        ensures
            line_views(final(out)@) == line_views(old(out)@) + self.playlists_page(),
    {
        put_title(out, "Your playlists");
        let ghost before = line_views(out@);
        let ghost rows = playlist_rows(self.playlists@, self.playlists_idx);
        if self.playlists.len() == 0 {
            put_note(out, "Loading…");
            assert(line_views(out@) =~= line_views(old(out)@) + self.playlists_page());
            return;
        }
        let mut i: usize = 0;
        assert(before + rows.take(0) =~= before);
        while i < self.playlists.len()
            invariant
                i <= self.playlists@.len(),
                rows == playlist_rows(self.playlists@, self.playlists_idx),
                line_views(out@) == before + rows.take(i as int),
            decreases self.playlists.len() - i,
        {
            put_line(out, playlist_row(&self.playlists[i], i == self.playlists_idx));
            assert(line_views(out@) =~= before + rows.take(i as int + 1));
            i = i + 1;
        }
        assert(rows.take(i as int) =~= rows);
        assert(line_views(out@) =~= line_views(old(out)@) + self.playlists_page());
    }

    pub fn lines_playlist_tracks(&self, out: &mut Vec<Line>)
        ensures
            line_views(final(out)@) == line_views(old(out)@) + self.playlist_tracks_page(),
    {
        put_track_list(
            out,
            self.title_of_playlist(),
            &self.playlist_tracks,
            self.playlist_tracks_idx,
            "Loading…",
        );
    }

    pub fn lines_saved(&self, out: &mut Vec<Line>)
        ensures
            line_views(final(out)@) == line_views(old(out)@) + self.saved_page(),
    {
        put_track_list(out, "Your liked songs", &self.saved_tracks, self.saved_idx, "Loading…");
    }

    pub fn lines_queue(&self, out: &mut Vec<Line>)
        ensures
            line_views(final(out)@) == line_views(old(out)@) + self.queue_page(),
    {
        put_track_list(
            out,
            "Up next",
            &self.queue,
            self.queue_idx,
            "(queue empty — Spotify shows context-driven autoplay here)",
        );
    }

    pub fn lines_devices(&self, out: &mut Vec<Line>)
        ensures
            line_views(final(out)@) == line_views(old(out)@) + self.devices_page(),
    {
        put_title(out, "Spotify Connect devices");
        let ghost before = line_views(out@);
        let ghost rows = device_rows(self.devices@, self.devices_idx);
        if self.devices.len() == 0 {
            put_note(out, "No devices available (open Spotify on your phone or desktop first).");
            assert(line_views(out@) =~= line_views(old(out)@) + self.devices_page());
            return;
        }
        let mut i: usize = 0;
        assert(before + rows.take(0) =~= before);
        while i < self.devices.len()
            invariant
                i <= self.devices@.len(),
                rows == device_rows(self.devices@, self.devices_idx),
                line_views(out@) == before + rows.take(i as int),
            decreases self.devices.len() - i,
        {
            put_line(out, device_row(&self.devices[i], i == self.devices_idx));
            assert(line_views(out@) =~= before + rows.take(i as int + 1));
            i = i + 1;
        }
        assert(rows.take(i as int) =~= rows);
        assert(line_views(out@) =~= line_views(old(out)@) + self.devices_page());
    }
}

// ---- Files and radio ------------------------------------------------

/// A row of the files: a folder with a slash behind its name, or a file.
pub open spec fn entry_line(e: Entry, selected: bool) -> LineView {
    if e.is_dir {
        row(seq![plain(lead(selected)), column(e.name@ + "/"@, 60)], selected, Some(CYAN))
    } else {
        row(seq![plain(lead(selected)), column(e.name@, 60)], selected, None)
    }
}

fn entry_row(e: &Entry, selected: bool) -> (l: Line)
    ensures
        l@ == entry_line(*e, selected),
{
    let mut l = Line::empty();
    l.plain(lead_of(selected));
    if e.is_dir {
        l.column(&concat(&e.name, "/"), 60);
        l.mark(selected, Some(CYAN));
    } else {
        l.column(&e.name, 60);
        l.mark(selected, None);
    }
    assert(l@.spans =~= entry_line(*e, selected).spans);
    l
}

/// A row of the radio: a star where the station is kept, its name, its country
/// and how it is sent.
pub open spec fn station_line(s: Station, kept: bool, selected: bool) -> LineView {
    row(
        seq![
            plain(lead(selected)),
            tinted(if kept { "★ "@ } else { "  "@ }, AMBER),
            column(s.name@, 40),
            plain("  "@),
            tinted(s.country@, FG_MUTED),
            plain("  "@),
            tinted(s.codec@ + " "@ + decimal(s.bitrate as nat), FG_DIM),
        ],
        selected,
        None,
    )
}

fn station_row(s: &Station, kept: bool, selected: bool) -> (l: Line)
    ensures
        l@ == station_line(*s, kept, selected),
{
    let mut l = Line::empty();
    l.plain(lead_of(selected));
    if kept {
        l.tinted("★ ", AMBER);
    } else {
        l.tinted("  ", AMBER);
    }
    l.column(&s.name, 40);
    l.plain("  ");
    l.tinted(&s.country, FG_MUTED);
    l.plain("  ");
    let mut sent = concat(&s.codec, " ");
    sent.append(&decimal_of(s.bitrate as u64));
    l.tinted(&sent, FG_DIM);
    l.mark(selected, None);
    assert(l@.spans =~= station_line(*s, kept, selected).spans);
    l
}

pub open spec fn entry_rows(files: Seq<Entry>, idx: usize) -> Seq<LineView> {
    Seq::new(files.len(), |i: int| entry_line(files[i], i == idx))
}

pub open spec fn station_rows(stations: Seq<Station>, kept: Seq<Station>, idx: usize) -> Seq<LineView> {
    Seq::new(stations.len(), |i: int| station_line(stations[i], is_kept(kept, stations[i]), i == idx))
}

fn put_stations(out: &mut Vec<Line>, stations: &Vec<Station>, kept: &Vec<Station>, idx: usize)
    ensures
        line_views(final(out)@) == line_views(old(out)@) + station_rows(stations@, kept@, idx),
{
    let ghost before = line_views(out@);
    let ghost rows = station_rows(stations@, kept@, idx);
    let mut i: usize = 0;
    assert(before + rows.take(0) =~= before);
    while i < stations.len()
        invariant
            i <= stations@.len(),
            rows == station_rows(stations@, kept@, idx),
            line_views(out@) == before + rows.take(i as int),
        decreases stations.len() - i,
    {
        put_line(out, station_row(&stations[i], keeps(kept, &stations[i]), i == idx));
        assert(line_views(out@) =~= before + rows.take(i as int + 1));
        i = i + 1;
    }
    assert(rows.take(i as int) =~= rows);
}

impl App {
    /// The name of the folder in Files.
    pub open spec fn folder_title(self) -> Seq<char> {
        match self.folder {
            Some(f) => f@,
            None => "Files"@,
        }
    }

    pub open spec fn files_page(self) -> Seq<LineView> {
        listed(self.folder_title(), entry_rows(self.files@, self.files_idx), "No folders or music files here."@)
    }

    pub open spec fn radio_page(self) -> Seq<LineView> {
        let rows = station_rows(self.stations(), self.kept@, self.radio_idx);
        match self.found_stations {
            Some(_) => listed("Stations found"@, rows, "No stations found."@),
            None => listed("Your stations"@, rows, "No stations kept yet — press / to find some."@),
        }
    }

    pub fn lines_files(&self, out: &mut Vec<Line>)
        ensures
            line_views(final(out)@) == line_views(old(out)@) + self.files_page(),
    {
        match &self.folder {
            Some(f) => put_title(out, f),
            None => put_title(out, "Files"),
        }
        let ghost before = line_views(out@);
        let ghost rows = entry_rows(self.files@, self.files_idx);
        if self.files.len() == 0 {
            put_note(out, "No folders or music files here.");
            assert(line_views(out@) =~= line_views(old(out)@) + self.files_page());
            return;
        }
        let mut i: usize = 0;
        assert(before + rows.take(0) =~= before);
        while i < self.files.len()
            invariant
                i <= self.files@.len(),
                rows == entry_rows(self.files@, self.files_idx),
                line_views(out@) == before + rows.take(i as int),
            decreases self.files.len() - i,
        {
            put_line(out, entry_row(&self.files[i], i == self.files_idx));
            assert(line_views(out@) =~= before + rows.take(i as int + 1));
            i = i + 1;
        }
        assert(rows.take(i as int) =~= rows);
        assert(line_views(out@) =~= line_views(old(out)@) + self.files_page());
    }

    pub fn lines_radio(&self, out: &mut Vec<Line>)
        ensures
            line_views(final(out)@) == line_views(old(out)@) + self.radio_page(),
    {
        match &self.found_stations {
            Some(v) => {
                put_title(out, "Stations found");
                if v.len() == 0 {
                    put_note(out, "No stations found.");
                } else {
                    put_stations(out, v, &self.kept, self.radio_idx);
                }
            },
            None => {
                put_title(out, "Your stations");
                if self.kept.len() == 0 {
                    put_note(out, "No stations kept yet — press / to find some.");
                } else {
                    put_stations(out, &self.kept, &self.kept, self.radio_idx);
                }
            },
        }
        assert(line_views(out@) =~= line_views(old(out)@) + self.radio_page());
    }
}

// ---- Help -----------------------------------------------------------

/// One key and what it does.
pub open spec fn key_line(key: Seq<char>, does: Seq<char>) -> LineView {
    bare(
        seq![
            plain("    "@),
            SpanView { text: key, color: Some(ACCENT), bold: false, fit: None, width: 8 },
            plain(" "@ + does),
        ],
    )
}

/// The heading of a group of keys.
pub open spec fn group_line(name: Seq<char>) -> LineView {
    bare(seq![plain("  "@), strong(name, CYAN)])
}

fn put_key(out: &mut Vec<Line>, key: &str, does: &str)
    ensures
        line_views(final(out)@) == line_views(old(out)@).push(key_line(key@, does@)),
{
    let mut l = Line::empty();
    l.plain("    ");
    l.put(Span { text: key.to_owned(), color: Some(ACCENT), bold: false, fit: None, width: 8 });
    l.plain(&concat(" ", does));
    assert(l@.spans =~= key_line(key@, does@).spans);
    put_line(out, l);
}

fn put_group(out: &mut Vec<Line>, name: &str)
    ensures
        line_views(final(out)@) == line_views(old(out)@).push(group_line(name@)),
{
    let mut l = Line::empty();
    l.plain("  ");
    l.strong(name, CYAN);
    assert(l@.spans =~= group_line(name@).spans);
    put_line(out, l);
}

pub open spec fn help_views() -> Seq<LineView> {
    seq![
        group_line("Views"@),
        key_line("/"@, "Search"@),
        key_line("P"@, "Playlists"@),
        key_line("L"@, "Liked / saved tracks"@),
        key_line("Q"@, "Up-next queue"@),
        key_line("d"@, "Devices (Spotify Connect)"@),
        key_line("?"@, "This help"@),
        blank(),
    ]
}

pub open spec fn help_playback() -> Seq<LineView> {
    seq![
        group_line("Playback"@),
        key_line("SPACE"@, "Play / pause"@),
        key_line("n"@, "Next track"@),
        key_line("b"@, "Previous track"@),
        key_line("+ / -"@, "Volume up / down (5%)"@),
        key_line("[ / ]"@, "Seek -5s / +5s"@),
        key_line("s"@, "Toggle shuffle"@),
        key_line("r"@, "Cycle repeat mode (off / context / track)"@),
        blank(),
    ]
}

pub open spec fn help_lists() -> Seq<LineView> {
    seq![
        group_line("Lists"@),
        key_line("j / k"@, "Down / up"@),
        key_line("g / G"@, "Top / bottom"@),
        key_line("ENTER"@, "Play this item / open playlist"@),
        key_line("a"@, "Add this track to the queue"@),
        key_line("h"@, "Back to playlist list"@),
        blank(),
    ]
}

pub open spec fn help_misc() -> Seq<LineView> {
    seq![group_line("Misc"@), key_line("R"@, "Refresh now-playing"@), key_line("q"@, "Quit"@)]
}

/// The help: the keys in groups.
pub open spec fn help_page() -> Seq<LineView> {
    titled("tune — keys"@) + help_views() + help_playback() + help_lists() + help_misc()
}

fn put_help_views(out: &mut Vec<Line>)
    ensures
        line_views(final(out)@) == line_views(old(out)@) + help_views(),
{
    put_group(out, "Views");
    put_key(out, "/", "Search");
    put_key(out, "P", "Playlists");
    put_key(out, "L", "Liked / saved tracks");
    put_key(out, "Q", "Up-next queue");
    put_key(out, "d", "Devices (Spotify Connect)");
    put_key(out, "?", "This help");
    put_line(out, Line::empty());
    assert(line_views(out@) =~= line_views(old(out)@) + help_views());
}

fn put_help_playback(out: &mut Vec<Line>)
    ensures
        line_views(final(out)@) == line_views(old(out)@) + help_playback(),
{
    put_group(out, "Playback");
    put_key(out, "SPACE", "Play / pause");
    put_key(out, "n", "Next track");
    put_key(out, "b", "Previous track");
    put_key(out, "+ / -", "Volume up / down (5%)");
    put_key(out, "[ / ]", "Seek -5s / +5s");
    put_key(out, "s", "Toggle shuffle");
    put_key(out, "r", "Cycle repeat mode (off / context / track)");
    put_line(out, Line::empty());
    assert(line_views(out@) =~= line_views(old(out)@) + help_playback());
}

fn put_help_lists(out: &mut Vec<Line>)
    ensures
        line_views(final(out)@) == line_views(old(out)@) + help_lists(),
{
    put_group(out, "Lists");
    put_key(out, "j / k", "Down / up");
    put_key(out, "g / G", "Top / bottom");
    put_key(out, "ENTER", "Play this item / open playlist");
    put_key(out, "a", "Add this track to the queue");
    put_key(out, "h", "Back to playlist list");
    put_line(out, Line::empty());
    assert(line_views(out@) =~= line_views(old(out)@) + help_lists());
}

fn put_help_misc(out: &mut Vec<Line>)
    ensures
        line_views(final(out)@) == line_views(old(out)@) + help_misc(),
{
    put_group(out, "Misc");
    put_key(out, "R", "Refresh now-playing");
    put_key(out, "q", "Quit");
    assert(line_views(out@) =~= line_views(old(out)@) + help_misc());
}

impl App {
    pub fn lines_help(&self, out: &mut Vec<Line>)
        ensures
            line_views(final(out)@) == line_views(old(out)@) + help_page(),
    {
        put_title(out, "tune — keys");
        put_help_views(out);
        put_help_playback(out);
        put_help_lists(out);
        put_help_misc(out);
        assert(line_views(out@) =~= line_views(old(out)@) + help_page());
    }
}

// ---- The main pane --------------------------------------------------

impl App {
    /// The lines of the screen that is shown.
    pub open spec fn page(self) -> Seq<LineView> {
        match self.screen {
            Screen::Search => self.search_page(),
            Screen::Playlists => self.playlists_page(),
            Screen::PlaylistTracks => self.playlist_tracks_page(),
            Screen::Saved => self.saved_page(),
            Screen::Queue => self.queue_page(),
            Screen::Devices => self.devices_page(),
            Screen::Files => self.files_page(),
            Screen::Radio => self.radio_page(),
            Screen::Help => help_page(),
        }
    }

    pub fn main_lines(&self) -> (r: Vec<Line>)
        ensures
            line_views(r@) == self.page(),
    {
        let mut out: Vec<Line> = Vec::new();
        match self.screen {
            Screen::Search => self.lines_search(&mut out),
            Screen::Playlists => self.lines_playlists(&mut out),
            Screen::PlaylistTracks => self.lines_playlist_tracks(&mut out),
            Screen::Saved => self.lines_saved(&mut out),
            Screen::Queue => self.lines_queue(&mut out),
            Screen::Devices => self.lines_devices(&mut out),
            Screen::Files => self.lines_files(&mut out),
            Screen::Radio => self.lines_radio(&mut out),
            Screen::Help => self.lines_help(&mut out),
        }
        assert(line_views(out@) =~= self.page());
        out
    }

    /// Row `i` of the list on the screen, under the cursor or not.
    pub open spec fn list_row(self, i: int, selected: bool) -> LineView {
        match self.screen {
            Screen::Search => search_line(self.search_results@[i], selected),
            Screen::Playlists => playlist_line(self.playlists@[i], selected),
            Screen::PlaylistTracks => track_line(self.playlist_tracks@[i], selected),
            Screen::Saved => track_line(self.saved_tracks@[i], selected),
            Screen::Queue => track_line(self.queue@[i], selected),
            Screen::Devices => device_line(self.devices@[i], selected),
            Screen::Files => entry_line(self.files@[i], selected),
            Screen::Radio => station_line(self.stations()[i], is_kept(self.kept@, self.stations()[i]), selected),
            Screen::Help => blank(),
        }
    }
}

/// Every item of a list has its row, in the order of the list and right below
/// the heading, and the cursor marks its own row and no other.
pub proof fn law_rows_stand_below_the_heading(a: App, i: int)
    requires
        a.main_len() is Some,
        0 <= i < a.main_len()->0,
    ensures
        LINES_ABOVE + i < a.page().len(),
        a.page()[LINES_ABOVE + i] == a.list_row(i, i == a.main_idx()),
        a.list_row(i, i == a.main_idx()).bold == (i == a.main_idx()),
{
}

// ---- An artist's releases ------------------------------------------

/// A row of an artist's releases: the radio, or a release and its date.
pub open spec fn release_line(r: ReleaseRow, selected: bool) -> LineView {
    match r {
        ReleaseRow::Radio => row(seq![plain(lead(selected)), column("♪ Artist radio"@, 40)], selected, Some(CYAN)),
        ReleaseRow::Release(x) => row(
            seq![plain(lead(selected)), column(x.name@, 40), plain("  "@), tinted(x.date@, FG_DIM)],
            selected,
            None,
        ),
    }
}

fn release_row(r: &ReleaseRow, selected: bool) -> (l: Line)
    ensures
        l@ == release_line(*r, selected),
{
    let mut l = Line::empty();
    l.plain(lead_of(selected));
    match r {
        ReleaseRow::Radio => {
            l.column("♪ Artist radio", 40);
            assert(l@.spans =~= release_line(*r, selected).spans);
            l.mark(selected, Some(CYAN));
        },
        ReleaseRow::Release(x) => {
            l.column(&x.name, 40);
            l.plain("  ");
            l.tinted(&x.date, FG_DIM);
            assert(l@.spans =~= release_line(*r, selected).spans);
            l.mark(selected, None);
        },
    }
    l
}

/// An artist's releases under the artist's name. The cursor shows while it is
/// in this list.
pub open spec fn releases_page(l: Releases) -> Seq<LineView> {
    titled(l.artist.name@) + Seq::new(l.rows@.len(), |i: int| release_line(l.rows@[i], l.focus && i == l.idx))
}

impl App {
    /// The lines beside the search results; none where nothing stands there.
    pub fn releases_lines(&self) -> (r: Option<Vec<Line>>)
        ensures
            match r {
                Some(v) => self.shows_releases() && line_views(v@) == releases_page(self.releases->0),
                None => !self.shows_releases(),
            },
    {
        if self.screen != Screen::Search {
            return None;
        }
        let l = match &self.releases {
            Some(l) => l,
            None => {
                return None;
            },
        };
        let mut out: Vec<Line> = Vec::new();
        put_title(&mut out, &l.artist.name);
        let ghost top = titled(l.artist.name@);
        let ghost rows = Seq::new(l.rows@.len(), |i: int| release_line(l.rows@[i], l.focus && i == l.idx));
        assert(line_views(out@) =~= top + rows.take(0));
        let mut i: usize = 0;
        while i < l.rows.len()
            invariant
                i <= l.rows@.len(),
                rows == Seq::new(l.rows@.len(), |i: int| release_line(l.rows@[i], l.focus && i == l.idx)),
                line_views(out@) == top + rows.take(i as int),
            decreases l.rows.len() - i,
        {
            put_line(&mut out, release_row(&l.rows[i], l.focus && i == l.idx));
            assert(line_views(out@) =~= top + rows.take(i as int + 1));
            i = i + 1;
        }
        assert(rows.take(i as int) =~= rows);
        Some(out)
    }
}

// ---- The header -----------------------------------------------------

impl App {
    /// What the header calls the screen.
    pub open spec fn label(self) -> Seq<char> {
        match self.screen {
            Screen::Search => "Search"@,
            Screen::Playlists => "Playlists"@,
            Screen::PlaylistTracks => self.playlist_title(),
            Screen::Saved => "Saved"@,
            Screen::Queue => "Queue"@,
            Screen::Devices => "Devices"@,
            Screen::Files => "Files"@,
            Screen::Radio => "Radio"@,
            Screen::Help => "Help"@,
        }
    }

    /// The device that plays; a dash where nothing does.
    pub open spec fn device_label(self) -> Seq<char> {
        match self.playback {
            Some(p) => p.device.name@,
            None => "—"@,
        }
    }

    /// The left end of the header: the screen.
    pub fn header_left(&self) -> (r: Line)
        ensures
            r@ == bare(seq![plain(" tune  ["@), strong(self.label(), ACCENT), plain("]"@)]),
    {
        let label: &str = match self.screen {
            Screen::Search => "Search",
            Screen::Playlists => "Playlists",
            Screen::PlaylistTracks => self.title_of_playlist(),
            Screen::Saved => "Saved",
            Screen::Queue => "Queue",
            Screen::Devices => "Devices",
            Screen::Files => "Files",
            Screen::Radio => "Radio",
            Screen::Help => "Help",
        };
        let mut l = Line::empty();
        l.plain(" tune  [");
        l.strong(label, ACCENT);
        l.plain("]");
        assert(l@.spans =~= seq![plain(" tune  ["@), strong(self.label(), ACCENT), plain("]"@)]);
        l
    }

    /// The right end of the header: who is signed in, what plays, and the
    /// version.
    pub fn header_right(&self) -> (r: Line)
        ensures
            r@ == bare(
                seq![
                    tinted(self.user@, FG_MUTED),
                    plain("  "@),
                    tinted("◆ "@ + self.device_label(), CYAN),
                    plain("  v"@ + VERSION@ + " "@),
                ],
            ),
    {
        let dev: &str = match &self.playback {
            Some(p) => p.device.name.as_str(),
            None => "—",
        };
        let mut l = Line::empty();
        l.tinted(&self.user, FG_MUTED);
        l.plain("  ");
        l.tinted(&concat("◆ ", dev), CYAN);
        let mut v = concat("  v", VERSION);
        v.append(" ");
        l.plain(&v);
        assert(l@.spans =~= seq![
            tinted(self.user@, FG_MUTED),
            plain("  "@),
            tinted("◆ "@ + self.device_label(), CYAN),
            plain("  v"@ + VERSION@ + " "@),
        ]);
        l
    }

    /// How many blanks stand between the two ends of the header, which are so
    /// many cells wide.
    pub fn header_gap(&self, left: usize, right: usize) -> (r: usize)
        requires
            left + right <= usize::MAX,
        ensures
            r == (if left + right <= self.cols {
                self.cols - left - right
            } else {
                0
            }),
    {
        if left + right <= self.cols as usize {
            self.cols as usize - left - right
        } else {
            0
        }
    }
}

// ---- What plays -----------------------------------------------------

/// The height of the pane for what plays.
pub const NOW_H: u16 = 10;

/// The width of the cover, about square with [`NOW_H`] lines.
pub const COVER_W: u16 = 20;

/// The column of the cover.
pub const COVER_X: u16 = 2;

/// How far the text is indented, so that the cover has room.
pub const INDENT: usize = 23;

/// How many cells the times beside the bar may take.
pub const TIMES_W: usize = 20;

/// How far into the item, in milliseconds, as it is shown.
pub open spec fn elapsed(p: Playback) -> u64 {
    match p.progress_ns {
        Some(ns) => unsigned(crate::playback::whole_ms(ns as int) as i64),
        None => 0,
    }
}

/// The width of the bar on a screen of so many columns.
pub open spec fn bar_width(cols: u16) -> usize {
    if cols >= INDENT + TIMES_W {
        (cols - INDENT - TIMES_W) as usize
    } else {
        0
    }
}

/// How shuffle and repeat are shown.
pub open spec fn modes(p: Playback) -> Seq<char> {
    "["@ + (if p.shuffle_state {
        "🔀"@
    } else {
        "  "@
    }) + " "@ + (match p.repeat_state {
        RepeatState::Off => "  "@,
        RepeatState::Context => "🔁"@,
        RepeatState::Track => "🔂"@,
    }) + "]"@
}

/// How mpv's repeat is shown. Its list is shuffled once, which is no mode.
pub open spec fn local_modes(m: Mpv) -> Seq<char> {
    "["@ + "  "@ + " "@ + (match m.repeat {
        Repeat::Off => "  "@,
        Repeat::List => "🔁"@,
        Repeat::Track => "🔂"@,
    }) + "]"@
}

/// A line that names what plays.
pub open spec fn name_line(playing: bool, title: Seq<char>, artist: Seq<char>, modes: Seq<char>) -> LineView {
    bare(
        seq![
            plain(run(' ', INDENT as nat)),
            if playing {
                tinted("▶"@, OK)
            } else {
                tinted("⏸"@, AMBER)
            },
            plain(" "@),
            strong(title, FG_BRIGHT),
            plain("  "@),
            tinted("—"@, FG_DIM),
            plain("  "@),
            tinted(artist, FG),
            plain("  "@),
            tinted(modes, FG_DIM),
        ],
    )
}

/// A line that shows how far it got.
pub open spec fn time_line(cur_ms: u64, all_ms: u64, cols: u16, filled: usize) -> LineView {
    bare(
        seq![plain(run(' ', INDENT as nat)), tinted(minutes(cur_ms as nat), FG_DIM), plain("  "@)] + bar(
            all_ms,
            bar_width(cols),
            filled,
        ) + seq![plain("  "@), tinted(minutes(all_ms as nat), FG_DIM)],
    )
}

/// The line that names what Spotify plays.
pub open spec fn playing_line(p: Playback) -> LineView {
    name_line(p.is_playing, heading(p.item).0, heading(p.item).1, modes(p))
}

/// The line that shows how far Spotify got.
pub open spec fn progress_line(p: Playback, cols: u16, filled: usize) -> LineView {
    time_line(elapsed(p), total_ms(p.item), cols, filled)
}

/// The line that names what mpv plays: a file's title, or the song that a
/// station sends.
pub open spec fn local_line(m: Mpv) -> LineView {
    name_line(!m.state.paused, m.state.title@, m.state.artist@, local_modes(m))
}

/// The line that shows how far mpv got.
pub open spec fn local_progress(m: Mpv, cols: u16, filled: usize) -> LineView {
    time_line(m.state.pos_ms, m.state.duration_ms, cols, filled)
}

/// A line of the pane while nothing plays.
pub open spec fn hint(text: Seq<char>) -> LineView {
    bare(seq![plain(run(' ', INDENT as nat)), tinted(text, FG_DIM)])
}

fn elapsed_of(p: &Playback) -> (r: u64)
    requires
        p.wf(),
    ensures
        r == elapsed(*p),
{
    match p.progress_ns {
        Some(ns) => unsigned_of(whole_ms_of(ns)),
        None => 0,
    }
}

fn bar_width_of(cols: u16) -> (r: usize)
    ensures
        r == bar_width(cols),
{
    if cols as usize >= INDENT + TIMES_W {
        cols as usize - INDENT - TIMES_W
    } else {
        0
    }
}

fn modes_of(p: &Playback) -> (r: String)
    ensures
        r@ == modes(*p),
{
    let mut s = concat(
        "[",
        if p.shuffle_state {
            "🔀"
        } else {
            "  "
        },
    );
    s.append(" ");
    s.append(
        match p.repeat_state {
            RepeatState::Off => "  ",
            RepeatState::Context => "🔁",
            RepeatState::Track => "🔂",
        },
    );
    s.append("]");
    s
}

fn local_modes_of(m: &Mpv) -> (r: String)
    ensures
        r@ == local_modes(*m),
{
    let mut s = concat("[", "  ");
    s.append(" ");
    s.append(
        match m.repeat {
            Repeat::Off => "  ",
            Repeat::List => "🔁",
            Repeat::Track => "🔂",
        },
    );
    s.append("]");
    s
}

fn name_line_of(playing: bool, title: &str, artist: &str, modes: &str) -> (r: Line)
    ensures
        r@ == name_line(playing, title@, artist@, modes@),
{
    let mut l = Line::empty();
    l.plain(&run_of(' ', INDENT));
    if playing {
        l.tinted("▶", OK);
    } else {
        l.tinted("⏸", AMBER);
    }
    l.plain(" ");
    l.strong(title, FG_BRIGHT);
    l.plain("  ");
    l.tinted("—", FG_DIM);
    l.plain("  ");
    l.tinted(artist, FG);
    l.plain("  ");
    l.tinted(modes, FG_DIM);
    assert(l@.spans =~= name_line(playing, title@, artist@, modes@).spans);
    l
}

fn time_line_of(cur_ms: u64, all_ms: u64, cols: u16, filled: usize) -> (r: Line)
    ensures
        r@ == time_line(cur_ms, all_ms, cols, filled),
{
    let mut l = Line::empty();
    l.plain(&run_of(' ', INDENT));
    l.tinted(&fmt_ms(cur_ms), FG_DIM);
    l.plain("  ");
    l.put_all(progress_bar(all_ms, bar_width_of(cols), filled));
    l.plain("  ");
    l.tinted(&fmt_ms(all_ms), FG_DIM);
    assert(l@.spans =~= time_line(cur_ms, all_ms, cols, filled).spans);
    l
}

fn playing_line_of(p: &Playback) -> (r: Line)
    ensures
        r@ == playing_line(*p),
{
    let (title, artists) = heading_of(&p.item);
    name_line_of(p.is_playing, &title, &artists, &modes_of(p))
}

fn hint_of(text: &str) -> (r: Line)
    ensures
        r@ == hint(text@),
{
    let mut l = Line::empty();
    l.plain(&run_of(' ', INDENT));
    l.tinted(text, FG_DIM);
    assert(l@.spans =~= hint(text@).spans);
    l
}

impl App {
    /// What the bar shows: how far into the item and how long it is, in
    /// milliseconds, and how wide the bar is.
    pub fn progress(&self) -> (r: (u64, u64, usize))
        requires
            self.wf(),
        ensures
            r.0 == (match (self.mpv, self.playback) {
                (Some(m), _) => m.state.pos_ms,
                (None, Some(p)) => elapsed(p),
                (None, None) => 0,
            }),
            r.1 == (match (self.mpv, self.playback) {
                (Some(m), _) => m.state.duration_ms,
                (None, Some(p)) => total_ms(p.item),
                (None, None) => 0,
            }),
            r.2 == bar_width(self.cols),
    {
        if let Some(m) = &self.mpv {
            return (m.state.pos_ms, m.state.duration_ms, bar_width_of(self.cols));
        }
        match &self.playback {
            Some(p) => (elapsed_of(p), total_ms_of(&p.item), bar_width_of(self.cols)),
            None => (0, 0, bar_width_of(self.cols)),
        }
    }

    /// The pane for what plays, with `filled` cells of the bar done: mpv while
    /// there is one, and else Spotify.
    pub fn now_lines(&self, filled: usize) -> (r: Vec<Line>)
        requires
            self.wf(),
        ensures
            line_views(r@) == (match (self.mpv, self.playback) {
                (Some(m), _) => seq![blank(), local_line(m), local_progress(m, self.cols, filled)],
                (None, None) => seq![
                    blank(),
                    hint("Nothing playing."@),
                    hint("Press SPACE to resume on your last device, or `d` to pick one."@),
                ],
                (None, Some(p)) => seq![blank(), playing_line(p), progress_line(p, self.cols, filled)],
            }),
    {
        let mut out: Vec<Line> = Vec::new();
        put_line(&mut out, Line::empty());
        if let Some(m) = &self.mpv {
            put_line(&mut out, name_line_of(!m.state.paused, &m.state.title, &m.state.artist, &local_modes_of(m)));
            put_line(&mut out, time_line_of(m.state.pos_ms, m.state.duration_ms, self.cols, filled));
            assert(line_views(out@) =~= seq![blank(), local_line(*m), local_progress(*m, self.cols, filled)]);
            return out;
        }
        match &self.playback {
            None => {
                put_line(&mut out, hint_of("Nothing playing."));
                put_line(&mut out, hint_of("Press SPACE to resume on your last device, or `d` to pick one."));
                assert(line_views(out@) =~= seq![
                    blank(),
                    hint("Nothing playing."@),
                    hint("Press SPACE to resume on your last device, or `d` to pick one."@),
                ]);
            },
            Some(p) => {
                put_line(&mut out, playing_line_of(p));
                put_line(&mut out, time_line_of(elapsed_of(p), total_ms_of(&p.item), self.cols, filled));
                assert(line_views(out@) =~= seq![
                    blank(),
                    playing_line(*p),
                    progress_line(*p, self.cols, filled),
                ]);
            },
        }
        out
    }

    // ---- The footer -------------------------------------------------

    /// The message, or the most needed keys.
    pub fn footer_line(&self) -> (r: Line)
        ensures
            r@ == bare(
                seq![
                    match self.status {
                        Some((m, c)) => tinted(m@, c),
                        None => tinted(
                            " /:search  P:playlists  L:saved  Q:queue  d:devices  ?:help  q:quit "@,
                            FG_MUTED,
                        ),
                    },
                ],
            ),
    {
        let mut l = Line::empty();
        match &self.status {
            Some((m, c)) => l.tinted(m, *c),
            None => l.tinted(
                " /:search  P:playlists  L:saved  Q:queue  d:devices  ?:help  q:quit ",
                FG_MUTED,
            ),
        }
        assert(l@.spans =~= seq![
            match self.status {
                Some((m, c)) => tinted(m@, c),
                None => tinted(
                    " /:search  P:playlists  L:saved  Q:queue  d:devices  ?:help  q:quit "@,
                    FG_MUTED,
                ),
            },
        ]);
        l
    }
}

// ---- Panes ----------------------------------------------------------

/// A rectangle of the screen. Columns and lines count from 1.
#[derive(Debug, Clone, Copy, PartialEq, Eq, Structural)]
pub struct Area {
    pub x: u16,
    pub y: u16,
    pub w: u16,
    pub h: u16,
}

#[derive(Debug, Clone, Copy, PartialEq, Eq, Structural)]
pub struct Layout {
    pub header: Area,
    pub main: Area,
    pub now: Area,
    pub footer: Area,
}

/// How many lines the main pane has on a screen of so many.
pub open spec fn main_height(rows: u16) -> u16 {
    if rows >= 2 + NOW_H + 1 {
        (rows - (2 + NOW_H + 1)) as u16
    } else {
        0
    }
}

/// The header at the top, the footer at the bottom, what plays above the
/// footer, and the rest for the list.
pub fn layout(cols: u16, rows: u16) -> (r: Layout)
    requires
        rows >= NOW_H,
    ensures
        r.header == (Area { x: 1, y: 1, w: cols, h: 1 }),
        r.main == (Area { x: 1, y: 2, w: cols, h: main_height(rows) }),
        r.now == (Area { x: 1, y: (rows - NOW_H) as u16, w: cols, h: NOW_H }),
        r.footer == (Area { x: 1, y: rows, w: cols, h: 1 }),
        rows >= 2 + NOW_H + 1 ==> stacked(r, rows),
{
    let h: u16 = if rows >= 2 + NOW_H + 1 {
        rows - (2 + NOW_H + 1)
    } else {
        0
    };
    Layout {
        header: Area { x: 1, y: 1, w: cols, h: 1 },
        main: Area { x: 1, y: 2, w: cols, h },
        now: Area { x: 1, y: rows - NOW_H, w: cols, h: NOW_H },
        footer: Area { x: 1, y: rows, w: cols, h: 1 },
    }
}

/// Where an artist's releases go: the right half of the main pane.
pub fn releases_area(cols: u16, rows: u16) -> (r: Area)
    ensures
        r == (Area { x: (cols / 2 + 1) as u16, y: 2, w: (cols - cols / 2) as u16, h: main_height(rows) }),
        r.x + r.w == cols + 1,
{
    let h: u16 = if rows >= 2 + NOW_H + 1 {
        rows - (2 + NOW_H + 1)
    } else {
        0
    };
    Area { x: cols / 2 + 1, y: 2, w: cols - cols / 2, h }
}

/// Whether the panes stand on the screen one below the other.
pub open spec fn stacked(l: Layout, rows: u16) -> bool {
    &&& l.header.y >= 1
    &&& l.header.y + l.header.h <= l.main.y
    &&& l.main.y + l.main.h <= l.now.y
    &&& l.now.y + l.now.h <= l.footer.y
    &&& l.footer.y + l.footer.h <= rows + 1
}

/// Where the cover goes: at the left, beside what plays.
pub fn cover_area(rows: u16) -> (r: Area)
    ensures
        r == (Area {
            x: COVER_X,
            y: (if rows >= NOW_H {
                rows - NOW_H + 1
            } else {
                1
            }) as u16,
            w: COVER_W,
            h: NOW_H,
        }),
{
    let y: u16 = if rows >= NOW_H {
        rows - NOW_H + 1
    } else {
        1
    };
    Area { x: COVER_X, y, w: COVER_W, h: NOW_H }
}

/// The text beside the cover starts to the right of it, with a gap.
pub proof fn law_text_stands_beside_the_cover(p: Playback, cols: u16, filled: usize)
    ensures
        INDENT == COVER_X + COVER_W + 1,
        playing_line(p).spans[0] == plain(run(' ', INDENT as nat)),
        progress_line(p, cols, filled).spans[0] == plain(run(' ', INDENT as nat)),
{
}

// ---- Laws of pieces and lines ---------------------------------------

/// What is known of a piece or a line is what its fields hold.
pub proof fn law_lines_are_seen_as_they_are(s: Span, l: Line, i: int)
    ensures
        s@.text == s.text@ && s@.color == s.color && s@.bold == s.bold && s@.fit == s.fit && s@.width == s.width,
        l@.color == l.color && l@.bold == l.bold && l@.spans.len() == l.spans@.len(),
        0 <= i < l.spans@.len() ==> l@.spans[i] == l.spans@[i]@,
{
}

/// Plain text has no style, tinted text a color, strong text is bold too, and a
/// column is cut and filled up to its width.
pub proof fn law_pieces_have_their_style(text: Seq<char>, color: u8, width: usize)
    ensures
        plain(text) == (SpanView { text, color: None, bold: false, fit: None, width: 0 }),
        tinted(text, color) == (SpanView { text, color: Some(color), bold: false, fit: None, width: 0 }),
        strong(text, color) == (SpanView { text, color: Some(color), bold: true, fit: None, width: 0 }),
        column(text, width) == (SpanView { text, color: None, bold: false, fit: Some(width), width }),
{
}

/// A piece is drawn as it is where it fits, or is not to be cut; one without a
/// style is filled up to its width.
pub proof fn law_pieces_that_fit_are_whole(s: Span, widths: Seq<usize>, total: usize, max: usize)
    ensures
        s.fit is None || total <= s.fit->0 ==> s.text_cut(widths, total) == s.text@,
        s.fit is Some && total > s.fit->0 ==> s.text_cut(widths, total) == cut(s.text@, widths, total, s.fit->0)
            && s.text_cut(widths, total).len() > 0 && s.text_cut(widths, total).last() == '…',
        s.color is Some || s.bold ==> s.drawn(widths, total) == s.text_cut(widths, total),
        s.color is None && !s.bold ==> s.drawn(widths, total) == padded(s.text_cut(widths, total), s.width as nat),
{
}

/// What is cut keeps the start of the text: as many characters as fit beside
/// the ellipsis, and no fewer.
pub proof fn law_cut_text_keeps_its_start(s: Seq<char>, widths: Seq<usize>, total: usize, max: usize)
    requires
        widths.len() == s.len(),
    ensures
        total <= max ==> cut(s, widths, total, max) == s,
        total > max ==> {
            let c = cut(s, widths, total, max);
            let n = c.len() - 1;
            &&& 0 <= n <= s.len()
            &&& c.last() == '…'
            &&& c.drop_last() == s.take(n)
            &&& max > 0 ==> cells(widths, n) <= max - 1
            &&& max > 0 && n < s.len() ==> cells(widths, n + 1) > max - 1
            &&& max == 0 ==> cells(widths, n) == 0
            &&& max == 0 && n < s.len() ==> cells(widths, n + 1) > 0
        },
{
    if total > max {
        let room = if max > 0 { max - 1 } else { 0 };
        lemma_fitting(widths, 0, room);
        let n = fitting(widths, 0, room);
        lemma_cells_grow(widths, n);
        assert(cut(s, widths, total, max).drop_last() =~= s.take(n));
    }
}

proof fn lemma_cells_grow(widths: Seq<usize>, n: int)
    ensures
        cells(widths, n) >= 0,
    decreases n,
{
    if n > 0 {
        lemma_cells_grow(widths, n - 1);
    }
}

/// The cells of a text are those of its characters.
pub proof fn law_cells_add_up(widths: Seq<usize>, n: int)
    ensures
        cells(widths, 0) == 0,
        n >= 0 ==> cells(widths, n + 1) == cells(widths, n) + widths[n],
{
}

/// A time is shown in minutes and in seconds of two digits.
pub proof fn law_times_in_minutes_and_seconds(ms: nat, m: nat, s: nat, rest: nat)
    requires
        ms == (60 * m + s) * 1000 + rest,
        s < 60,
        rest < 1000,
    ensures
        minutes(ms) == decimal(m) + ":"@ + two_digits(s),
{
    assert(ms / 1000 == 60 * m + s);
    assert((60 * m + s) / 60 == m && (60 * m + s) % 60 == s);
}

/// The bar is filled as far as it is done, and the rest of it is left; without
/// a length, or without room, it is a plain line.
pub proof fn law_the_bar_shows_how_far(total_ms: u64, width: usize, filled: usize)
    ensures
        total_ms > 0 && width >= 4 && filled <= width ==> {
            let b = bar(total_ms, width, filled);
            &&& b.len() == 2
            &&& b[0].text == run('━', filled as nat)
            &&& b[1].text == run('─', (width - filled) as nat)
            &&& b[0].color == Some(ACCENT) && b[1].color == Some(FG_DIM)
        },
        total_ms > 0 && width >= 4 && filled > width ==> bar(total_ms, width, filled)[0].text == run('━', filled as nat)
            && bar(total_ms, width, filled)[1].text.len() == 0,
        total_ms == 0 || width < 4 ==> bar(total_ms, width, filled) == seq![plain(run('—', width as nat))],
        BAR_MIN == 4,
{
}

// ---- Laws of rows ---------------------------------------------------

/// The row of the cursor is bold and marked, and any other row has its own
/// color.
pub proof fn law_the_cursor_marks_its_row(spans: Seq<SpanView>, color: Option<u8>)
    ensures
        row(spans, true, color) == (LineView { spans, color: Some(FG_BRIGHT), bold: true }),
        row(spans, false, color) == (LineView { spans, color, bold: false }),
        lead(true) == "  ▸  "@,
        lead(false) == "     "@,
{
}

/// A track's row shows its name, its artists and its length.
pub proof fn law_what_a_track_row_shows(t: Track, selected: bool)
    ensures
        ({
            let s = track_line(t, selected).spans;
            &&& s.len() == 6
            &&& s[0] == plain(lead(selected))
            &&& s[1] == column(t.name@, 40)
            &&& s[3] == column(join(texts(t.artists@), ", "@), 28)
            &&& s[5].text == minutes(unsigned(t.duration_ms) as nat)
            &&& s[2].text == s[4].text
            &&& s[2].text == "  "@
        }),
        track_line(t, selected).bold == selected,
{
}

/// An artist's row and a playlist's row show their names; the playlist's tells
/// how many tracks it holds.
pub proof fn law_what_an_artist_or_playlist_row_shows(a: Artist, p: Playlist, selected: bool)
    ensures
        artist_line(a, selected).spans[0] == plain(lead(selected)),
        artist_line(a, selected).spans[1] == column("♪ "@ + a.name@, 60),
        artist_line(a, selected).spans[3].text == "artist"@,
        !selected ==> artist_line(a, selected).color == Some(CYAN),
        playlist_line(p, selected).spans[0] == plain(lead(selected)),
        playlist_line(p, selected).spans[1] == column(p.name@, 40),
        playlist_line(p, selected).spans[3].text == decimal(p.total as nat) + " tracks"@,
        artist_line(a, selected).bold == selected && playlist_line(p, selected).bold == selected,
{
}

/// A device's row shows whether it is active, its name, its kind and its
/// volume.
pub proof fn law_what_a_device_row_shows(d: Device, selected: bool)
    ensures
        ({
            let s = device_line(d, selected).spans;
            &&& s[0] == plain(lead(selected))
            &&& d.is_active ==> s[1].text == "● "@
            &&& !d.is_active ==> s[1].text == "○ "@
            &&& s[2] == column(d.name@, 24)
            &&& s[4].text == d.kind@ && s[4].width == 10
            &&& d.volume_percent is Some ==> s[5].text == "  vol "@ + (decimal(d.volume_percent->0 as nat) + "%"@)
            &&& d.volume_percent is None ==> s[5].text == "  vol "@ + "—"@
        }),
        !selected && d.is_active ==> device_line(d, selected).color == Some(OK),
        !selected && !d.is_active ==> device_line(d, selected).color is None,
        device_line(d, selected).bold == selected,
{
}

/// A row of the files shows its name, with a slash behind that of a folder.
pub proof fn law_what_a_file_row_shows(e: Entry, selected: bool)
    ensures
        entry_line(e, selected).spans[0] == plain(lead(selected)),
        e.is_dir ==> entry_line(e, selected).spans[1] == column(e.name@ + "/"@, 60),
        !e.is_dir ==> entry_line(e, selected).spans[1] == column(e.name@, 60),
        entry_line(e, selected).bold == selected,
{
}

/// A station's row shows a star exactly where it is kept, and its name,
/// country and quality.
pub proof fn law_what_a_station_row_shows(s: Station, kept: bool, selected: bool)
    ensures
        ({
            let p = station_line(s, kept, selected).spans;
            &&& p[0] == plain(lead(selected))
            &&& kept ==> p[1].text == "★ "@
            &&& !kept ==> p[1].text == "  "@
            &&& p[2] == column(s.name@, 40)
            &&& p[4].text == s.country@
            &&& p[6].text == s.codec@ + " "@ + decimal(s.bitrate as nat)
        }),
        station_line(s, kept, selected).bold == selected,
{
}

/// A row of the releases shows the radio, or a release and its date; the cursor
/// marks one while it is in that list.
pub proof fn law_what_a_release_row_shows(r: Release, l: Releases, i: int)
    ensures
        release_line(ReleaseRow::Radio, false).spans[1] == column("♪ Artist radio"@, 40),
        release_line(ReleaseRow::Release(r), false).spans[1] == column(r.name@, 40),
        release_line(ReleaseRow::Release(r), false).spans[3].text == r.date@,
        releases_page(l).len() == 3 + l.rows@.len(),
        releases_page(l)[1].spans[1].text == l.artist.name@,
        0 <= i < l.rows@.len() ==> releases_page(l)[3 + i] == release_line(l.rows@[i], l.focus && i == l.idx),
        0 <= i < l.rows@.len() ==> releases_page(l)[3 + i].bold == (l.focus && i == l.idx),
{
}

/// Every list shows its own rows below its heading, each marked exactly where
/// its own cursor is.
pub proof fn law_each_list_shows_its_rows(a: App, i: int)
    requires
        0 <= i,
    ensures
        a.screen == Screen::Saved && i < a.saved_tracks@.len() ==> a.page()[3 + i] == track_line(
            a.saved_tracks@[i],
            i == a.saved_idx,
        ),
        a.screen == Screen::Queue && i < a.queue@.len() ==> a.page()[3 + i] == track_line(a.queue@[i], i == a.queue_idx),
        a.screen == Screen::PlaylistTracks && i < a.playlist_tracks@.len() ==> a.page()[3 + i] == track_line(
            a.playlist_tracks@[i],
            i == a.playlist_tracks_idx,
        ),
        a.screen == Screen::Playlists && i < a.playlists@.len() ==> a.page()[3 + i] == playlist_line(
            a.playlists@[i],
            i == a.playlists_idx,
        ),
        a.screen == Screen::Devices && i < a.devices@.len() ==> a.page()[3 + i] == device_line(
            a.devices@[i],
            i == a.devices_idx,
        ),
        a.screen == Screen::Files && i < a.files@.len() ==> a.page()[3 + i] == entry_line(a.files@[i], i == a.files_idx),
        a.screen == Screen::Search && i < a.search_results@.len() ==> match a.search_results@[i] {
            SearchRow::Artist(x) => a.page()[3 + i] == artist_line(x, i == a.search_idx),
            SearchRow::Track(t) => a.page()[3 + i] == track_line(t, i == a.search_idx),
        },
        a.screen == Screen::Radio && a.found_stations is None && i < a.kept@.len() ==> a.page()[3 + i] == station_line(
            a.kept@[i],
            is_kept(a.kept@, a.kept@[i]),
            i == a.radio_idx,
        ),
        a.screen == Screen::Radio && a.found_stations is Some && i < (a.found_stations->0)@.len() ==> a.page()[3 + i]
            == station_line(
            (a.found_stations->0)@[i],
            is_kept(a.kept@, (a.found_stations->0)@[i]),
            i == a.radio_idx,
        ),
{
}

/// A list has its heading and one row for each of its items; an empty one has a
/// note in their place.
pub proof fn law_lists_have_headings(title: Seq<char>, rows: Seq<LineView>, empty: Seq<char>)
    ensures
        listed(title, rows, empty)[1].spans[1] == strong(title, ACCENT),
        listed(title, rows, empty)[0] == blank() && listed(title, rows, empty)[2] == blank(),
        rows.len() > 0 ==> listed(title, rows, empty).len() == 3 + rows.len(),
        rows.len() == 0 ==> listed(title, rows, empty).len() == 4 && listed(title, rows, empty)[3].spans[1].text == empty,
{
}

/// The heading of each list.
pub proof fn law_what_the_headings_say(a: App)
    ensures
        a.screen == Screen::Playlists ==> a.page()[1].spans[1].text == "Your playlists"@,
        a.screen == Screen::Saved ==> a.page()[1].spans[1].text == "Your liked songs"@,
        a.screen == Screen::Queue ==> a.page()[1].spans[1].text == "Up next"@,
        a.screen == Screen::Devices ==> a.page()[1].spans[1].text == "Spotify Connect devices"@,
        a.screen == Screen::PlaylistTracks && a.open_playlist is Some ==> a.page()[1].spans[1].text == (
        a.open_playlist->0).name@,
        a.screen == Screen::PlaylistTracks && a.open_playlist is None ==> a.page()[1].spans[1].text == "Playlist"@,
        a.screen == Screen::Files && a.folder is Some ==> a.page()[1].spans[1].text == (a.folder->0)@,
        a.screen == Screen::Radio && a.found_stations is None ==> a.page()[1].spans[1].text == "Your stations"@,
        a.screen == Screen::Radio && a.found_stations is Some ==> a.page()[1].spans[1].text == "Stations found"@,
        a.screen == Screen::Search && a.search_query@.len() > 0 ==> a.page()[1].spans[5].text == a.search_query@,
        a.screen == Screen::Search && a.search_query@.len() == 0 ==> a.page()[1].spans[3].text == "Press / to search…"@,
        a.screen == Screen::Search && a.search_results@.len() == 0 && a.search_query@.len() > 0 ==> a.page().len() == 4
            && a.page()[3].spans[1].text == "(no results)"@,
        a.screen == Screen::Search && (a.search_results@.len() > 0 || a.search_query@.len() == 0) ==> a.page().len() == 3
            + a.search_results@.len(),
        a.screen == Screen::Help ==> a.page() == help_page(),
{
}

/// What an empty list says.
pub proof fn law_what_empty_lists_say(a: App)
    ensures
        a.screen == Screen::Playlists && a.playlists@.len() == 0 ==> a.page()[3].spans[1].text == "Loading…"@,
        a.screen == Screen::Saved && a.saved_tracks@.len() == 0 ==> a.page()[3].spans[1].text == "Loading…"@,
        a.screen == Screen::PlaylistTracks && a.playlist_tracks@.len() == 0 ==> a.page()[3].spans[1].text == "Loading…"@,
        a.screen == Screen::Queue && a.queue@.len() == 0 ==> a.page()[3].spans[1].text
            == "(queue empty — Spotify shows context-driven autoplay here)"@,
        a.screen == Screen::Devices && a.devices@.len() == 0 ==> a.page()[3].spans[1].text
            == "No devices available (open Spotify on your phone or desktop first)."@,
{
}

/// The help names each key with what it does.
pub proof fn law_what_the_help_says(key: Seq<char>, does: Seq<char>)
    ensures
        key_line(key, does).spans[1].text == key,
        key_line(key, does).spans[2].text == " "@ + does,
        help_page().len() == 3 + 8 + 9 + 7 + 3,
        help_page()[4] == key_line("/"@, "Search"@),
        help_page()[5] == key_line("P"@, "Playlists"@),
        help_page()[6] == key_line("L"@, "Liked / saved tracks"@),
        help_page()[7] == key_line("Q"@, "Up-next queue"@),
        help_page()[8] == key_line("d"@, "Devices (Spotify Connect)"@),
        help_page()[9] == key_line("?"@, "This help"@),
        help_page()[12] == key_line("SPACE"@, "Play / pause"@),
        help_page()[13] == key_line("n"@, "Next track"@),
        help_page()[14] == key_line("b"@, "Previous track"@),
        help_page()[15] == key_line("+ / -"@, "Volume up / down (5%)"@),
        help_page()[16] == key_line("[ / ]"@, "Seek -5s / +5s"@),
        help_page()[17] == key_line("s"@, "Toggle shuffle"@),
        help_page()[18] == key_line("r"@, "Cycle repeat mode (off / context / track)"@),
        help_page()[21] == key_line("j / k"@, "Down / up"@),
        help_page()[22] == key_line("g / G"@, "Top / bottom"@),
        help_page()[23] == key_line("ENTER"@, "Play this item / open playlist"@),
        help_page()[24] == key_line("a"@, "Add this track to the queue"@),
        help_page()[25] == key_line("h"@, "Back to playlist list"@),
        help_page()[28] == key_line("R"@, "Refresh now-playing"@),
        help_page()[29] == key_line("q"@, "Quit"@),
{
}

// ---- Laws of the header and of what plays ---------------------------

/// The header names the screen, and the device on which Spotify plays.
pub proof fn law_what_the_header_says(a: App)
    ensures
        a.screen == Screen::Search ==> a.label() == "Search"@,
        a.screen == Screen::Playlists ==> a.label() == "Playlists"@,
        a.screen == Screen::PlaylistTracks && a.open_playlist is Some ==> a.label() == (a.open_playlist->0).name@,
        a.screen == Screen::PlaylistTracks && a.open_playlist is None ==> a.label() == "Playlist"@,
        a.screen == Screen::Saved ==> a.label() == "Saved"@,
        a.screen == Screen::Queue ==> a.label() == "Queue"@,
        a.screen == Screen::Devices ==> a.label() == "Devices"@,
        a.screen == Screen::Files ==> a.label() == "Files"@,
        a.screen == Screen::Radio ==> a.label() == "Radio"@,
        a.screen == Screen::Help ==> a.label() == "Help"@,
        a.playback is Some ==> a.device_label() == (a.playback->0).device.name@,
        a.playback is None ==> a.device_label() == "—"@,
{
}

/// What plays is shown with whether it plays, its name, who made it, and how
/// shuffle and repeat stand.
pub proof fn law_what_is_shown_of_what_plays(p: Playback)
    ensures
        ({
            let s = playing_line(p).spans;
            &&& s.len() == 10
            &&& p.is_playing ==> s[1] == tinted("▶"@, OK)
            &&& !p.is_playing ==> s[1] == tinted("⏸"@, AMBER)
            &&& s[3].text == heading(p.item).0
            &&& s[7].text == heading(p.item).1
            &&& s[9].text == "["@ + (if p.shuffle_state { "🔀"@ } else { "  "@ }) + " "@ + (if p.repeat_state
                == RepeatState::Off {
                "  "@
            } else if p.repeat_state == RepeatState::Context {
                "🔁"@
            } else {
                "🔂"@
            }) + "]"@
        }),
{
}

/// The same of what mpv plays.
pub proof fn law_what_is_shown_of_mpv(m: Mpv, cols: u16, filled: usize)
    ensures
        ({
            let s = local_line(m).spans;
            &&& s.len() == 10
            &&& !m.state.paused ==> s[1] == tinted("▶"@, OK)
            &&& m.state.paused ==> s[1] == tinted("⏸"@, AMBER)
            &&& s[3].text == m.state.title@
            &&& s[7].text == m.state.artist@
            &&& s[9].text == "["@ + "  "@ + " "@ + (if m.repeat == Repeat::Off {
                "  "@
            } else if m.repeat == Repeat::List {
                "🔁"@
            } else {
                "🔂"@
            }) + "]"@
        }),
        local_progress(m, cols, filled) == time_line(m.state.pos_ms, m.state.duration_ms, cols, filled),
{
}

/// How far it got stands before the bar and how long it is behind it; the bar
/// has the room that the cover and the times leave.
pub proof fn law_times_stand_around_the_bar(p: Playback, cur: u64, all: u64, cols: u16, filled: usize)
    ensures
        time_line(cur, all, cols, filled).spans[1].text == minutes(cur as nat),
        time_line(cur, all, cols, filled).spans.last().text == minutes(all as nat),
        time_line(cur, all, cols, filled).spans.len() == 5 + bar(all, bar_width(cols), filled).len(),
        time_line(cur, all, cols, filled).spans.subrange(3, 3int + bar(all, bar_width(cols), filled).len()) == bar(
            all,
            bar_width(cols),
            filled,
        ),
        cols >= 43 ==> bar_width(cols) == cols - 43,
        cols < 43 ==> bar_width(cols) == 0,
        p.progress_ns is None ==> elapsed(p) == 0,
        progress_line(p, cols, filled) == time_line(elapsed(p), total_ms(p.item), cols, filled),
{
    assert(time_line(cur, all, cols, filled).spans.subrange(3, 3int + bar(all, bar_width(cols), filled).len()) =~= bar(
        all,
        bar_width(cols),
        filled,
    ));
}

/// How far it got is shown in the whole milliseconds that were played.
pub proof fn law_elapsed_time(p: Playback, ms: int)
    requires
        p.wf(),
        p.progress_ns is Some,
    ensures
        0 <= ms && ms * 1_000_000 <= p.progress_ns->0 < (ms + 1) * 1_000_000 ==> elapsed(p) == ms,
        elapsed(p) == unsigned(crate::playback::whole_ms(p.progress_ns->0 as int) as i64),
{
    if 0 <= ms && ms * 1_000_000 <= p.progress_ns->0 < (ms + 1) * 1_000_000 {
        assert(p.progress_ns->0 as int / 1_000_000 == ms);
    }
}

/// A hint or a note is shown as it is.
pub proof fn law_hints_and_notes(text: Seq<char>)
    ensures
        hint(text).spans[1] == tinted(text, FG_DIM),
        note(text).spans[1] == tinted(text, FG_DIM),
        group_line(text).spans[1] == strong(text, CYAN),
        titled(text).len() == 3,
        titled(text)[1].spans[1] == strong(text, ACCENT),
{
}

/// The main pane has what the header, the line below it, what plays and the
/// footer leave.
pub proof fn law_how_high_the_list_is(rows: u16)
    ensures
        rows >= 13 ==> main_height(rows) == rows - 13,
        rows < 13 ==> main_height(rows) == 0,
        NOW_H == 10,
        COVER_W == 20,
{
}

}
