//! An artist's albums and singles, listed beside the search results.

use vstd::prelude::*;
use crate::app::{App, Screen};
use crate::playback::Artist;
use crate::text::{at_most, lemma_text_le_total, lemma_text_le_transitive, text_le};

verus! {

/// An album or a single.
#[derive(Debug, Clone)]
pub struct Release {
    pub id: Option<String>,
    pub name: String,
    /// The day, month or year it came out, as in `1981-12-15`, `1981-12` or
    /// `1981`; empty where it is not known.
    pub date: String,
}

/// A row of the list beside the search results.
#[derive(Debug, Clone)]
pub enum ReleaseRow {
    /// Plays the artist's radio.
    Radio,
    Release(Release),
}

/// What is listed beside the search results.
#[derive(Debug)]
pub struct Releases {
    pub artist: Artist,
    pub rows: Vec<ReleaseRow>,
    pub idx: usize,
    /// Whether the cursor is in this list, and not in the search results.
    pub focus: bool,
}

impl Releases {
    /// The cursor stands on a row, and the top row is the artist's radio.
    pub open spec fn wf(self) -> bool {
        self.idx < self.rows@.len() && self.rows@[0] is Radio
    }
}

// ---- Newest first ---------------------------------------------------

/// Whether `a` is no newer than `b`.
pub open spec fn no_newer(a: Release, b: Release) -> bool {
    text_le(a.date@, b.date@)
}

/// `x` in a list that has the newest first: behind all that are no older.
pub open spec fn with_release(list: Seq<Release>, x: Release) -> Seq<Release>
    decreases list.len(),
{
    if list.len() == 0 || no_newer(x, list.last()) {
        list.push(x)
    } else {
        with_release(list.drop_last(), x).push(list.last())
    }
}

/// Releases with the newest first; those of one day stay as they came.
pub open spec fn newest_first(v: Seq<Release>) -> Seq<Release>
    decreases v.len(),
{
    if v.len() == 0 {
        v
    } else {
        with_release(newest_first(v.drop_last()), v.last())
    }
}

/// Whether no release of a list is newer than one that stands before it.
pub open spec fn has_newest_first(v: Seq<Release>) -> bool {
    forall|i: int, j: int| 0 <= i < j < v.len() ==> no_newer(#[trigger] v[j], #[trigger] v[i])
}

proof fn lemma_with_release(list: Seq<Release>, x: Release, p: int)
    requires
        0 <= p <= list.len(),
        p > 0 ==> no_newer(x, list[p - 1]),
        forall|k: int| p <= k < list.len() ==> !no_newer(x, #[trigger] list[k]),
    ensures
        with_release(list, x) == list.insert(p, x),
    decreases list.len(),
{
    if p == list.len() {
        assert(list.insert(p, x) =~= list.push(x));
    } else {
        let t = list.drop_last();
        assert(!no_newer(x, list[list.len() - 1]));
        assert forall|k: int| p <= k < t.len() implies !no_newer(x, #[trigger] t[k]) by {
            assert(!no_newer(x, list[k]));
        }
        lemma_with_release(t, x, p);
        assert(t.insert(p, x).push(list.last()) =~= list.insert(p, x));
    }
}

/// Orders releases, the newest first.
pub fn order_releases(releases: Vec<Release>) -> (r: Vec<Release>)
    ensures
        r@ == newest_first(releases@),
{
    let ghost all = releases@;
    let mut out: Vec<Release> = Vec::new();
    assert(all.take(0) =~= Seq::<Release>::empty());
    for x in it: releases
        invariant
            it.seq() == all,
            out@ == newest_first(all.take(it.index() as int)),
    {
        let ghost k = it.index() as int;
        let mut p: usize = out.len();
        while p > 0 && !at_most(&x.date, &out[p - 1].date)
            invariant
                p <= out@.len(),
                forall|q: int| p <= q < out@.len() ==> !no_newer(x, #[trigger] out@[q]),
            decreases p,
        {
            p = p - 1;
        }
        proof {
            lemma_with_release(out@, x, p as int);
            assert(all.take(k + 1).drop_last() =~= all.take(k));
            assert(all.take(k + 1).last() == x);
        }
        out.insert(p, x);
    }
    assert(all.take(all.len() as int) =~= all);
    out
}

proof fn lemma_with_release_keeps_order(list: Seq<Release>, x: Release)
    requires
        has_newest_first(list),
    ensures
        has_newest_first(with_release(list, x)),
        forall|i: int|
            0 <= i < with_release(list, x).len() ==> (#[trigger] with_release(list, x)[i] == x || list.contains(
                with_release(list, x)[i],
            )),
        with_release(list, x).len() == list.len() + 1,
    decreases list.len(),
{
    let r = with_release(list, x);
    if list.len() == 0 || no_newer(x, list.last()) {
        assert forall|i: int, j: int| 0 <= i < j < r.len() implies no_newer(#[trigger] r[j], #[trigger] r[i]) by {
            if j == list.len() {
                if i < list.len() - 1 {
                    assert(no_newer(list[list.len() - 1], list[i]));
                    lemma_text_le_transitive(x.date@, list.last().date@, list[i].date@);
                }
            }
        }
        assert forall|i: int| 0 <= i < r.len() implies (#[trigger] r[i] == x || list.contains(r[i])) by {
            if i < list.len() {
                assert(list[i] == r[i]);
            }
        }
    } else {
        let t = list.drop_last();
        let s = with_release(t, x);
        lemma_with_release_keeps_order(t, x);
        lemma_text_le_total(x.date@, list.last().date@);
        assert forall|i: int| 0 <= i < s.len() implies no_newer(list.last(), #[trigger] s[i]) by {
            if s[i] != x {
                assert(t.contains(s[i]));
                let k = choose|k: int| 0 <= k < t.len() && t[k] == s[i];
                assert(no_newer(list[list.len() - 1], list[k]));
            }
        }
        assert forall|i: int, j: int| 0 <= i < j < r.len() implies no_newer(#[trigger] r[j], #[trigger] r[i]) by {
            if j < s.len() {
                assert(r[j] == s[j] && r[i] == s[i]);
            } else {
                assert(r[i] == s[i]);
            }
        }
        assert forall|i: int| 0 <= i < r.len() implies (#[trigger] r[i] == x || list.contains(r[i])) by {
            if i < s.len() {
                assert(r[i] == s[i]);
                if s[i] != x {
                    let k = choose|k: int| 0 <= k < t.len() && t[k] == s[i];
                    assert(list[k] == r[i]);
                }
            } else {
                assert(list[list.len() - 1] == r[i]);
            }
        }
    }
}

/// The newest releases come first.
pub proof fn law_newest_come_first(v: Seq<Release>)
    ensures
        has_newest_first(newest_first(v)),
    decreases v.len(),
{
    if v.len() > 0 {
        law_newest_come_first(v.drop_last());
        lemma_with_release_keeps_order(newest_first(v.drop_last()), v.last());
    }
}

proof fn lemma_with_release_multiset(list: Seq<Release>, x: Release)
    ensures
        with_release(list, x).to_multiset() == list.to_multiset().insert(x),
    decreases list.len(),
{
    broadcast use vstd::seq_lib::group_to_multiset_ensures;

    if list.len() == 0 || no_newer(x, list.last()) {
    } else {
        let t = list.drop_last();
        lemma_with_release_multiset(t, x);
        assert(t.push(list.last()) =~= list);
        assert(with_release(list, x).to_multiset() =~= list.to_multiset().insert(x));
    }
}

/// Every release is listed, as often as it came, and nothing else is.
pub proof fn law_every_release_is_listed(v: Seq<Release>)
    ensures
        newest_first(v).to_multiset() == v.to_multiset(),
    decreases v.len(),
{
    broadcast use vstd::seq_lib::group_to_multiset_ensures;

    if v.len() > 0 {
        law_every_release_is_listed(v.drop_last());
        lemma_with_release_multiset(newest_first(v.drop_last()), v.last());
        assert(v.drop_last().push(v.last()) =~= v);
    }
}

/// The releases of one day, in the order of the list.
pub open spec fn of_day(v: Seq<Release>, day: Seq<char>) -> Seq<Release>
    decreases v.len(),
{
    if v.len() == 0 {
        v
    } else if v.last().date@ == day {
        of_day(v.drop_last(), day).push(v.last())
    } else {
        of_day(v.drop_last(), day)
    }
}

proof fn lemma_same_text_le(a: Seq<char>)
    ensures
        text_le(a, a),
{
    lemma_text_le_total(a, a);
}

proof fn lemma_with_release_day(list: Seq<Release>, x: Release, day: Seq<char>)
    ensures
        of_day(with_release(list, x), day) == of_day(list.push(x), day),
    decreases list.len(),
{
    assert(list.push(x).drop_last() =~= list);
    if list.len() == 0 || no_newer(x, list.last()) {
    } else {
        let t = list.drop_last();
        lemma_with_release_day(t, x, day);
        assert(t.push(x).drop_last() =~= t);
        assert(with_release(t, x).push(list.last()).drop_last() =~= with_release(t, x));
        lemma_same_text_le(x.date@);
        assert(x.date@ != list.last().date@);
        reveal_with_fuel(of_day, 3);
    }
}

/// Releases of one day stay in the order in which they came.
pub proof fn law_releases_of_one_day_stay(v: Seq<Release>, day: Seq<char>)
    ensures
        of_day(newest_first(v), day) == of_day(v, day),
    decreases v.len(),
{
    if v.len() > 0 {
        let n = newest_first(v.drop_last());
        law_releases_of_one_day_stay(v.drop_last(), day);
        lemma_with_release_day(n, v.last(), day);
        assert(n.push(v.last()).drop_last() =~= n);
    }
}

// ---- The list -------------------------------------------------------

/// The rows for an artist's releases: the radio on top, then the newest first.
pub open spec fn release_rows(releases: Seq<Release>) -> Seq<ReleaseRow> {
    seq![ReleaseRow::Radio] + newest_first(releases).map_values(|r: Release| ReleaseRow::Release(r))
}

impl App {
    /// Lists an artist's releases beside the search results, with the cursor
    /// on the top row.
    pub fn load_releases(&mut self, artist: Artist, releases: Vec<Release>)
        ensures
            match final(self).releases {
                Some(l) => {
                    &&& l.artist == artist
                    &&& l.rows@ == release_rows(releases@)
                    &&& l.idx == 0
                    &&& l.focus
                },
                None => false,
            },
            *final(self) == (App { releases: final(self).releases, side_scroll: 0, ..*old(self) }),
            old(self).wf() ==> final(self).wf(),
    {
        let list = order_releases(releases);
        let ghost all = list@;
        let ghost tail = all.map_values(|r: Release| ReleaseRow::Release(r));
        let mut rows: Vec<ReleaseRow> = Vec::new();
        rows.push(ReleaseRow::Radio);
        assert(rows@ =~= seq![ReleaseRow::Radio] + tail.take(0));
        for x in it: list
            invariant
                it.seq() == all,
                tail == all.map_values(|r: Release| ReleaseRow::Release(r)),
                rows@ == seq![ReleaseRow::Radio] + tail.take(it.index() as int),
        {
            rows.push(ReleaseRow::Release(x));
            assert(rows@ =~= seq![ReleaseRow::Radio] + tail.take(it.index() as int + 1));
        }
        assert(tail.take(tail.len() as int) =~= tail);
        self.releases = Some(Releases { artist, rows, idx: 0, focus: true });
        self.side_scroll = 0;
    }

    /// With the cursor in the releases, or back in the search results.
    pub open spec fn looking(self, focus: bool) -> App {
        match self.releases {
            Some(l) => App { releases: Some(Releases { focus, ..l }), ..self },
            None => self,
        }
    }

    /// Whether releases stand beside the search results.
    pub open spec fn shows_releases(self) -> bool {
        self.screen == Screen::Search && self.releases is Some
    }

    pub fn look(&mut self, focus: bool)
        ensures
            *final(self) == old(self).looking(focus),
            old(self).wf() ==> final(self).wf(),
    {
        if let Some(l) = &mut self.releases {
            l.focus = focus;
        }
    }
}

// ---- Laws of the releases -------------------------------------------

/// Of two releases in the list, the date of the later one never comes after
/// that of the earlier one.
pub proof fn law_dates_never_go_up(v: Seq<Release>, i: int, j: int)
    requires
        0 <= i < j < newest_first(v).len(),
    ensures
        text_le(newest_first(v)[j].date@, newest_first(v)[i].date@),
{
    law_newest_come_first(v);
    assert(no_newer(newest_first(v)[j], newest_first(v)[i]));
}

/// The rows of an artist: the radio on top, then the releases, one for each.
pub proof fn law_the_radio_stands_on_top(releases: Seq<Release>, i: int)
    ensures
        release_rows(releases).len() == releases.len() + 1,
        release_rows(releases)[0] is Radio,
        0 <= i < releases.len() ==> release_rows(releases)[i + 1] == ReleaseRow::Release(newest_first(releases)[i]),
{
    law_every_release_is_listed(releases);
    newest_first(releases).to_multiset_ensures();
    releases.to_multiset_ensures();
}

/// Going over to the releases or back moves the cursor between the two lists,
/// and no row in either.
pub proof fn law_looking_moves_between_the_lists(a: App, focus: bool, l: Releases)
    requires
        a.releases == Some(l),
    ensures
        a.looking(focus) == (App { releases: Some(Releases { focus, ..l }), ..a }),
        a.shows_releases() <==> a.screen == Screen::Search,
        a.screen == Screen::Search ==> a.looking(true).beside() && !a.looking(false).beside(),
        a.screen == Screen::Search ==> a.looking(true).idx() == l.idx && a.looking(false).idx() == a.search_idx,
{
}

/// Without releases there is nothing to go over to.
pub proof fn law_nothing_to_look_at(a: App, focus: bool)
    requires
        a.releases is None,
    ensures
        a.looking(focus) == a,
        !a.shows_releases(),
        !a.beside(),
{
}

}
