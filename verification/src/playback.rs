//! What Spotify reports: devices, tracks, and what plays now.

use vstd::prelude::*;
use crate::config::{opt_text, tune_dir, tune_folder};
use crate::json::{views, Json, JsonView};
use crate::path::{join_path, joined};
use crate::text::{concat, join, join_with, texts};

verus! {

/// A Spotify Connect device.
#[derive(Debug, Clone)]
pub struct Device {
    pub id: Option<String>,
    pub name: String,
    pub kind: String,
    pub is_active: bool,
    pub volume_percent: Option<u32>,
}

/// A cover image.
#[derive(Debug, Clone)]
pub struct Image {
    pub width: Option<u32>,
    pub url: String,
}

#[derive(Debug, Clone)]
pub struct Track {
    pub id: Option<String>,
    pub name: String,
    pub artists: Vec<String>,
    pub duration_ms: i64,
    pub images: Vec<Image>,
}

#[derive(Debug, Clone)]
pub struct Episode {
    pub id: String,
    pub name: String,
    pub show: String,
    pub duration_ms: i64,
    pub images: Vec<Image>,
}

#[derive(Debug, Clone)]
pub struct Artist {
    pub id: String,
    pub name: String,
}

impl Artist {
    pub fn copy(&self) -> (r: Artist)
        ensures
            r == *self,
    {
        Artist { id: self.id.clone(), name: self.name.clone() }
    }
}

#[derive(Debug, Clone)]
pub struct Playlist {
    pub id: String,
    pub name: String,
    pub total: u32,
}

impl Playlist {
    pub fn copy(&self) -> (r: Playlist)
        ensures
            r == *self,
    {
        Playlist { id: self.id.clone(), name: self.name.clone(), total: self.total }
    }
}

/// What can play. An item that Spotify describes in a way not known here
/// keeps its JSON.
#[derive(Debug)]
pub enum Item {
    Track(Track),
    Episode(Episode),
    Unknown(Json),
}

#[derive(Debug, Clone, Copy, PartialEq, Eq, Structural)]
pub enum RepeatState {
    Off,
    Context,
    Track,
}

impl RepeatState {
    /// Off, then the whole context, then this track.
    pub open spec fn following(self) -> RepeatState {
        match self {
            RepeatState::Off => RepeatState::Context,
            RepeatState::Context => RepeatState::Track,
            RepeatState::Track => RepeatState::Off,
        }
    }
}

/// Three steps through the repeat modes lead back to the first.
pub proof fn law_repeat_state_comes_round(r: RepeatState)
    ensures
        r.following().following().following() == r,
        r.following() != r,
{
}

/// The longest time that can be told, in nanoseconds.
pub open spec fn max_time() -> int {
    i64::MAX * 1_000_000
}

/// What plays now, and where.
#[derive(Debug)]
pub struct Playback {
    pub device: Device,
    pub repeat_state: RepeatState,
    pub shuffle_state: bool,
    /// How far into the item, in nanoseconds.
    pub progress_ns: Option<i128>,
    pub item: Option<Item>,
    pub is_playing: bool,
}

impl Playback {
    pub open spec fn wf(self) -> bool {
        match self.progress_ns {
            Some(p) => -max_time() <= p <= max_time(),
            None => true,
        }
    }
}

// ---- Times ----------------------------------------------------------

/// Whole milliseconds of a time, rounded toward zero.
pub open spec fn whole_ms(ns: int) -> int {
    if ns < 0 {
        -((-ns) / 1_000_000)
    } else {
        ns / 1_000_000
    }
}

pub fn whole_ms_of(ns: i128) -> (r: i64)
    requires
        -max_time() <= ns <= max_time(),
    ensures
        r == whole_ms(ns as int),
{
    if ns < 0 {
        let m: i128 = (0 - ns) / 1_000_000;
        (0 - m) as i64
    } else {
        (ns / 1_000_000) as i64
    }
}

/// A signed number taken as an unsigned one of the same 64 bits.
pub open spec fn unsigned(n: i64) -> u64 {
    if n < 0 {
        (n + 0x1_0000_0000_0000_0000) as u64
    } else {
        n as u64
    }
}

pub fn unsigned_of(n: i64) -> (r: u64)
    ensures
        r == unsigned(n),
{
    if n < 0 {
        (n as i128 + 0x1_0000_0000_0000_0000) as u64
    } else {
        n as u64
    }
}

/// An unsigned number taken as a signed one of the same 64 bits.
pub open spec fn signed(n: u64) -> i64 {
    if n > i64::MAX {
        (n - 0x1_0000_0000_0000_0000) as i64
    } else {
        n as i64
    }
}

pub fn signed_of(n: u64) -> (r: i64)
    ensures
        r == signed(n),
{
    if n > i64::MAX as u64 {
        (n as i128 - 0x1_0000_0000_0000_0000) as i64
    } else {
        n as i64
    }
}

// ---- Items that are only JSON ---------------------------------------

/// The names in a list of artists, in order; entries without one are left
/// out.
pub open spec fn names(list: Seq<JsonView>) -> Seq<Seq<char>>
    decreases list.len(),
{
    if list.len() == 0 {
        Seq::empty()
    } else {
        match list.last().get_text("name"@) {
            Some(n) => names(list.drop_last()).push(n),
            None => names(list.drop_last()),
        }
    }
}

pub open spec fn unknown_title(j: JsonView) -> Seq<char> {
    match j.get_text("name"@) {
        Some(n) => n,
        None => "—"@,
    }
}

pub open spec fn unknown_artists(j: JsonView) -> Seq<char> {
    match j.get("artists"@) {
        Some(JsonView::Array(list)) => {
            let all = join(names(list), ", "@);
            if all.len() > 0 {
                all
            } else {
                "—"@
            }
        },
        _ => "—"@,
    }
}

/// The title and the artists' names, with commas, out of an item that is only
/// JSON; a dash for what it lacks.
pub fn unknown_title_artists(j: &Json) -> (r: (String, String))
    ensures
        r.0@ == unknown_title(j@),
        r.1@ == unknown_artists(j@),
{
    let title = match j.get_str("name") {
        Some(n) => n.to_owned(),
        None => "—".to_owned(),
    };
    let artists = match j.get("artists") {
        Some(v) => match v.as_array() {
            Some(list) => {
                let all = join_with(&name_list(list), ", ");
                if all.as_str().is_empty() {
                    "—".to_owned()
                } else {
                    all
                }
            },
            None => "—".to_owned(),
        },
        None => "—".to_owned(),
    };
    (title, artists)
}

fn name_list(list: &Vec<Json>) -> (r: Vec<String>)
    ensures
        texts(r@) == names(views(list@)),
{
    let ghost all = views(list@);
    let mut out: Vec<String> = Vec::new();
    let mut i: usize = 0;
    assert(texts(out@) =~= names(all.take(0)));
    while i < list.len()
        invariant
            all == views(list@),
            i <= list@.len(),
            texts(out@) == names(all.take(i as int)),
        decreases list.len() - i,
    {
        assert(all.take(i as int + 1).drop_last() =~= all.take(i as int));
        assert(all.take(i as int + 1).last() == list@[i as int]@);
        if let Some(n) = list[i].get_str("name") {
            let s = n.to_owned();
            proof {
                crate::text::lemma_texts_push(out@, s);
            }
            out.push(s);
        }
        i = i + 1;
    }
    assert(all.take(all.len() as int) =~= all);
    out
}

pub open spec fn unknown_duration(j: JsonView) -> u64 {
    match j.get_whole("duration_ms"@) {
        Some(n) => n,
        None => 0,
    }
}

pub fn unknown_duration_ms(j: &Json) -> (r: u64)
    ensures
        r == unknown_duration(j@),
{
    match j.get_u64("duration_ms") {
        Some(n) => n,
        None => 0,
    }
}

// ---- Any item -------------------------------------------------------

/// An item's title and the line under it.
pub open spec fn heading(item: Option<Item>) -> (Seq<char>, Seq<char>) {
    match item {
        Some(Item::Track(t)) => (t.name@, join(texts(t.artists@), ", "@)),
        Some(Item::Episode(e)) => (e.name@, e.show@),
        Some(Item::Unknown(j)) => (unknown_title(j@), unknown_artists(j@)),
        None => ("—"@, "—"@),
    }
}

pub fn heading_of(item: &Option<Item>) -> (r: (String, String))
    ensures
        (r.0@, r.1@) == heading(*item),
{
    match item {
        Some(Item::Track(t)) => (t.name.clone(), join_with(&t.artists, ", ")),
        Some(Item::Episode(e)) => (e.name.clone(), e.show.clone()),
        Some(Item::Unknown(j)) => unknown_title_artists(j),
        None => ("—".to_owned(), "—".to_owned()),
    }
}

/// How long an item is, in milliseconds.
pub open spec fn total_ms(item: Option<Item>) -> u64 {
    match item {
        Some(Item::Track(t)) => unsigned(t.duration_ms),
        Some(Item::Episode(e)) => unsigned(e.duration_ms),
        Some(Item::Unknown(j)) => unknown_duration(j@),
        None => 0,
    }
}

pub fn total_ms_of(item: &Option<Item>) -> (r: u64)
    ensures
        r == total_ms(*item),
{
    match item {
        Some(Item::Track(t)) => unsigned_of(t.duration_ms),
        Some(Item::Episode(e)) => unsigned_of(e.duration_ms),
        Some(Item::Unknown(j)) => unknown_duration_ms(j),
        None => 0,
    }
}

/// How long an item is, as a signed number of milliseconds.
pub open spec fn signed_total_ms(item: Option<Item>) -> i64 {
    match item {
        Some(Item::Track(t)) => t.duration_ms,
        Some(Item::Episode(e)) => e.duration_ms,
        Some(Item::Unknown(j)) => signed(unknown_duration(j@)),
        None => 0,
    }
}

pub fn signed_total_ms_of(item: &Option<Item>) -> (r: i64)
    ensures
        r == signed_total_ms(*item),
{
    match item {
        Some(Item::Track(t)) => t.duration_ms,
        Some(Item::Episode(e)) => e.duration_ms,
        Some(Item::Unknown(j)) => signed_of(unknown_duration_ms(j)),
        None => 0,
    }
}

// ---- Covers ---------------------------------------------------------

/// Where the first of the smallest numbers stands.
pub open spec fn smallest(keys: Seq<u64>) -> int
    decreases keys.len(),
{
    if keys.len() <= 1 {
        0
    } else {
        let b = smallest(keys.drop_last());
        if keys.last() < keys[b] {
            keys.len() - 1
        } else {
            b
        }
    }
}

/// No number is smaller than the one that is found, and those before it are
/// larger.
pub proof fn law_smallest_comes_first(keys: Seq<u64>)
    requires
        keys.len() > 0,
    ensures
        0 <= smallest(keys) < keys.len(),
        forall|j: int| 0 <= j < keys.len() ==> keys[smallest(keys)] <= #[trigger] keys[j],
        forall|j: int| 0 <= j < smallest(keys) ==> keys[smallest(keys)] < #[trigger] keys[j],
    decreases keys.len(),
{
    if keys.len() > 1 {
        let t = keys.drop_last();
        law_smallest_comes_first(t);
        let b = smallest(t);
        assert forall|j: int| 0 <= j < keys.len() implies keys[smallest(keys)] <= #[trigger] keys[j] by {
            if j < t.len() {
                assert(t[j] == keys[j]);
                assert(t[b] <= t[j]);
            }
        }
        assert forall|j: int| 0 <= j < smallest(keys) implies keys[smallest(keys)] < #[trigger] keys[j] by {
            assert(t[j] == keys[j]);
            assert(t[b] <= t[j]);
        }
    }
}

fn smallest_of(keys: &Vec<u64>) -> (r: usize)
    requires
        keys@.len() > 0,
    ensures
        r == smallest(keys@),
        r < keys@.len(),
{
    let mut b: usize = 0;
    let mut i: usize = 1;
    while i < keys.len()
        invariant
            1 <= i <= keys@.len(),
            b < i,
            b == smallest(keys@.take(i as int)),
        decreases keys.len() - i,
    {
        assert(keys@.take(i as int + 1).drop_last() =~= keys@.take(i as int));
        if keys[i] < keys[b] {
            b = i;
        }
        i = i + 1;
    }
    assert(keys@.take(keys@.len() as int) =~= keys@);
    b
}

/// The widths by which images are chosen; an unknown width is the widest.
pub open spec fn image_keys(images: Seq<Image>) -> Seq<u64> {
    Seq::new(
        images.len(),
        |i: int|
            match images[i].width {
                Some(w) => w as u64,
                None => u32::MAX as u64,
            },
    )
}

/// The address of the narrowest image.
pub open spec fn narrowest(images: Seq<Image>) -> Option<Seq<char>> {
    if images.len() == 0 {
        None
    } else {
        Some(images[smallest(image_keys(images))].url@)
    }
}

fn narrowest_of(images: &Vec<Image>) -> (r: Option<String>)
    ensures
        opt_text(r) == narrowest(images@),
{
    if images.len() == 0 {
        return None;
    }
    let mut keys: Vec<u64> = Vec::new();
    let mut i: usize = 0;
    while i < images.len()
        invariant
            i <= images@.len(),
            keys@.len() == i,
            forall|k: int| 0 <= k < i ==> #[trigger] keys@[k] == image_keys(images@)[k],
        decreases images.len() - i,
    {
        keys.push(
            match images[i].width {
                Some(w) => w as u64,
                None => u32::MAX as u64,
            },
        );
        i = i + 1;
    }
    assert(keys@ =~= image_keys(images@));
    Some(images[smallest_of(&keys)].url.clone())
}

/// The widths by which images in JSON are chosen; an unknown width is the
/// widest.
pub open spec fn json_keys(images: Seq<JsonView>) -> Seq<u64> {
    Seq::new(
        images.len(),
        |i: int|
            match images[i].get_whole("width"@) {
                Some(w) => w,
                None => u64::MAX,
            },
    )
}

/// The images of an item that is only JSON: its album's, or its own.
pub open spec fn json_images(j: JsonView) -> Option<JsonView> {
    match j.get("album"@) {
        Some(album) => match album.get("images"@) {
            Some(v) => Some(v),
            None => j.get("images"@),
        },
        None => j.get("images"@),
    }
}

/// The address of the narrowest image in JSON.
pub open spec fn json_narrowest(j: JsonView) -> Option<Seq<char>> {
    match json_images(j) {
        Some(JsonView::Array(images)) => if images.len() == 0 {
            None
        } else {
            images[smallest(json_keys(images))].get_text("url"@)
        },
        _ => None,
    }
}

fn json_images_of(j: &Json) -> (r: Option<&Json>)
    ensures
        match r {
            Some(v) => json_images(j@) == Some(v@),
            None => json_images(j@) is None,
        },
{
    match j.get("album") {
        Some(album) => match album.get("images") {
            Some(v) => Some(v),
            None => j.get("images"),
        },
        None => j.get("images"),
    }
}

fn json_narrowest_of(j: &Json) -> (r: Option<String>)
    ensures
        opt_text(r) == json_narrowest(j@),
{
    let images = match json_images_of(j) {
        Some(v) => match v.as_array() {
            Some(a) => a,
            None => {
                return None;
            },
        },
        None => {
            return None;
        },
    };
    if images.len() == 0 {
        return None;
    }
    let ghost all = views(images@);
    let mut keys: Vec<u64> = Vec::new();
    let mut i: usize = 0;
    while i < images.len()
        invariant
            all == views(images@),
            i <= images@.len(),
            keys@.len() == i,
            forall|k: int| 0 <= k < i ==> #[trigger] keys@[k] == json_keys(all)[k],
        decreases images.len() - i,
    {
        keys.push(
            match images[i].get_u64("width") {
                Some(w) => w,
                None => u64::MAX,
            },
        );
        i = i + 1;
    }
    assert(keys@ =~= json_keys(all));
    match images[smallest_of(&keys)].get_str("url") {
        Some(u) => Some(u.to_owned()),
        None => None,
    }
}

/// An item's id and the address of its smallest cover; none where it has no
/// id or no image, as with private content or an advertisement.
pub open spec fn cover(item: Item) -> Option<(Seq<char>, Seq<char>)> {
    match item {
        Item::Track(t) => match (t.id, narrowest(t.images@)) {
            (Some(id), Some(url)) => Some((id@, url)),
            _ => None,
        },
        Item::Episode(e) => match narrowest(e.images@) {
            Some(url) => Some((e.id@, url)),
            None => None,
        },
        Item::Unknown(j) => match (j@.get_text("id"@), json_narrowest(j@)) {
            (Some(id), Some(url)) => Some((id, url)),
            _ => None,
        },
    }
}

/// The texts of a pair that may be absent.
pub open spec fn opt_pair(p: Option<(String, String)>) -> Option<(Seq<char>, Seq<char>)> {
    match p {
        Some((a, b)) => Some((a@, b@)),
        None => None,
    }
}

/// An item's id and the address of its smallest cover.
pub fn cover_id_and_url(item: &Item) -> (r: Option<(String, String)>)
    ensures
        opt_pair(r) == cover(*item),
{
    match item {
        Item::Track(t) => match &t.id {
            Some(id) => match narrowest_of(&t.images) {
                Some(url) => Some((id.clone(), url)),
                None => None,
            },
            None => None,
        },
        Item::Episode(e) => match narrowest_of(&e.images) {
            Some(url) => Some((e.id.clone(), url)),
            None => None,
        },
        Item::Unknown(j) => match j.get_str("id") {
            Some(id) => match json_narrowest_of(j) {
                Some(url) => Some((id.to_owned(), url)),
                None => None,
            },
            None => None,
        },
    }
}

/// The cover that is chosen is one of the track's own, and no other is
/// narrower.
pub proof fn law_cover_is_the_narrowest(t: Track)
    requires
        cover(Item::Track(t)) is Some,
    ensures
        exists|i: int|
            0 <= i < t.images@.len() && (#[trigger] t.images@[i]).url@ == (cover(Item::Track(t))->0).1 && (forall|j: int|
                0 <= j < t.images@.len() ==> image_keys(t.images@)[i] <= #[trigger] image_keys(t.images@)[j]),
{
    let keys = image_keys(t.images@);
    law_smallest_comes_first(keys);
    let i = smallest(keys);
    assert(t.images@[i].url@ == (cover(Item::Track(t))->0).1);
}

/// A track has a cover exactly where it has an id and an image.
pub proof fn law_cover_needs_an_id_and_an_image(t: Track)
    ensures
        cover(Item::Track(t)) is Some <==> t.id is Some && t.images@.len() > 0,
{
}

/// Where a cover is kept once it was loaded.
pub open spec fn cover_file(home: Option<Seq<char>>, id: Seq<char>) -> Seq<char> {
    joined(joined(tune_folder(home), "cover_cache"@), id + ".jpg"@)
}

pub fn cover_cache_path(home: &Option<String>, id: &str) -> (r: String)
    ensures
        r@ == cover_file(opt_text(*home), id@),
{
    join_path(&join_path(&tune_dir(home), "cover_cache"), &concat(id, ".jpg"))
}

// ---- Laws of what plays ---------------------------------------------

/// Repeat goes from off to the context, to the track, and to off again.
pub proof fn law_repeat_state_goes_on()
    ensures
        RepeatState::Off.following() == RepeatState::Context,
        RepeatState::Context.following() == RepeatState::Track,
        RepeatState::Track.following() == RepeatState::Off,
{
}

/// Whole milliseconds are the millions of nanoseconds that a time holds, and a
/// time before zero is as far from it.
pub proof fn law_whole_milliseconds(ns: int)
    ensures
        ns >= 0 ==> whole_ms(ns) * 1_000_000 <= ns < (whole_ms(ns) + 1) * 1_000_000,
        whole_ms(-ns) == -whole_ms(ns),
        max_time() == 9_223_372_036_854_775_807 * 1_000_000,
{
}

/// A number of 64 bits is read with a sign and without: what is not negative
/// stays, and the other way leads back.
pub proof fn law_signs_come_and_go(n: i64, m: u64)
    ensures
        n >= 0 ==> unsigned(n) == n,
        n < 0 ==> unsigned(n) == n + 0x1_0000_0000_0000_0000,
        m <= i64::MAX ==> signed(m) == m,
        signed(unsigned(n)) == n,
        unsigned(signed(m)) == m,
{
}

/// The names of two lists are those of the one and then those of the other; a
/// value gives its name where it has one as a text.
pub proof fn law_names_of_both(a: Seq<JsonView>, b: Seq<JsonView>)
    ensures
        names(a + b) == names(a) + names(b),
        names(Seq::empty()) == Seq::<Seq<char>>::empty(),
        b.len() == 1 && b[0].get_text("name"@) is Some ==> names(b) == seq![b[0].get_text("name"@)->0],
        b.len() == 1 && b[0].get_text("name"@) is None ==> names(b).len() == 0,
    decreases b.len(),
{
    if b.len() == 0 {
        assert(a + b =~= a);
        assert(names(a) + names(b) =~= names(a));
    } else {
        law_names_of_both(a, b.drop_last());
        assert((a + b).drop_last() =~= a + b.drop_last());
        assert((a + b).last() == b.last());
        assert(names(a + b) =~= names(a) + names(b));
        if b.len() == 1 {
            assert(b.drop_last() =~= Seq::<JsonView>::empty());
        }
    }
}

/// What is shown of an item: a track's name and artists, an episode's name and
/// show, and of anything else its name and its artists' names, with a dash for
/// what is missing.
pub proof fn law_headings(t: Track, e: Episode, j: Json)
    ensures
        heading(Some(Item::Track(t))).0 == t.name@,
        heading(Some(Item::Track(t))).1 == join(texts(t.artists@), ", "@),
        heading(Some(Item::Episode(e))) == (e.name@, e.show@),
        heading(None) == ("—"@, "—"@),
        j@.get_text("name"@) is Some ==> heading(Some(Item::Unknown(j))).0 == j@.get_text("name"@)->0,
        j@.get_text("name"@) is None ==> heading(Some(Item::Unknown(j))).0 == "—"@,
        match j@.get("artists"@) {
            Some(JsonView::Array(list)) => if join(names(list), ", "@).len() > 0 {
                heading(Some(Item::Unknown(j))).1 == join(names(list), ", "@)
            } else {
                heading(Some(Item::Unknown(j))).1 == "—"@
            },
            _ => heading(Some(Item::Unknown(j))).1 == "—"@,
        },
{
}

/// How long an item is: what Spotify says of the track or the episode, or of
/// anything else its `duration_ms`; nothing is zero long. Read with a sign and
/// without, it is the same length.
pub proof fn law_lengths(t: Track, e: Episode, j: Json, item: Option<Item>)
    ensures
        signed_total_ms(Some(Item::Track(t))) == t.duration_ms,
        signed_total_ms(Some(Item::Episode(e))) == e.duration_ms,
        total_ms(item) == unsigned(signed_total_ms(item)),
        t.duration_ms >= 0 ==> total_ms(Some(Item::Track(t))) == t.duration_ms,
        e.duration_ms >= 0 ==> total_ms(Some(Item::Episode(e))) == e.duration_ms,
        j@.get_whole("duration_ms"@) is Some ==> total_ms(Some(Item::Unknown(j))) == j@.get_whole("duration_ms"@)->0,
        j@.get_whole("duration_ms"@) is None ==> total_ms(Some(Item::Unknown(j))) == 0,
        total_ms(None) == 0,
{
    match item {
        Some(Item::Unknown(k)) => {
            law_signs_come_and_go(0, unknown_duration(k@));
        },
        _ => {},
    }
    law_signs_come_and_go(0, unknown_duration(j@));
}

/// The image to show of a list is the first of the narrowest: none is narrower,
/// and none before it is as narrow. An image without a width counts as the
/// widest there is.
pub proof fn law_the_narrowest_image_is_shown(images: Seq<Image>, i: int)
    requires
        0 <= i < images.len(),
        forall|j: int|
            0 <= j < images.len() ==> match (images[i].width, (#[trigger] images[j]).width) {
                (Some(w), Some(x)) => w <= x,
                (None, Some(x)) => x == u32::MAX,
                (_, None) => true,
            },
        forall|j: int|
            0 <= j < i ==> match (images[i].width, (#[trigger] images[j]).width) {
                (Some(w), Some(x)) => w < x,
                (Some(w), None) => w < u32::MAX,
                (None, _) => false,
            },
    ensures
        narrowest(images) == Some(images[i].url@),
{
    let keys = image_keys(images);
    law_smallest_comes_first(keys);
    let s = smallest(keys);
    assert(keys[i] <= keys[s]) by {
        assert(images[s] == images[s]);
    }
    if s < i {
        assert(images[s] == images[s]);
        assert(keys[i] < keys[s]);
    }
    if i < s {
        assert(keys[s] < keys[i]);
    }
}

/// The cover of a track or an episode is an image of its own, under its own
/// id.
pub proof fn law_covers_are_the_items_own(t: Track, e: Episode)
    ensures
        t.id is Some && t.images@.len() > 0 ==> cover(Item::Track(t)) == Some(((t.id->0)@, narrowest(t.images@)->0)),
        e.images@.len() > 0 ==> cover(Item::Episode(e)) == Some((e.id@, narrowest(e.images@)->0)),
        narrowest(Seq::empty()) is None,
        t.images@.len() > 0 ==> narrowest(t.images@) is Some,
{
}

/// Without an image there is no cover, and none without an id to keep it by.
pub proof fn law_no_cover_without_image_or_id(t: Track, e: Episode, j: Json)
    ensures
        t.images@.len() == 0 || t.id is None ==> cover(Item::Track(t)) is None,
        e.images@.len() == 0 ==> cover(Item::Episode(e)) is None,
        j@.get_text("id"@) is None ==> cover(Item::Unknown(j)) is None,
        j@.get("images"@) is None && j@.get("album"@) is None ==> cover(Item::Unknown(j)) is None,
{
}

/// The cover of anything else is the narrowest image of its album, or of its
/// own where the album has none; an image without a width counts as the widest.
pub proof fn law_covers_of_other_items(j: Json, images: Seq<JsonView>, i: int)
    requires
        match j@.get("album"@) {
            Some(album) => match album.get("images"@) {
                Some(v) => v == JsonView::Array(images),
                None => j@.get("images"@) == Some(JsonView::Array(images)),
            },
            None => j@.get("images"@) == Some(JsonView::Array(images)),
        },
        0 <= i < images.len(),
        forall|k: int|
            0 <= k < images.len() ==> match (images[i].get_whole("width"@), (#[trigger] images[k]).get_whole("width"@)) {
                (Some(w), Some(x)) => w <= x,
                (None, Some(x)) => x == u64::MAX,
                (_, None) => true,
            },
        forall|k: int|
            0 <= k < i ==> match (images[i].get_whole("width"@), (#[trigger] images[k]).get_whole("width"@)) {
                (Some(w), Some(x)) => w < x,
                (Some(w), None) => w < u64::MAX,
                (None, _) => false,
            },
    ensures
        cover(Item::Unknown(j)) == (match (j@.get_text("id"@), images[i].get_text("url"@)) {
            (Some(id), Some(url)) => Some((id, url)),
            _ => None,
        }),
{
    let keys = json_keys(images);
    law_smallest_comes_first(keys);
    let s = smallest(keys);
    assert(keys[i] <= keys[s]) by {
        assert(images[s] == images[s]);
    }
    if s < i {
        assert(images[s] == images[s]);
        assert(keys[i] < keys[s]);
    }
    if i < s {
        assert(keys[s] < keys[i]);
    }
}

/// Covers are kept in a folder of tune's, one file for each id.
pub proof fn law_covers_are_kept_by_id(home: Option<Seq<char>>, id: Seq<char>)
    ensures
        cover_file(home, id) == joined(joined(tune_folder(home), "cover_cache"@), id + ".jpg"@),
{
}

/// A pair of strings is seen as their texts.
pub proof fn law_pairs_are_seen_as_they_are(a: String, b: String)
    ensures
        opt_pair(Some((a, b))) == Some((a@, b@)),
        opt_pair(None) is None,
{
}

/// Where the images of anything else are no list, or an empty one, it has no
/// cover.
pub proof fn law_no_cover_without_a_list_of_images(j: Json)
    requires
        match j@.get("album"@) {
            Some(album) => match album.get("images"@) {
                Some(JsonView::Array(images)) => images.len() == 0,
                Some(_) => true,
                None => match j@.get("images"@) {
                    Some(JsonView::Array(images)) => images.len() == 0,
                    _ => true,
                },
            },
            None => match j@.get("images"@) {
                Some(JsonView::Array(images)) => images.len() == 0,
                _ => true,
            },
        },
    ensures
        cover(Item::Unknown(j)) is None,
{
}

}
