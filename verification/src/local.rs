//! Local files and internet radio, played by mpv over its socket.
//!
//! Spotify audio comes from Spotify Connect. Everything else goes through one
//! mpv process, started for a folder of files or for a station.

use vstd::prelude::*;
use vstd::utf8::is_ascii_chars;
use crate::config::opt_text;
use crate::json::{member, pairs, parse, parsed, render_list, written, Json, JsonView};
use crate::path::{extension, extension_of, join_path, joined, parent, parent_of};
use crate::radio::Station;
use crate::text::{
    ascii_lower, at_most, concat, decimal, decimal_of, eq_ignore_ascii_case, join, join_with, lemma_text_le_total,
    lemma_text_le_transitive, lowercase, nonempty, same_ignoring_case, signed_decimal, signed_decimal_of,
    starts, text_le, texts, to_lowercase, trim, trimmed,
};

verus! {

// ---- Files ----------------------------------------------------------

/// The file types that are listed.
pub open spec fn audio_types() -> Seq<Seq<char>> {
    seq![
        "mp3"@, "flac"@, "ogg"@, "oga"@, "opus"@, "m4a"@, "aac"@, "wav"@, "aif"@, "aiff"@, "wma"@, "mka"@,
    ]
}

/// Whether a path has the extension of an audio file, in any letter case.
pub open spec fn audio(p: Seq<char>) -> bool {
    match extension(p) {
        Some(e) => exists|i: int|
            0 <= i < audio_types().len() && same_ignoring_case(#[trigger] audio_types()[i], e),
        None => false,
    }
}

fn audio_type_list() -> (r: Vec<String>)
    ensures
        texts(r@) == audio_types(),
{
    let mut v: Vec<String> = Vec::new();
    v.push("mp3".to_owned());
    v.push("flac".to_owned());
    v.push("ogg".to_owned());
    v.push("oga".to_owned());
    v.push("opus".to_owned());
    v.push("m4a".to_owned());
    v.push("aac".to_owned());
    v.push("wav".to_owned());
    v.push("aif".to_owned());
    v.push("aiff".to_owned());
    v.push("wma".to_owned());
    v.push("mka".to_owned());
    assert(texts(v@) =~= audio_types());
    v
}

/// Whether a path is an audio file's, by its extension.
pub fn is_audio(p: &str) -> (r: bool)
    ensures
        r == audio(p@),
{
    let e = match extension_of(p) {
        Some(e) => e,
        None => {
            return false;
        },
    };
    let list = audio_type_list();
    let mut i: usize = 0;
    while i < list.len()
        invariant
            texts(list@) == audio_types(),
            i <= list@.len(),
            extension(p@) == Some(e@),
            forall|k: int| 0 <= k < i ==> !same_ignoring_case(#[trigger] audio_types()[k], e@),
        decreases list.len() - i,
    {
        assert(audio_types()[i as int] == list@[i as int]@);
        if eq_ignore_ascii_case(&list[i], &e) {
            return true;
        }
        i = i + 1;
    }
    false
}

/// One entry of a folder.
#[derive(Debug)]
pub struct Entry {
    pub name: String,
    pub is_dir: bool,
}

impl Entry {
    pub fn copy(&self) -> (r: Entry)
        ensures
            r == *self,
    {
        Entry { name: self.name.clone(), is_dir: self.is_dir }
    }
}

/// Whether an entry is listed: folders and audio files, hidden ones left out.
pub open spec fn shown(e: Entry) -> bool {
    !starts(e.name@, "."@) && (e.is_dir || audio(e.name@))
}

/// Whether entry `i` comes no later than entry `j`: folders first, then by
/// `keys`, which holds a text for each entry.
pub open spec fn entry_le(v: Seq<Entry>, keys: Seq<Seq<char>>, i: int, j: int) -> bool {
    if v[i].is_dir != v[j].is_dir {
        v[i].is_dir
    } else {
        text_le(keys[i], keys[j])
    }
}

/// Whether entry `i` stands before entry `j` in the list: by `entry_le`, and
/// as they came where that tells neither first.
pub open spec fn stands_before(v: Seq<Entry>, keys: Seq<Seq<char>>, i: int, j: int) -> bool {
    entry_le(v, keys, i, j) && (entry_le(v, keys, j, i) ==> i < j)
}

/// Whether `r` lists a folder by `keys`: exactly the entries that are shown,
/// in order.
pub open spec fn lists_by(v: Seq<Entry>, keys: Seq<Seq<char>>, r: Seq<usize>) -> bool {
    &&& forall|k: int| 0 <= k < r.len() ==> (#[trigger] r[k]) < v.len() && shown(v[r[k] as int])
    &&& forall|i: int| 0 <= i < v.len() && shown(#[trigger] v[i]) ==> r.contains(i as usize)
    &&& forall|a: int, b: int|
        0 <= a < b < r.len() ==> stands_before(v, keys, #[trigger] r[a] as int, #[trigger] r[b] as int)
}

/// The names of entries in lower case.
pub open spec fn lower_names(v: Seq<Entry>) -> Seq<Seq<char>> {
    Seq::new(v.len(), |i: int| lowercase(v[i].name@))
}

/// The names of entries in lower case, where they are ASCII.
pub open spec fn ascii_lower_names(v: Seq<Entry>) -> Seq<Seq<char>> {
    Seq::new(v.len(), |i: int| v[i].name@.map_values(|c: char| ascii_lower(c)))
}

/// Whether `r` lists a folder: its sub-folders and audio files, folders first,
/// then by name in lower case.
pub open spec fn is_listing(v: Seq<Entry>, r: Seq<usize>) -> bool {
    lists_by(v, lower_names(v), r)
}

proof fn lemma_entry_le_total(v: Seq<Entry>, keys: Seq<Seq<char>>, i: int, j: int)
    ensures
        entry_le(v, keys, i, j) || entry_le(v, keys, j, i),
{
    lemma_text_le_total(keys[i], keys[j]);
}

proof fn lemma_entry_le_transitive(v: Seq<Entry>, keys: Seq<Seq<char>>, i: int, j: int, k: int)
    requires
        entry_le(v, keys, i, j),
        entry_le(v, keys, j, k),
    ensures
        entry_le(v, keys, i, k),
{
    if v[i].is_dir == v[j].is_dir && v[j].is_dir == v[k].is_dir {
        lemma_text_le_transitive(keys[i], keys[j], keys[k]);
    }
}

fn is_shown(e: &Entry) -> (r: bool)
    ensures
        r == shown(*e),
{
    let v = crate::text::chars_of(&e.name);
    proof {
        reveal_strlit(".");
        if v@.len() > 0 {
            assert(e.name@.take(1)[0] == v@[0]);
            if v@[0] == '.' {
                assert(e.name@.take(1) =~= "."@);
            }
        }
    }
    if v.len() > 0 && v[0] == '.' {
        return false;
    }
    e.is_dir || is_audio(&e.name)
}

fn comes_no_later(entries: &Vec<Entry>, keys: &Vec<String>, i: usize, j: usize) -> (r: bool)
    requires
        i < entries@.len(),
        j < entries@.len(),
        keys@.len() == entries@.len(),
    ensures
        r == entry_le(entries@, texts(keys@), i as int, j as int),
{
    if entries[i].is_dir != entries[j].is_dir {
        entries[i].is_dir
    } else {
        at_most(&keys[i], &keys[j])
    }
}

/// The entries that are shown, folders first, then by `keys`, as the places
/// where they stand among `entries`.
pub fn list_by(entries: &Vec<Entry>, keys: &Vec<String>) -> (r: Vec<usize>)
    requires
        keys@.len() == entries@.len(),
    ensures
        lists_by(entries@, texts(keys@), r@),
{
    let ghost v = entries@;
    let ghost ks = texts(keys@);
    let mut r: Vec<usize> = Vec::new();
    let mut i: usize = 0;
    while i < entries.len()
        invariant
            v == entries@,
            ks == texts(keys@),
            keys@.len() == v.len(),
            i <= v.len(),
            forall|k: int| 0 <= k < r@.len() ==> (#[trigger] r@[k]) < i && shown(v[r@[k] as int]),
            forall|j: int| 0 <= j < i && shown(#[trigger] v[j]) ==> r@.contains(j as usize),
            forall|a: int, b: int|
                0 <= a < b < r@.len() ==> stands_before(v, ks, #[trigger] r@[a] as int, #[trigger] r@[b] as int),
        decreases entries.len() - i,
    {
        if is_shown(&entries[i]) {
            let mut p: usize = r.len();
            while p > 0 && !comes_no_later(entries, keys, r[p - 1], i)
                invariant
                    v == entries@,
                    ks == texts(keys@),
                    keys@.len() == v.len(),
                    i < v.len(),
                    p <= r@.len(),
                    forall|k: int| 0 <= k < r@.len() ==> (#[trigger] r@[k]) < i,
                    forall|q: int| p <= q < r@.len() ==> !entry_le(v, ks, #[trigger] r@[q] as int, i as int),
                decreases p,
            {
                p = p - 1;
            }
            let ghost before = r@;
            r.insert(p, i);
            proof {
                assert(r@ =~= before.insert(p as int, i));
                assert forall|a: int, b: int| 0 <= a < b < r@.len() implies stands_before(
                    v,
                    ks,
                    #[trigger] r@[a] as int,
                    #[trigger] r@[b] as int,
                ) by {
                    let a0 = if a < p { a } else { a - 1 };
                    let b0 = if b < p { b } else { b - 1 };
                    if b == p {
                        assert(r@[a] == before[a]);
                        assert(entry_le(v, ks, before[p - 1] as int, i as int));
                        if a < p - 1 {
                            assert(stands_before(v, ks, before[a] as int, before[p - 1] as int));
                            lemma_entry_le_transitive(v, ks, before[a] as int, before[p - 1] as int, i as int);
                        }
                    } else if a == p {
                        assert(r@[b] == before[b - 1]);
                        lemma_entry_le_total(v, ks, before[b - 1] as int, i as int);
                    } else {
                        assert(r@[a] == before[a0]);
                        assert(r@[b] == before[b0]);
                    }
                }
                assert forall|j: int| 0 <= j < i + 1 && shown(#[trigger] v[j]) implies r@.contains(j as usize) by {
                    if j == i {
                        assert(r@[p as int] == i);
                    } else {
                        let k = choose|k: int| 0 <= k < before.len() && before[k] == j as usize;
                        if k < p {
                            assert(r@[k] == before[k]);
                        } else {
                            assert(r@[k + 1] == before[k]);
                        }
                    }
                }
                assert forall|k: int| 0 <= k < r@.len() implies (#[trigger] r@[k]) < i + 1 && shown(v[r@[k] as int]) by {
                    if k < p {
                        assert(r@[k] == before[k]);
                    } else if k > p {
                        assert(r@[k] == before[k - 1]);
                    }
                }
            }
        }
        i = i + 1;
    }
    r
}

/// A folder's sub-folders and audio files, folders first, hidden ones left
/// out, as the places where they stand among `entries`.
pub fn list_dir(entries: &Vec<Entry>) -> (r: Vec<usize>)
    ensures
        is_listing(entries@, r@),
        (forall|i: int| 0 <= i < entries@.len() ==> is_ascii_chars((#[trigger] entries@[i]).name@)) ==> lists_by(
            entries@,
            ascii_lower_names(entries@),
            r@,
        ),
{
    let ghost v = entries@;
    let mut keys: Vec<String> = Vec::new();
    let mut i: usize = 0;
    while i < entries.len()
        invariant
            v == entries@,
            i <= v.len(),
            keys@.len() == i,
            forall|k: int| 0 <= k < i ==> (#[trigger] keys@[k])@ == lower_names(v)[k],
            forall|k: int|
                0 <= k < i && is_ascii_chars(v[k].name@) ==> (#[trigger] keys@[k])@ == ascii_lower_names(v)[k],
        decreases entries.len() - i,
    {
        keys.push(to_lowercase(&entries[i].name));
        i = i + 1;
    }
    assert(texts(keys@) =~= lower_names(v));
    proof {
        if forall|i: int| 0 <= i < v.len() ==> is_ascii_chars((#[trigger] v[i]).name@) {
            assert forall|k: int| 0 <= k < v.len() implies texts(keys@)[k] == #[trigger] ascii_lower_names(v)[k] by {
                assert(is_ascii_chars(v[k].name@));
                assert(keys@[k]@ == ascii_lower_names(v)[k]);
            }
            assert(texts(keys@) =~= ascii_lower_names(v));
        }
    }
    list_by(entries, &keys)
}

/// In a list of a folder no sub-folder stands after a file, and nothing
/// hidden stands in it.
pub proof fn law_folders_stand_first(v: Seq<Entry>, keys: Seq<Seq<char>>, r: Seq<usize>)
    requires
        lists_by(v, keys, r),
    ensures
        forall|a: int, b: int|
            0 <= a < b < r.len() && v[#[trigger] r[b] as int].is_dir ==> v[#[trigger] r[a] as int].is_dir,
        forall|a: int| 0 <= a < r.len() ==> !starts(v[#[trigger] r[a] as int].name@, "."@),
{
    assert forall|a: int, b: int| 0 <= a < b < r.len() && v[#[trigger] r[b] as int].is_dir implies v[#[trigger] r[a] as int].is_dir by {
        assert(stands_before(v, keys, r[a] as int, r[b] as int));
    }
}

/// A folder has one list and no other.
pub proof fn law_a_folder_has_one_listing(v: Seq<Entry>, keys: Seq<Seq<char>>, r: Seq<usize>, s: Seq<usize>)
    requires
        lists_by(v, keys, r),
        lists_by(v, keys, s),
    ensures
        r == s,
{
    lemma_listing_prefix(v, keys, r, s, r.len() as int);
    lemma_listing_prefix(v, keys, s, r, s.len() as int);
    assert(r =~= s);
}

/// Each place of one listing holds what the same place of the other holds.
proof fn lemma_listing_prefix(v: Seq<Entry>, keys: Seq<Seq<char>>, r: Seq<usize>, s: Seq<usize>, n: int)
    requires
        lists_by(v, keys, r),
        lists_by(v, keys, s),
        0 <= n <= r.len(),
    ensures
        n <= s.len(),
        forall|k: int| 0 <= k < n ==> r[k] == s[k],
    decreases n,
{
    if n > 0 {
        let k = n - 1;
        lemma_listing_prefix(v, keys, r, s, k);
        let x = r[k];
        assert(shown(v[x as int]));
        assert(s.contains(x));
        let j = choose|j: int| 0 <= j < s.len() && s[j] == x;
        if j < k {
            assert(r[j] == x);
            assert(stands_before(v, keys, r[j] as int, r[k] as int));
        }
        assert(j >= k);
        let y = s[k];
        assert(shown(v[y as int]));
        assert(r.contains(y));
        let i = choose|i: int| 0 <= i < r.len() && r[i] == y;
        if i < k {
            assert(s[i] == y);
            assert(stands_before(v, keys, s[i] as int, s[k] as int));
        }
        if j > k {
            assert(stands_before(v, keys, s[k] as int, s[j] as int));
            if i > k {
                assert(stands_before(v, keys, r[k] as int, r[i] as int));
            }
        }
    }
}

// ---- Covers ---------------------------------------------------------

pub open spec fn cover_stems() -> Seq<Seq<char>> {
    seq!["cover"@, "folder"@, "front"@, "Cover"@, "Folder"@, "Front"@]
}

pub open spec fn cover_types() -> Seq<Seq<char>> {
    seq!["jpg"@, "jpeg"@, "png"@]
}

/// The names that a cover image may have, the first one first.
pub open spec fn cover_names() -> Seq<Seq<char>> {
    Seq::new(18, |i: int| cover_stems()[i / 3] + "."@ + cover_types()[i % 3])
}

/// The paths at which a file's cover may stand, in the order they are tried.
pub open spec fn cover_paths(file: Seq<char>) -> Seq<Seq<char>> {
    match parent(file) {
        Some(dir) => Seq::new(18, |i: int| joined(dir, cover_names()[i])),
        None => Seq::empty(),
    }
}

/// The paths at which a file's cover may stand, in the order they are tried.
pub fn cover_candidates(file: &str) -> (r: Vec<String>)
    ensures
        texts(r@) == cover_paths(file@),
{
    let mut out: Vec<String> = Vec::new();
    let dir = match parent_of(file) {
        Some(d) => d,
        None => {
            assert(texts(out@) =~= cover_paths(file@));
            return out;
        },
    };
    let mut stems: Vec<String> = Vec::new();
    stems.push("cover".to_owned());
    stems.push("folder".to_owned());
    stems.push("front".to_owned());
    stems.push("Cover".to_owned());
    stems.push("Folder".to_owned());
    stems.push("Front".to_owned());
    assert(texts(stems@) =~= cover_stems());
    let mut types: Vec<String> = Vec::new();
    types.push("jpg".to_owned());
    types.push("jpeg".to_owned());
    types.push("png".to_owned());
    assert(texts(types@) =~= cover_types());
    let mut i: usize = 0;
    while i < 18
        invariant
            texts(stems@) == cover_stems(),
            texts(types@) == cover_types(),
            stems@.len() == 6,
            types@.len() == 3,
            i <= 18,
            out@.len() == i,
            forall|k: int| 0 <= k < i ==> (#[trigger] out@[k])@ == joined(dir@, cover_names()[k]),
        decreases 18 - i,
    {
        assert(cover_stems()[i as int / 3] == stems@[i as int / 3]@);
        assert(cover_types()[i as int % 3] == types@[i as int % 3]@);
        let mut name = concat(&stems[i / 3], ".");
        name.append(&types[i % 3]);
        assert(name@ =~= cover_names()[i as int]);
        out.push(join_path(&dir, &name));
        i = i + 1;
    }
    assert(texts(out@) =~= cover_paths(file@));
    out
}

/// The first of `paths` that stands in `present`.
pub open spec fn first_present(paths: Seq<Seq<char>>, present: Seq<Seq<char>>) -> Option<Seq<char>>
    decreases paths.len(),
{
    if paths.len() == 0 {
        None
    } else if present.contains(paths[0]) {
        Some(paths[0])
    } else {
        first_present(paths.drop_first(), present)
    }
}

/// A cover image beside a file: cover, folder or front, as jpg or png.
/// `present` holds the paths that are files; the first candidate among them
/// is the cover.
pub fn folder_cover(file: &str, present: &Vec<String>) -> (r: Option<String>)
    ensures
        opt_text(r) == first_present(cover_paths(file@), texts(present@)),
{
    let paths = cover_candidates(file);
    let ghost all = cover_paths(file@);
    let mut i: usize = 0;
    assert(all.skip(0) =~= all);
    while i < paths.len()
        invariant
            texts(paths@) == all,
            all == cover_paths(file@),
            i <= paths@.len(),
            first_present(all, texts(present@)) == first_present(all.skip(i as int), texts(present@)),
        decreases paths.len() - i,
    {
        assert(all.skip(i as int)[0] == paths@[i as int]@);
        let mut j: usize = 0;
        while j < present.len()
            invariant
                i < paths@.len(),
                j <= present@.len(),
                forall|k: int| 0 <= k < j ==> (#[trigger] present@[k])@ != paths@[i as int]@,
                all.skip(i as int)[0] == paths@[i as int]@,
                all.skip(i as int).len() > 0,
                first_present(all, texts(present@)) == first_present(all.skip(i as int), texts(present@)),
                all == cover_paths(file@),
            decreases present.len() - j,
        {
            if present[j] == paths[i] {
                assert(texts(present@)[j as int] == paths@[i as int]@);
                return Some(paths[i].clone());
            }
            j = j + 1;
        }
        assert(!texts(present@).contains(paths@[i as int]@)) by {
            if texts(present@).contains(paths@[i as int]@) {
                let k = choose|k: int| 0 <= k < texts(present@).len() && texts(present@)[k] == paths@[i as int]@;
                assert(present@[k]@ == paths@[i as int]@);
            }
        }
        assert(all.skip(i as int).drop_first() =~= all.skip(i as int + 1));
        i = i + 1;
    }
    None
}

// ---- mpv ------------------------------------------------------------

/// What mpv was started on.
#[derive(Debug)]
pub enum Source {
    Files,
    Radio(Station),
}

#[derive(Debug, Clone, Copy, PartialEq, Eq, Structural)]
pub enum Repeat {
    Off,
    List,
    Track,
}

/// What mpv last reported.
#[derive(Debug)]
pub struct State {
    pub paused: bool,
    /// How far it got, in whole milliseconds.
    pub pos_ms: u64,
    /// How long the file is, in whole milliseconds. Zero for a station: a live
    /// stream has no end.
    pub duration_ms: u64,
    /// A file's title tag or name; the song a station sends.
    pub title: String,
    /// A file's artist and album; the station's name.
    pub artist: String,
    /// Place in the list and how long the list is.
    pub index: usize,
    pub count: usize,
    pub path: String,
}

pub struct StateView {
    pub paused: bool,
    pub pos_ms: u64,
    pub duration_ms: u64,
    pub title: Seq<char>,
    pub artist: Seq<char>,
    pub index: usize,
    pub count: usize,
    pub path: Seq<char>,
}

impl View for State {
    type V = StateView;

    open spec fn view(&self) -> StateView {
        StateView {
            paused: self.paused,
            pos_ms: self.pos_ms,
            duration_ms: self.duration_ms,
            title: self.title@,
            artist: self.artist@,
            index: self.index,
            count: self.count,
            path: self.path@,
        }
    }
}

/// One mpv process, as far as tune keeps track of it.
#[derive(Debug)]
pub struct Mpv {
    pub source: Source,
    pub state: State,
    pub volume: i64,
    pub repeat: Repeat,
}

fn one(a: &str) -> (r: Vec<String>)
    ensures
        texts(r@) == seq![a@],
{
    let mut v: Vec<String> = Vec::new();
    v.push(a.to_owned());
    assert(texts(v@) =~= seq![a@]);
    v
}

fn two(a: &str, b: &str) -> (r: Vec<String>)
    ensures
        texts(r@) == seq![a@, b@],
{
    let mut v: Vec<String> = Vec::new();
    v.push(a.to_owned());
    v.push(b.to_owned());
    assert(texts(v@) =~= seq![a@, b@]);
    v
}

fn three(a: &str, b: &str, c: &str) -> (r: Vec<String>)
    ensures
        texts(r@) == seq![a@, b@, c@],
{
    let mut v: Vec<String> = Vec::new();
    v.push(a.to_owned());
    v.push(b.to_owned());
    v.push(c.to_owned());
    assert(texts(v@) =~= seq![a@, b@, c@]);
    v
}

/// The nearest volume from 0 to 100.
pub open spec fn clamped(v: int) -> int {
    if v < 0 {
        0
    } else if v > 100 {
        100
    } else {
        v
    }
}

impl Repeat {
    /// Off, then the whole list over and over, then this track over and over.
    pub open spec fn following(self) -> Repeat {
        match self {
            Repeat::Off => Repeat::List,
            Repeat::List => Repeat::Track,
            Repeat::Track => Repeat::Off,
        }
    }
}

/// Three steps through the repeat modes lead back to the first.
pub proof fn law_repeat_comes_round(r: Repeat)
    ensures
        r.following().following().following() == r,
        r.following() != r,
{
}

/// What mpv said when it was asked; `None` for what it did not answer.
#[derive(Debug)]
pub struct Report {
    pub paused: Option<bool>,
    pub pos_ms: Option<u64>,
    pub duration_ms: Option<u64>,
    pub index: Option<usize>,
    pub count: Option<usize>,
    pub media: Option<String>,
    pub metadata: Option<Json>,
    pub path: Option<String>,
}

/// The value of the first member whose name is `key` in any letter case.
pub open spec fn member_ignoring_case(members: Seq<(Seq<char>, JsonView)>, key: Seq<char>) -> Option<JsonView>
    decreases members.len(),
{
    if members.len() == 0 {
        None
    } else if same_ignoring_case(members[0].0, key) {
        Some(members[0].1)
    } else {
        member_ignoring_case(members.drop_first(), key)
    }
}

/// A tag in what mpv knows of a file or stream, without blanks around it;
/// empty without one.
pub open spec fn tag(metadata: Option<JsonView>, key: Seq<char>) -> Seq<char> {
    match metadata {
        Some(JsonView::Object(members)) => match member_ignoring_case(members, key) {
            Some(JsonView::Text(t)) => trimmed(t),
            _ => Seq::empty(),
        },
        _ => Seq::empty(),
    }
}

pub open spec fn opt_json(v: Option<Json>) -> Option<JsonView> {
    match v {
        Some(j) => Some(j@),
        None => None,
    }
}

fn tag_of(metadata: &Option<Json>, key: &str) -> (r: String)
    ensures
        r@ == tag(opt_json(*metadata), key@),
{
    match metadata {
        Some(Json::Object(o)) => {
            let ghost all = pairs(o@);
            proof {
                crate::json::lemma_object(*o);
            }
            let mut i: usize = 0;
            assert(all.skip(0) =~= all);
            while i < o.len()
                invariant
                    all == pairs(o@),
                    i <= o@.len(),
                    opt_json(*metadata) == Some(JsonView::Object(all)),
                    member_ignoring_case(all, key@) == member_ignoring_case(all.skip(i as int), key@),
                decreases o.len() - i,
            {
                assert(all.skip(i as int)[0] == all[i as int]);
                if eq_ignore_ascii_case(&o[i].0, key) {
                    return match o[i].1.as_str() {
                        Some(t) => trim(t),
                        None => String::new(),
                    };
                }
                assert(all.skip(i as int).drop_first() =~= all.skip(i as int + 1));
                i = i + 1;
            }
            String::new()
        },
        _ => String::new(),
    }
}

/// The first of two texts that is not empty, or the second.
pub open spec fn either(a: Seq<char>, b: Seq<char>) -> Seq<char> {
    if a.len() > 0 {
        a
    } else {
        b
    }
}

/// A text that may be absent, as a text.
pub open spec fn or_empty(s: Option<String>) -> Seq<char> {
    match s {
        Some(t) => t@,
        None => Seq::empty(),
    }
}

/// A time that was told; zero without one.
pub open spec fn or_zero(t: Option<u64>) -> u64 {
    match t {
        Some(ms) => ms,
        None => 0,
    }
}

/// The state after a report. mpv that does not answer has just started: what
/// is known stays.
pub open spec fn refreshed(source: Source, s: StateView, r: Report) -> StateView {
    let meta = opt_json(r.metadata);
    match r.paused {
        None => s,
        Some(paused) => {
            let index = match r.index {
                Some(i) => i,
                None => s.index,
            };
            let count = match r.count {
                Some(c) => c,
                None => s.count,
            };
            match source {
                Source::Radio(station) => {
                    let name = either(tag(meta, "icy-name"@), station.name@);
                    StateView {
                        paused,
                        pos_ms: or_zero(r.pos_ms),
                        duration_ms: 0,
                        index,
                        count,
                        title: either(tag(meta, "icy-title"@), name),
                        artist: name,
                        path: s.path,
                    }
                },
                Source::Files => StateView {
                    paused,
                    pos_ms: or_zero(r.pos_ms),
                    duration_ms: or_zero(r.duration_ms),
                    index,
                    count,
                    title: either(tag(meta, "title"@), or_empty(r.media)),
                    artist: join(nonempty(seq![tag(meta, "artist"@), tag(meta, "album"@)]), " · "@),
                    path: or_empty(r.path),
                },
            }
        },
    }
}

/// The arguments that mpv starts with, but for the files themselves.
pub open spec fn start_words(m: Mpv, sock: Seq<char>) -> Seq<Seq<char>> {
    let flags = seq![
        "--no-video"@,
        "--really-quiet"@,
        "--no-terminal"@,
        "--input-ipc-server="@ + sock,
        "--playlist-start="@ + decimal(m.state.index as nat),
    ];
    match m.source {
        Source::Files => flags,
        Source::Radio(s) => flags.push(s.url@),
    }
}

impl Mpv {
    /// What holds of every mpv that was started here.
    pub open spec fn wf(self) -> bool {
        0 <= self.volume <= 100
    }

    /// mpv that plays a list of `count` files from `index`, or one station.
    pub fn start(source: Source, count: usize, index: usize) -> (r: Mpv)
        ensures
            r.wf(),
            r.source == source,
            r.state@ == (StateView {
                paused: false,
                pos_ms: 0,
                duration_ms: 0,
                title: Seq::empty(),
                artist: Seq::empty(),
                index,
                count: if count > 1 { count } else { 1 },
                path: Seq::empty(),
            }),
            r.volume == 100,
            r.repeat == Repeat::Off,
    {
        let state = State {
            paused: false,
            pos_ms: 0,
            duration_ms: 0,
            title: String::new(),
            artist: String::new(),
            index,
            count: if count > 1 {
                count
            } else {
                1
            },
            path: String::new(),
        };
        Mpv { source, state, volume: 100, repeat: Repeat::Off }
    }

    /// The arguments that mpv starts with; those of `Source::Files` are
    /// followed by the files.
    pub fn start_args(&self, sock: &str) -> (r: Vec<String>)
        ensures
            texts(r@) == start_words(*self, sock@),
    {
        let mut v: Vec<String> = Vec::new();
        v.push("--no-video".to_owned());
        v.push("--really-quiet".to_owned());
        v.push("--no-terminal".to_owned());
        v.push(concat("--input-ipc-server=", sock));
        v.push(concat("--playlist-start=", &decimal_of(self.state.index as u64)));
        if let Source::Radio(s) = &self.source {
            v.push(s.url.clone());
        }
        assert(texts(v@) =~= start_words(*self, sock@));
        v
    }

    /// Takes over what mpv reported.
    pub fn refresh(&mut self, report: Report)
        ensures
            final(self).state@ == refreshed(old(self).source, old(self).state@, report),
            *final(self) == (Mpv { state: final(self).state, ..*old(self) }),
    {
        let paused: bool = match report.paused {
            Some(p) => p,
            None => {
                return;
            },
        };
        self.state.paused = paused;
        self.state.pos_ms = match report.pos_ms {
            Some(ms) => ms,
            None => 0,
        };
        if let Some(i) = report.index {
            self.state.index = i;
        }
        if let Some(c) = report.count {
            self.state.count = c;
        }
        match &self.source {
            Source::Radio(station) => {
                self.state.duration_ms = 0;
                let sent = tag_of(&report.metadata, "icy-name");
                let name = if !sent.as_str().is_empty() {
                    sent
                } else {
                    station.name.clone()
                };
                let song = tag_of(&report.metadata, "icy-title");
                self.state.title = if !song.as_str().is_empty() {
                    song
                } else {
                    name.clone()
                };
                self.state.artist = name;
            },
            Source::Files => {
                self.state.duration_ms = match report.duration_ms {
                    Some(ms) => ms,
                    None => 0,
                };
                self.state.path = match report.path {
                    Some(p) => p,
                    None => String::new(),
                };
                let title = tag_of(&report.metadata, "title");
                self.state.title = if !title.as_str().is_empty() {
                    title
                } else {
                    match report.media {
                        Some(m) => m,
                        None => String::new(),
                    }
                };
                self.state.artist = artist_line(
                    tag_of(&report.metadata, "artist"),
                    tag_of(&report.metadata, "album"),
                );
            },
        }
    }

    pub fn toggle_pause(&mut self) -> (r: Vec<String>)
        ensures
            texts(r@) == seq!["cycle"@, "pause"@],
            final(self).state@ == (StateView { paused: !old(self).state.paused, ..old(self).state@ }),
            *final(self) == (Mpv { state: final(self).state, ..*old(self) }),
    {
        self.state.paused = !self.state.paused;
        two("cycle", "pause")
    }

    pub fn next(&self) -> (r: Vec<String>)
        ensures
            texts(r@) == seq!["playlist-next"@],
    {
        one("playlist-next")
    }

    pub fn prev(&self) -> (r: Vec<String>)
        ensures
            texts(r@) == seq!["playlist-prev"@],
    {
        one("playlist-prev")
    }

    pub fn seek(&self, secs: i64) -> (r: Vec<String>)
        ensures
            texts(r@) == seq!["seek"@, signed_decimal(secs as int), "relative"@],
    {
        three("seek", &signed_decimal_of(secs), "relative")
    }

    /// Changes the volume, which stays from 0 to 100.
    pub fn add_volume(&mut self, delta: i64) -> (r: Vec<String>)
        requires
            old(self).wf(),
            old(self).volume + delta <= i64::MAX,
        ensures
            final(self).wf(),
            final(self).volume == clamped(old(self).volume + delta),
            texts(r@) == seq!["set"@, "volume"@, signed_decimal(final(self).volume as int)],
            *final(self) == (Mpv { volume: final(self).volume, ..*old(self) }),
    {
        let sum: i64 = self.volume + delta;
        self.volume = if sum < 0 {
            0
        } else if sum > 100 {
            100
        } else {
            sum
        };
        three("set", "volume", &signed_decimal_of(self.volume))
    }

    /// Puts a file at the end of the list.
    pub fn append(&mut self, file: &str) -> (r: Vec<String>)
        requires
            old(self).state.count < usize::MAX,
        ensures
            texts(r@) == seq!["loadfile"@, file@, "append-play"@],
            final(self).state@ == (StateView { count: (old(self).state.count + 1) as usize, ..old(self).state@ }),
            *final(self) == (Mpv { state: final(self).state, ..*old(self) }),
    {
        self.state.count = self.state.count + 1;
        three("loadfile", file, "append-play")
    }

    pub fn shuffle(&self) -> (r: Vec<String>)
        ensures
            texts(r@) == seq!["playlist-shuffle"@],
    {
        one("playlist-shuffle")
    }

    /// The next repeat mode, as two commands: one for the list, one for the
    /// file.
    pub fn cycle_repeat(&mut self) -> (r: (Vec<String>, Vec<String>))
        ensures
            final(self).repeat == old(self).repeat.following(),
            texts(r.0@) == seq![
                "set"@,
                "loop-playlist"@,
                if final(self).repeat == Repeat::List { "inf"@ } else { "no"@ },
            ],
            texts(r.1@) == seq![
                "set"@,
                "loop-file"@,
                if final(self).repeat == Repeat::Track { "inf"@ } else { "no"@ },
            ],
            *final(self) == (Mpv { repeat: final(self).repeat, ..*old(self) }),
    {
        self.repeat = match self.repeat {
            Repeat::Off => Repeat::List,
            Repeat::List => Repeat::Track,
            Repeat::Track => Repeat::Off,
        };
        let list = if self.repeat == Repeat::List {
            three("set", "loop-playlist", "inf")
        } else {
            three("set", "loop-playlist", "no")
        };
        let file = if self.repeat == Repeat::Track {
            three("set", "loop-file", "inf")
        } else {
            three("set", "loop-file", "no")
        };
        (list, file)
    }

    /// The command that ends mpv.
    pub fn quit(&self) -> (r: Vec<String>)
        ensures
            texts(r@) == seq!["quit"@],
    {
        one("quit")
    }
}

/// A playback key, while mpv is there to take it.
#[derive(Debug, Clone, Copy, PartialEq, Eq, Structural)]
pub enum LocalKey {
    Pause,
    Next,
    Previous,
    /// By so many percent.
    Volume(i64),
    /// By so many seconds.
    Seek(i64),
    Shuffle,
    Repeat,
}

/// The words of each command of a list.
pub open spec fn word_lists(v: Seq<Vec<String>>) -> Seq<Seq<Seq<char>>> {
    Seq::new(v.len(), |i: int| texts(v[i]@))
}

impl Mpv {
    /// The commands that a playback key sends to mpv, each by its words.
    pub open spec fn told(self, key: LocalKey) -> Seq<Seq<Seq<char>>> {
        match key {
            LocalKey::Pause => seq![seq!["cycle"@, "pause"@]],
            LocalKey::Next => seq![seq!["playlist-next"@]],
            LocalKey::Previous => seq![seq!["playlist-prev"@]],
            LocalKey::Volume(d) => seq![seq!["set"@, "volume"@, signed_decimal(clamped(self.volume + d))]],
            LocalKey::Seek(secs) => seq![seq!["seek"@, signed_decimal(secs as int), "relative"@]],
            LocalKey::Shuffle => seq![seq!["playlist-shuffle"@]],
            LocalKey::Repeat => seq![
                seq![
                    "set"@,
                    "loop-playlist"@,
                    if self.repeat.following() == Repeat::List { "inf"@ } else { "no"@ },
                ],
                seq![
                    "set"@,
                    "loop-file"@,
                    if self.repeat.following() == Repeat::Track { "inf"@ } else { "no"@ },
                ],
            ],
        }
    }

    /// Whether `after` is mpv once a playback key was pressed.
    pub open spec fn pressed(self, key: LocalKey, after: Mpv) -> bool {
        match key {
            LocalKey::Pause => {
                &&& after.state@ == (StateView { paused: !self.state.paused, ..self.state@ })
                &&& after == (Mpv { state: after.state, ..self })
            },
            LocalKey::Volume(d) => after == (Mpv { volume: clamped(self.volume + d) as i64, ..self }),
            LocalKey::Repeat => after == (Mpv { repeat: self.repeat.following(), ..self }),
            _ => after == self,
        }
    }

    /// Takes a playback key: the commands for mpv, in order.
    pub fn press(&mut self, key: LocalKey) -> (r: Vec<Vec<String>>)
        requires
            old(self).wf(),
            match key {
                LocalKey::Volume(d) => old(self).volume + d <= i64::MAX,
                _ => true,
            },
        ensures
            word_lists(r@) == old(self).told(key),
            old(self).pressed(key, *final(self)),
            final(self).wf(),
    {
        let ghost before = *self;
        let mut r: Vec<Vec<String>> = Vec::new();
        match key {
            LocalKey::Pause => r.push(self.toggle_pause()),
            LocalKey::Next => r.push(self.next()),
            LocalKey::Previous => r.push(self.prev()),
            LocalKey::Volume(d) => r.push(self.add_volume(d)),
            LocalKey::Seek(secs) => r.push(self.seek(secs)),
            LocalKey::Shuffle => r.push(self.shuffle()),
            LocalKey::Repeat => {
                let (list, file) = self.cycle_repeat();
                r.push(list);
                r.push(file);
            },
        }
        assert(word_lists(r@) =~= before.told(key));
        r
    }
}

/// Pausing twice leads back, whatever the source.
pub proof fn law_pausing_twice_leads_back(a: Mpv, b: Mpv, c: Mpv)
    requires
        a.pressed(LocalKey::Pause, b),
        b.pressed(LocalKey::Pause, c),
    ensures
        c.state@ == a.state@,
        c == (Mpv { state: c.state, ..a }),
{
}

fn artist_line(artist: String, album: String) -> (r: String)
    ensures
        r@ == join(nonempty(seq![artist@, album@]), " · "@),
{
    let ghost both = seq![artist@, album@];
    proof {
        assert(both.drop_last() =~= seq![artist@]);
        assert(seq![artist@].drop_last() =~= Seq::<Seq<char>>::empty());
        reveal_with_fuel(nonempty, 3);
    }
    let mut parts: Vec<String> = Vec::new();
    if !artist.as_str().is_empty() {
        parts.push(artist);
    }
    if !album.as_str().is_empty() {
        parts.push(album);
    }
    assert(texts(parts@) =~= nonempty(both));
    join_with(&parts, " · ")
}

/// The socket on which mpv listens, one for each tune that runs.
pub fn sock_path(dir: &str, pid: u32) -> (r: String)
    ensures
        r@ == joined(dir@, "tune-mpv-"@ + decimal(pid as nat) + ".sock"@),
{
    let mut name = concat("tune-mpv-", &decimal_of(pid as u64));
    name.append(".sock");
    join_path(dir, &name)
}

/// A command as the line that goes to mpv.
pub open spec fn request_line(words: Seq<Seq<char>>) -> Seq<char> {
    "{\"command\":"@ + written(words) + "}\n"@
}

/// A list of words, written as JSON, as the line that goes to mpv.
pub fn frame(list: &str) -> (r: String)
    ensures
        r@ == "{\"command\":"@ + list@ + "}\n"@,
{
    let mut r = concat("{\"command\":", list);
    r.append("}\n");
    r
}

/// A command as the line that goes to mpv. It is one line: its one line break
/// stands at its end.
pub fn request(words: &Vec<String>) -> (r: String)
    ensures
        r@ == request_line(texts(words@)),
        r@.len() > 0,
        r@.last() == '\n',
        !r@.drop_last().contains('\n'),
{
    let list = render_list(words);
    let r = frame(&list);
    proof {
        reveal_strlit("{\"command\":");
        reveal_strlit("}\n");
        let head = "{\"command\":"@;
        assert forall|i: int| 0 <= i < r@.len() - 1 implies (#[trigger] r@[i]) != '\n' by {
            if i < head.len() {
                assert(r@[i] == head[i]);
            } else if i < head.len() + list@.len() {
                assert(r@[i] == list@[i - head.len()]);
                assert(list@.contains(list@[i - head.len()]));
            }
        }
    }
    r
}

/// What a line from mpv is.
#[derive(Debug)]
pub enum Reply {
    /// The answer to a command.
    Answer(Json),
    /// Something that happened; the answer is still to come.
    Event,
    /// Not JSON: there is no answer.
    Broken,
}

/// Whether a value from mpv answers a command: only answers have an `error`.
pub open spec fn is_answer(v: JsonView) -> bool {
    v.get("error"@) is Some
}

/// Tells an answer from an event.
pub fn reply_of(v: Json) -> (r: Reply)
    ensures
        r == (if is_answer(v@) {
            Reply::Answer(v)
        } else {
            Reply::Event
        }),
{
    if v.get("error").is_some() {
        Reply::Answer(v)
    } else {
        Reply::Event
    }
}

/// Reads a line from mpv. Events are skipped until the answer comes.
pub fn read_reply(line: &str) -> (r: Reply)
    ensures
        match parsed(line@) {
            Ok(v) => if is_answer(v) {
                r matches Reply::Answer(j) && j@ == v
            } else {
                r is Event
            },
            Err(_) => r is Broken,
        },
{
    match parse(line) {
        Ok(v) => reply_of(v),
        Err(_) => Reply::Broken,
    }
}

/// The data in an answer of mpv's; none where it did not succeed.
pub open spec fn data(answer: JsonView) -> Option<JsonView> {
    if answer.get_text("error"@) == Some("success"@) {
        answer.get("data"@)
    } else {
        None
    }
}

/// The data in an answer of mpv's.
pub fn data_of(answer: &Json) -> (r: Option<&Json>)
    ensures
        match r {
            Some(v) => data(answer@) == Some(v@),
            None => data(answer@) is None,
        },
{
    match answer.get_str("error") {
        Some(e) => if *e == *"success" {
            answer.get("data")
        } else {
            None
        },
        None => None,
    }
}

/// The data in an answer of mpv's, taken out of it.
pub fn into_data(answer: Json) -> (r: Option<Json>)
    ensures
        opt_json(r) == data(answer@),
{
    if data_of(&answer).is_none() {
        return None;
    }
    match answer {
        Json::Object(members) => {
            proof {
                crate::json::lemma_object(members);
            }
            take_member(members, "data")
        },
        _ => None,
    }
}

fn take_member(members: Vec<(String, Json)>, key: &str) -> (r: Option<Json>)
    ensures
        opt_json(r) == member(pairs(members@), key@),
{
    let ghost all = pairs(members@);
    let mut rest = members;
    let mut i: usize = 0;
    assert(all.skip(0) =~= all);
    while i < rest.len()
        invariant
            rest@ == members@,
            all == pairs(members@),
            i <= rest@.len(),
            member(all, key@) == member(all.skip(i as int), key@),
        decreases rest.len() - i,
    {
        assert(all.skip(i as int)[0] == all[i as int]);
        if *rest[i].0.as_str() == *key {
            let found = rest.remove(i);
            return Some(found.1);
        }
        assert(all.skip(i as int).drop_first() =~= all.skip(i as int + 1));
        i = i + 1;
    }
    None
}

/// The command that asks for a property.
pub fn get_property(name: &str) -> (r: Vec<String>)
    ensures
        texts(r@) == seq!["get_property"@, name@],
{
    two("get_property", name)
}

// ---- Laws of folders ------------------------------------------------

/// A path is an audio file's exactly where its extension is one of these, in
/// any letter case.
pub proof fn law_audio_files_by_their_extension(p: Seq<char>, e: Seq<char>)
    requires
        extension(p) == Some(e),
    ensures
        audio(p) <==> (same_ignoring_case("mp3"@, e) || same_ignoring_case("flac"@, e) || same_ignoring_case("ogg"@, e)
            || same_ignoring_case("oga"@, e) || same_ignoring_case("opus"@, e) || same_ignoring_case("m4a"@, e)
            || same_ignoring_case("aac"@, e) || same_ignoring_case("wav"@, e) || same_ignoring_case("aif"@, e)
            || same_ignoring_case("aiff"@, e) || same_ignoring_case("wma"@, e) || same_ignoring_case("mka"@, e)),
{
    let t = audio_types();
    assert(t[0] == "mp3"@ && t[1] == "flac"@ && t[2] == "ogg"@ && t[3] == "oga"@ && t[4] == "opus"@ && t[5] == "m4a"@);
    assert(t[6] == "aac"@ && t[7] == "wav"@ && t[8] == "aif"@ && t[9] == "aiff"@ && t[10] == "wma"@ && t[11] == "mka"@);
}

/// A folder's list shows its folders and its audio files, and nothing whose
/// name starts with a dot.
pub proof fn law_what_a_folder_shows(e: Entry)
    ensures
        e.name@.len() > 0 && e.name@[0] == '.' ==> !shown(e),
        !(e.name@.len() > 0 && e.name@[0] == '.') && e.is_dir ==> shown(e),
        !(e.name@.len() > 0 && e.name@[0] == '.') && !e.is_dir ==> (shown(e) <==> audio(e.name@)),
        extension(e.name@) is None && !e.is_dir ==> !shown(e),
        extension(e.name@) is None ==> !audio(e.name@),
{
    reveal_strlit(".");
    assert("."@ =~= seq!['.']);
    if e.name@.len() > 0 {
        assert(e.name@.take(1)[0] == e.name@[0]);
        if e.name@[0] == '.' {
            assert(e.name@.take(1) =~= seq!['.']);
        }
    }
}

/// In a folder's list the sub-folders come first, and the names go up within
/// the folders as within the files; what has the same name keeps the order in
/// which it came.
pub proof fn law_names_go_up(v: Seq<Entry>, keys: Seq<Seq<char>>, r: Seq<usize>, a: int, b: int)
    requires
        lists_by(v, keys, r),
        0 <= a < b < r.len(),
    ensures
        v[r[a] as int].is_dir == v[r[b] as int].is_dir ==> text_le(keys[r[a] as int], keys[r[b] as int]),
        v[r[a] as int].is_dir || !v[r[b] as int].is_dir,
        v[r[a] as int].is_dir == v[r[b] as int].is_dir && keys[r[a] as int] == keys[r[b] as int] ==> r[a] < r[b],
{
    assert(stands_before(v, keys, r[a] as int, r[b] as int));
    if keys[r[a] as int] == keys[r[b] as int] {
        lemma_text_le_total(keys[r[a] as int], keys[r[b] as int]);
    }
}

/// A folder's list holds each entry that is shown once, and no other.
pub proof fn law_a_list_holds_what_is_shown(v: Seq<Entry>, keys: Seq<Seq<char>>, r: Seq<usize>, i: int)
    requires
        lists_by(v, keys, r),
        v.len() <= usize::MAX,
        0 <= i < v.len(),
    ensures
        r.contains(i as usize) <==> shown(v[i]),
        forall|a: int, b: int| 0 <= a < b < r.len() ==> (#[trigger] r[a]) != (#[trigger] r[b]),
        forall|a: int| 0 <= a < r.len() ==> (#[trigger] r[a]) < v.len(),
{
    if r.contains(i as usize) {
        let k = choose|k: int| 0 <= k < r.len() && r[k] == i as usize;
        assert(shown(v[r[k] as int]));
    }
    assert forall|a: int, b: int| 0 <= a < b < r.len() implies (#[trigger] r[a]) != (#[trigger] r[b]) by {
        assert(stands_before(v, keys, r[a] as int, r[b] as int));
        lemma_text_le_total(keys[r[a] as int], keys[r[b] as int]);
    }
}

/// Names are compared in lower case.
pub proof fn law_names_are_compared_in_lower_case(v: Seq<Entry>, r: Seq<usize>, i: int)
    ensures
        is_listing(v, r) <==> lists_by(v, lower_names(v), r),
        lower_names(v).len() == v.len(),
        0 <= i < v.len() ==> lower_names(v)[i] == lowercase(v[i].name@),
        0 <= i < v.len() ==> ascii_lower_names(v)[i].len() == v[i].name@.len(),
        0 <= i < v.len() ==> (forall|k: int|
            0 <= k < v[i].name@.len() ==> (#[trigger] ascii_lower_names(v)[i][k]) == ascii_lower(v[i].name@[k])),
{
}

// ---- Laws of covers beside files ------------------------------------

/// The images that are looked for beside a file, the best name first, and of
/// each name a jpg before a jpeg before a png.
pub proof fn law_covers_are_looked_for_in_order(i: int, j: int)
    requires
        0 <= i < 6,
        0 <= j < 3,
    ensures
        cover_names().len() == 18,
        cover_names()[3 * i + j] == (if i == 0 {
            "cover"@
        } else if i == 1 {
            "folder"@
        } else if i == 2 {
            "front"@
        } else if i == 3 {
            "Cover"@
        } else if i == 4 {
            "Folder"@
        } else {
            "Front"@
        }) + "."@ + (if j == 0 {
            "jpg"@
        } else if j == 1 {
            "jpeg"@
        } else {
            "png"@
        }),
{
    assert((3 * i + j) / 3 == i && (3 * i + j) % 3 == j);
}

/// They are looked for in the folder of the file.
pub proof fn law_covers_stand_beside_the_file(dir: Seq<char>, name: Seq<char>, i: int)
    requires
        name.len() > 0,
        !name.contains('/'),
        name != seq!['.'],
        name != seq!['.', '.'],
        0 <= i < 18,
    ensures
        cover_paths(joined(dir, name)).len() == 18,
        cover_paths(joined(dir, name))[i] == joined(crate::path::rtrim(dir), cover_names()[i]),
{
    crate::path::law_joined_name_comes_back(dir, name);
}

/// Of several images the first that is looked for is taken, and none only
/// where none of them is there.
pub proof fn law_the_first_cover_is_taken(paths: Seq<Seq<char>>, present: Seq<Seq<char>>, i: int)
    ensures
        0 <= i < paths.len() && present.contains(paths[i]) && (forall|j: int|
            0 <= j < i ==> !present.contains(#[trigger] paths[j])) ==> first_present(paths, present) == Some(paths[i]),
        (forall|j: int| 0 <= j < paths.len() ==> !present.contains(#[trigger] paths[j])) ==> first_present(paths, present) is None,
    decreases paths.len(),
{
    if paths.len() > 0 {
        let t = paths.drop_first();
        law_the_first_cover_is_taken(t, present, i - 1);
        assert forall|j: int| 0 <= j < t.len() implies t[j] == paths[j + 1] by {}
        assert(paths[0] == paths[0]);
    }
}

// ---- Laws of mpv ----------------------------------------------------

/// mpv's repeat goes from off to the list, to the file, and to off again.
pub proof fn law_repeat_goes_on()
    ensures
        Repeat::Off.following() == Repeat::List,
        Repeat::List.following() == Repeat::Track,
        Repeat::Track.following() == Repeat::Off,
{
}

/// A tag is the first one of its name, in any letter case, without the white
/// space around it; without such a text it is empty.
pub proof fn law_tags_are_found_in_any_case(
    before: Seq<(Seq<char>, JsonView)>,
    name: Seq<char>,
    v: JsonView,
    after: Seq<(Seq<char>, JsonView)>,
    key: Seq<char>,
)
    requires
        same_ignoring_case(name, key),
        forall|i: int| 0 <= i < before.len() ==> !same_ignoring_case((#[trigger] before[i]).0, key),
    ensures
        tag(Some(JsonView::Object(before + seq![(name, v)] + after)), key) == (match v {
            JsonView::Text(t) => trimmed(t),
            _ => Seq::empty(),
        }),
        tag(Some(JsonView::Object(before)), key) == Seq::<char>::empty(),
        !(v is Object) ==> tag(Some(v), key) == Seq::<char>::empty(),
        tag(None, key) == Seq::<char>::empty(),
{
    lemma_member_in_any_case(before, name, v, after, key);
}

proof fn lemma_member_in_any_case(
    before: Seq<(Seq<char>, JsonView)>,
    name: Seq<char>,
    v: JsonView,
    after: Seq<(Seq<char>, JsonView)>,
    key: Seq<char>,
)
    requires
        same_ignoring_case(name, key),
        forall|i: int| 0 <= i < before.len() ==> !same_ignoring_case((#[trigger] before[i]).0, key),
    ensures
        member_ignoring_case(before + seq![(name, v)] + after, key) == Some(v),
        member_ignoring_case(before, key) is None,
    decreases before.len(),
{
    let all = before + seq![(name, v)] + after;
    if before.len() > 0 {
        let t = before.drop_first();
        assert forall|i: int| 0 <= i < t.len() implies !same_ignoring_case((#[trigger] t[i]).0, key) by {
            assert(t[i] == before[i + 1]);
        }
        lemma_member_in_any_case(t, name, v, after, key);
        assert(all.drop_first() =~= t + seq![(name, v)] + after);
        assert(all[0] == before[0]);
    } else {
        assert(all[0] == (name, v));
    }
}

/// A station shows the song that it sends, whatever else it sends; where it
/// sends none, its name, which also stands in the second place.
pub proof fn law_a_station_shows_its_song(station: Station, s: StateView, r: Report, meta: JsonView)
    requires
        r.paused is Some,
        r.metadata is Some,
        (r.metadata->0)@ == meta,
    ensures
        ({
            let n = refreshed(Source::Radio(station), s, r);
            &&& tag(Some(meta), "icy-title"@).len() > 0 ==> n.title == tag(Some(meta), "icy-title"@)
            &&& tag(Some(meta), "icy-title"@).len() == 0 ==> n.title == n.artist
            &&& tag(Some(meta), "icy-name"@).len() > 0 ==> n.artist == tag(Some(meta), "icy-name"@)
            &&& tag(Some(meta), "icy-name"@).len() == 0 ==> n.artist == station.name@
            &&& n.duration_ms == 0
            &&& n.path == s.path
        }),
{
}

/// A station that sends nothing shows its name.
pub proof fn law_a_silent_station_shows_its_name(station: Station, s: StateView, r: Report)
    requires
        r.paused is Some,
        r.metadata is None,
    ensures
        refreshed(Source::Radio(station), s, r).title == station.name@,
        refreshed(Source::Radio(station), s, r).artist == station.name@,
        refreshed(Source::Radio(station), s, r).duration_ms == 0,
        refreshed(Source::Radio(station), s, r).path == s.path,
{
}

/// A file without tags shows what mpv calls it, and nothing beside it.
pub proof fn law_a_file_without_tags(s: StateView, r: Report)
    requires
        r.paused is Some,
        r.metadata is None,
    ensures
        ({
            let n = refreshed(Source::Files, s, r);
            &&& r.media is Some ==> n.title == (r.media->0)@
            &&& r.media is None ==> n.title.len() == 0
            &&& n.artist.len() == 0
            &&& r.path is Some ==> n.path == (r.path->0)@
            &&& r.path is None ==> n.path.len() == 0
            &&& r.duration_ms is Some ==> n.duration_ms == r.duration_ms->0
            &&& r.duration_ms is None ==> n.duration_ms == 0
        }),
{
    let none = Seq::<char>::empty();
    let both = seq![none, none];
    assert(both.drop_last() =~= seq![none]);
    assert(seq![none].drop_last() =~= Seq::<Seq<char>>::empty());
    reveal_with_fuel(nonempty, 3);
    assert(nonempty(both) =~= Seq::<Seq<char>>::empty());
}

/// A file shows its title, or else what mpv calls it, and its artist and album
/// as far as it has them.
pub proof fn law_a_file_shows_its_tags(s: StateView, r: Report, meta: JsonView)
    requires
        r.paused is Some,
        r.metadata is Some,
        (r.metadata->0)@ == meta,
    ensures
        ({
            let n = refreshed(Source::Files, s, r);
            let artist = tag(Some(meta), "artist"@);
            let album = tag(Some(meta), "album"@);
            &&& tag(Some(meta), "title"@).len() > 0 ==> n.title == tag(Some(meta), "title"@)
            &&& tag(Some(meta), "title"@).len() == 0 && r.media is Some ==> n.title == (r.media->0)@
            &&& tag(Some(meta), "title"@).len() == 0 && r.media is None ==> n.title.len() == 0
            &&& artist.len() > 0 && album.len() > 0 ==> n.artist == artist + " · "@ + album
            &&& artist.len() > 0 && album.len() == 0 ==> n.artist == artist
            &&& artist.len() == 0 ==> n.artist == album
            &&& r.path is Some ==> n.path == (r.path->0)@
            &&& r.path is None ==> n.path.len() == 0
            &&& r.duration_ms is Some ==> n.duration_ms == r.duration_ms->0
            &&& r.duration_ms is None ==> n.duration_ms == 0
        }),
{
    let artist = tag(Some(meta), "artist"@);
    let album = tag(Some(meta), "album"@);
    let both = seq![artist, album];
    assert(both.drop_last() =~= seq![artist]);
    assert(seq![artist].drop_last() =~= Seq::<Seq<char>>::empty());
    reveal_with_fuel(nonempty, 3);
    if artist.len() > 0 && album.len() > 0 {
        assert(nonempty(both) =~= both);
        assert(join(seq![artist], " · "@) == artist);
    } else if artist.len() > 0 {
        assert(nonempty(both) =~= seq![artist]);
    } else if album.len() > 0 {
        assert(nonempty(both) =~= seq![album]);
    } else {
        assert(nonempty(both) =~= Seq::<Seq<char>>::empty());
        assert(album =~= Seq::<char>::empty());
    }
}

/// Whatever plays, the times and the place in the list are those that mpv
/// reported; the place is kept where it reported none, and mpv that did not
/// answer changes nothing.
pub proof fn law_reports_are_taken_over(source: Source, s: StateView, r: Report)
    ensures
        r.paused is None ==> refreshed(source, s, r) == s,
        r.paused is Some ==> {
            let n = refreshed(source, s, r);
            &&& n.paused == r.paused->0
            &&& r.pos_ms is Some ==> n.pos_ms == r.pos_ms->0
            &&& r.pos_ms is None ==> n.pos_ms == 0
            &&& r.index is Some ==> n.index == r.index->0
            &&& r.index is None ==> n.index == s.index
            &&& r.count is Some ==> n.count == r.count->0
            &&& r.count is None ==> n.count == s.count
        },
{
}

/// mpv starts without a window, listens on its socket, and starts at the place
/// in the list; a station's stream is handed to it.
pub proof fn law_how_mpv_starts(m: Mpv, sock: Seq<char>)
    ensures
        start_words(m, sock)[0] == "--no-video"@,
        start_words(m, sock)[1] == "--really-quiet"@,
        start_words(m, sock)[2] == "--no-terminal"@,
        start_words(m, sock)[3] == "--input-ipc-server="@ + sock,
        start_words(m, sock)[4] == "--playlist-start="@ + decimal(m.state.index as nat),
        m.source is Files ==> start_words(m, sock).len() == 5,
        m.source is Radio ==> start_words(m, sock).len() == 6 && start_words(m, sock)[5] == (m.source->Radio_0).url@,
{
}

/// What each playback key tells mpv.
pub proof fn law_what_mpv_is_told(m: Mpv, d: i64)
    ensures
        m.told(LocalKey::Pause) == seq![seq!["cycle"@, "pause"@]],
        m.told(LocalKey::Next) == seq![seq!["playlist-next"@]],
        m.told(LocalKey::Previous) == seq![seq!["playlist-prev"@]],
        m.told(LocalKey::Shuffle) == seq![seq!["playlist-shuffle"@]],
        m.told(LocalKey::Seek(d)) == seq![seq!["seek"@, signed_decimal(d as int), "relative"@]],
        0 <= m.volume + d <= 100 ==> m.told(LocalKey::Volume(d)) == seq![
            seq!["set"@, "volume"@, signed_decimal(m.volume + d)],
        ],
        m.volume + d < 0 ==> m.told(LocalKey::Volume(d)) == seq![seq!["set"@, "volume"@, signed_decimal(0)]],
        m.volume + d > 100 ==> m.told(LocalKey::Volume(d)) == seq![seq!["set"@, "volume"@, signed_decimal(100)]],
        m.repeat == Repeat::Off ==> m.told(LocalKey::Repeat) == seq![
            seq!["set"@, "loop-playlist"@, "inf"@],
            seq!["set"@, "loop-file"@, "no"@],
        ],
        m.repeat == Repeat::List ==> m.told(LocalKey::Repeat) == seq![
            seq!["set"@, "loop-playlist"@, "no"@],
            seq!["set"@, "loop-file"@, "inf"@],
        ],
        m.repeat == Repeat::Track ==> m.told(LocalKey::Repeat) == seq![
            seq!["set"@, "loop-playlist"@, "no"@],
            seq!["set"@, "loop-file"@, "no"@],
        ],
{
}

/// What a playback key changes of mpv, and that it changes nothing else.
pub proof fn law_what_a_key_changes(m: Mpv, n: Mpv, key: LocalKey)
    requires
        m.pressed(key, n),
    ensures
        key is Pause ==> n.state.paused == !m.state.paused && n.state@ == (StateView {
            paused: n.state.paused,
            ..m.state@
        }) && n == (Mpv { state: n.state, ..m }),
        key is Repeat ==> n.repeat == m.repeat.following() && n == (Mpv { repeat: n.repeat, ..m }),
        key is Volume ==> 0 <= n.volume <= 100 && n == (Mpv { volume: n.volume, ..m }),
        key is Volume && 0 <= m.volume + key->Volume_0 <= 100 ==> n.volume == m.volume + key->Volume_0,
        key is Volume && m.volume + key->Volume_0 < 0 ==> n.volume == 0,
        key is Volume && m.volume + key->Volume_0 > 100 ==> n.volume == 100,
        key is Next || key is Previous || key is Seek || key is Shuffle ==> n == m,
{
}

/// A command to mpv is one line, an object with the list of its words.
pub proof fn law_commands_are_framed(words: Seq<Seq<char>>)
    ensures
        request_line(words) == "{\"command\":"@ + written(words) + "}\n"@,
{
}

/// An answer of mpv's is told from an event by its `error`, and its data count
/// only where that says success.
pub proof fn law_answers_and_their_data(v: JsonView)
    ensures
        is_answer(v) <==> v.get("error"@) is Some,
        v.get_text("error"@) == Some("success"@) ==> data(v) == v.get("data"@),
        v.get_text("error"@) != Some("success"@) ==> data(v) is None,
{
}

/// What is known of mpv's state is what its fields hold.
pub proof fn law_states_are_seen_as_they_are(s: State)
    ensures
        s@.paused == s.paused,
        s@.pos_ms == s.pos_ms,
        s@.duration_ms == s.duration_ms,
        s@.title == s.title@,
        s@.artist == s.artist@,
        s@.index == s.index,
        s@.count == s.count,
        s@.path == s.path@,
{
}

/// The root has no folder that a cover could stand in.
pub proof fn law_no_cover_beside_the_root(v: Seq<Vec<String>>, i: int)
    ensures
        cover_paths(seq!['/']).len() == 0,
        cover_paths(Seq::empty()).len() == 0,
        word_lists(v).len() == v.len(),
        0 <= i < v.len() ==> word_lists(v)[i] == texts(v[i]@),
{
    crate::path::law_no_file_names();
}

}
