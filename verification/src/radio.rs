//! Internet radio: stations found through radio-browser.info, a free
//! directory of tens of thousands of them, and the ones that are kept in
//! `~/.tune/radio.yml`.

use vstd::prelude::*;
use vstd::utf8::is_ascii_chars;
use crate::config::{opt_text, tune_dir, tune_folder, VERSION};
use crate::json::{parse_list, parsed_list, views, Json, JsonView};
use crate::path::{join_path, joined};
use crate::text::{
    ascii_lower, ascii_upper, chars_of, concat, decimal, decimal_of, is_ascii_letter,
    is_white, join, join_with, lemma_trimmed_is_ascii, lemma_words_are_ascii, string_of, texts, to_ascii_upper, trim, trimmed, white,
    words, words_of,
};

verus! {

#[derive(Clone, Debug, Default, PartialEq)]
pub struct Station {
    pub name: String,
    pub url: String,
    pub country: String,
    pub codec: String,
    pub bitrate: u32,
    pub tags: String,
    pub favicon: String,
    /// radio-browser's id, used to count a play there.
    pub uuid: String,
}

pub struct StationView {
    pub name: Seq<char>,
    pub url: Seq<char>,
    pub country: Seq<char>,
    pub codec: Seq<char>,
    pub bitrate: u32,
    pub tags: Seq<char>,
    pub favicon: Seq<char>,
    pub uuid: Seq<char>,
}

impl View for Station {
    type V = StationView;

    open spec fn view(&self) -> StationView {
        StationView {
            name: self.name@,
            url: self.url@,
            country: self.country@,
            codec: self.codec@,
            bitrate: self.bitrate,
            tags: self.tags@,
            favicon: self.favicon@,
            uuid: self.uuid@,
        }
    }
}

/// The stations of a list.
pub open spec fn station_views(v: Seq<Station>) -> Seq<StationView> {
    Seq::new(v.len(), |i: int| v[i]@)
}

// ---- The same station -----------------------------------------------

/// Two entries with ids are the same station when their ids are; without,
/// when their stream is.
pub open spec fn same(a: StationView, b: StationView) -> bool {
    if a.uuid.len() > 0 && b.uuid.len() > 0 {
        a.uuid == b.uuid
    } else {
        a.url == b.url
    }
}

/// Whether two entries are the same station. The directory gives every
/// station its own id; several entries may share one stream URL, so a URL
/// match would star all of them when one is kept.
pub fn same_station(a: &Station, b: &Station) -> (r: bool)
    ensures
        r == same(a@, b@),
{
    if !a.uuid.as_str().is_empty() && !b.uuid.as_str().is_empty() {
        return a.uuid == b.uuid;
    }
    a.url == b.url
}

/// Every entry is the same station as itself.
pub proof fn law_same_is_reflexive(a: StationView)
    ensures
        same(a, a),
{
}

/// It does not matter which of two entries is asked about the other.
pub proof fn law_same_is_symmetric(a: StationView, b: StationView)
    ensures
        same(a, b) == same(b, a),
{
}

/// Entries that share a stream are still different stations when each has an
/// id of its own.
pub proof fn law_shared_stream_is_not_enough(a: StationView, b: StationView)
    requires
        a.uuid.len() > 0,
        b.uuid.len() > 0,
        a.uuid != b.uuid,
    ensures
        !same(a, b),
{
}

// ---- Directory entries ----------------------------------------------

/// The text of an entry's member, without blanks around it; empty without
/// one.
pub open spec fn field(v: JsonView, key: Seq<char>) -> Seq<char> {
    match v.get_text(key) {
        Some(t) => trimmed(t),
        None => Seq::empty(),
    }
}

/// The stream of an entry: the resolved one where there is one.
pub open spec fn stream(v: JsonView) -> Seq<char> {
    if field(v, "url_resolved"@).len() > 0 {
        field(v, "url_resolved"@)
    } else {
        field(v, "url"@)
    }
}

/// The low 32 bits of a member that is a whole number; zero without one.
pub open spec fn bitrate(v: JsonView) -> u32 {
    match v.get_whole("bitrate"@) {
        Some(n) => (n % 0x1_0000_0000) as u32,
        None => 0,
    }
}

/// The station in a directory entry; none where the entry has no stream.
pub open spec fn entry(v: JsonView) -> Option<StationView> {
    if stream(v).len() == 0 {
        None
    } else {
        Some(
            StationView {
                name: field(v, "name"@),
                url: stream(v),
                country: field(v, "countrycode"@),
                codec: field(v, "codec"@),
                bitrate: bitrate(v),
                tags: field(v, "tags"@),
                favicon: field(v, "favicon"@),
                uuid: field(v, "stationuuid"@),
            },
        )
    }
}

fn field_of(v: &Json, key: &str) -> (r: String)
    ensures
        r@ == field(v@, key@),
{
    match v.get_str(key) {
        Some(t) => trim(t),
        None => String::new(),
    }
}

/// The station in a directory entry, if it has a stream.
pub fn station(v: &Json) -> (r: Option<Station>)
    ensures
        match r {
            Some(s) => entry(v@) == Some(s@),
            None => entry(v@) is None,
        },
{
    let resolved = field_of(v, "url_resolved");
    let url = if !resolved.as_str().is_empty() {
        resolved
    } else {
        field_of(v, "url")
    };
    if url.as_str().is_empty() {
        return None;
    }
    let bitrate: u32 = match v.get_u64("bitrate") {
        Some(n) => (n % 0x1_0000_0000) as u32,
        None => 0,
    };
    Some(
        Station {
            name: field_of(v, "name"),
            url,
            country: field_of(v, "countrycode"),
            codec: field_of(v, "codec"),
            bitrate,
            tags: field_of(v, "tags"),
            favicon: field_of(v, "favicon"),
            uuid: field_of(v, "stationuuid"),
        },
    )
}

/// The stations in a list of entries, in order.
pub open spec fn entries(list: Seq<JsonView>) -> Seq<StationView>
    decreases list.len(),
{
    if list.len() == 0 {
        Seq::empty()
    } else {
        match entry(list.last()) {
            Some(s) => entries(list.drop_last()).push(s),
            None => entries(list.drop_last()),
        }
    }
}

/// The stations in a list of directory entries.
pub fn stations(list: &Vec<Json>) -> (r: Vec<Station>)
    ensures
        station_views(r@) == entries(views(list@)),
{
    let ghost all = views(list@);
    let mut out: Vec<Station> = Vec::new();
    let mut i: usize = 0;
    assert(station_views(out@) =~= entries(all.take(0)));
    while i < list.len()
        invariant
            all == views(list@),
            i <= list@.len(),
            station_views(out@) == entries(all.take(i as int)),
        decreases list.len() - i,
    {
        let ghost before = out@;
        assert(all.take(i as int + 1).drop_last() =~= all.take(i as int));
        assert(all.take(i as int + 1).last() == list@[i as int]@);
        if let Some(s) = station(&list[i]) {
            out.push(s);
            assert(station_views(out@) =~= station_views(before).push(s@));
        }
        i = i + 1;
    }
    assert(all.take(all.len() as int) =~= all);
    out
}

/// Every station that the directory gives has a stream.
pub proof fn law_listed_stations_have_a_stream(list: Seq<JsonView>)
    ensures
        forall|i: int| 0 <= i < entries(list).len() ==> (#[trigger] entries(list)[i]).url.len() > 0,
    decreases list.len(),
{
    if list.len() > 0 {
        let before = entries(list.drop_last());
        law_listed_stations_have_a_stream(list.drop_last());
        assert forall|i: int| 0 <= i < entries(list).len() implies (#[trigger] entries(list)[i]).url.len() > 0 by {
            if i < before.len() {
                assert(entries(list)[i] == before[i]);
            }
        }
    }
}

// ---- Asking the directory -------------------------------------------

/// The directory's own servers; the first answers fastest from Europe, the
/// second picks any server that is up.
pub open spec fn servers() -> Seq<Seq<char>> {
    seq!["https://de1.api.radio-browser.info"@, "https://all.api.radio-browser.info"@]
}

/// How many servers there are.
pub const SERVERS: usize = 2;

pub fn server(i: usize) -> (r: String)
    requires
        i < SERVERS,
    ensures
        r@ == servers()[i as int],
{
    if i == 0 {
        "https://de1.api.radio-browser.info".to_owned()
    } else {
        "https://all.api.radio-browser.info".to_owned()
    }
}

/// How tune names itself to the directory.
pub fn agent() -> (r: String)
    ensures
        r@ == "tune/"@ + VERSION@,
{
    concat("tune/", VERSION)
}

/// Where a server answers searches.
pub fn search_url(server: &str) -> (r: String)
    ensures
        r@ == server@ + "/json/stations/search"@,
{
    concat(server, "/json/stations/search")
}

/// The texts of a list of pairs.
pub open spec fn pair_texts(v: Seq<(String, String)>) -> Seq<(Seq<char>, Seq<char>)> {
    Seq::new(v.len(), |i: int| (v[i].0@, v[i].1@))
}

/// A search: which stations, by field and value, and how many of them at most.
#[derive(Clone, Debug, PartialEq)]
pub struct Request {
    pub filter: Vec<(String, String)>,
    pub limit: u64,
}

pub struct RequestView {
    pub filter: Seq<(Seq<char>, Seq<char>)>,
    pub limit: u64,
}

impl View for Request {
    type V = RequestView;

    open spec fn view(&self) -> RequestView {
        RequestView { filter: pair_texts(self.filter@), limit: self.limit }
    }
}

/// The query of a request: the filter, the limit, working stations only, most
/// played first.
pub open spec fn query(r: RequestView) -> Seq<(Seq<char>, Seq<char>)> {
    r.filter + seq![
        ("limit"@, decimal(r.limit as nat)),
        ("hidebroken"@, "true"@),
        ("order"@, "clickcount"@),
        ("reverse"@, "true"@),
    ]
}

impl Request {
    /// The parameters that go into the request's query, in order.
    pub fn params(&self) -> (r: Vec<(String, String)>)
        ensures
            pair_texts(r@) == query(self@),
    {
        let mut v: Vec<(String, String)> = Vec::new();
        let mut i: usize = 0;
        while i < self.filter.len()
            invariant
                i <= self.filter@.len(),
                v@.len() == i,
                forall|k: int|
                    0 <= k < i ==> (#[trigger] v@[k]).0@ == self.filter@[k].0@ && v@[k].1@ == self.filter@[k].1@,
            decreases self.filter.len() - i,
        {
            v.push((self.filter[i].0.clone(), self.filter[i].1.clone()));
            i = i + 1;
        }
        v.push(("limit".to_owned(), decimal_of(self.limit)));
        v.push(("hidebroken".to_owned(), "true".to_owned()));
        v.push(("order".to_owned(), "clickcount".to_owned()));
        v.push(("reverse".to_owned(), "true".to_owned()));
        assert(pair_texts(v@) =~= query(self@));
        v
    }
}

/// What to do after one server's answer.
#[derive(Debug)]
pub enum Fetch {
    /// Ask the server of this number.
    Ask(usize),
    Done(Result<Vec<Station>, String>),
}

/// The answer to a request out of what a server sent back.
pub open spec fn answer(body: Seq<char>) -> Result<Seq<StationView>, Seq<char>> {
    match parsed_list(body) {
        Ok(list) => Ok(entries(list)),
        Err(m) => Err(m),
    }
}

/// A finished request as mathematics.
pub open spec fn outcome(r: Result<Vec<Station>, String>) -> Result<Seq<StationView>, Seq<char>> {
    match r {
        Ok(v) => Ok(station_views(v@)),
        Err(m) => Err(m@),
    }
}

/// The stations in the text that a server sent back.
pub fn read_answer(body: &str) -> (r: Result<Vec<Station>, String>)
    ensures
        outcome(r) == answer(body@),
{
    match parse_list(body) {
        Ok(list) => Ok(stations(&list)),
        Err(m) => Err(m),
    }
}

/// What follows from what server `i` said: its text, or how it failed. A
/// server that failed hands over to the next; the last one's failure stands.
/// A text that cannot be read ends the request.
pub fn fetch(i: usize, reply: Result<String, String>) -> (r: Fetch)
    requires
        i < SERVERS,
    ensures
        match reply {
            Ok(body) => r matches Fetch::Done(done) && outcome(done) == answer(body@),
            Err(e) => if i + 1 < SERVERS {
                r == Fetch::Ask((i + 1) as usize)
            } else {
                r matches Fetch::Done(done) && outcome(done) == Err::<Seq<StationView>, Seq<char>>(e@)
            },
        },
{
    match reply {
        Ok(body) => Fetch::Done(read_answer(&body)),
        Err(e) => if i + 1 < SERVERS {
            Fetch::Ask(i + 1)
        } else {
            Fetch::Done(Err(e))
        },
    }
}

/// Whether an `@` that starts a word stands at `i`.
pub open spec fn starts_country(query: Seq<char>, i: int) -> bool {
    query[i] == '@' && (i == 0 || is_white(query[i - 1]))
}

/// Where the first `@` stands that starts a word, from `from` on; the length
/// of the query where there is none.
pub open spec fn country_mark(query: Seq<char>, from: int) -> int
    decreases query.len() - from,
{
    if from < 0 || from >= query.len() {
        query.len() as int
    } else if starts_country(query, from) {
        from
    } else {
        country_mark(query, from + 1)
    }
}

/// What a query says after the `@` that starts a word; nothing without one.
pub open spec fn country_part(query: Seq<char>) -> Seq<char> {
    if country_mark(query, 0) < query.len() {
        query.skip(country_mark(query, 0) + 1)
    } else {
        Seq::empty()
    }
}

/// Whether a query keeps itself to one country: `jazz @NO`, `news @Norway`. An
/// `@` inside a word belongs to the word.
pub open spec fn has_country(query: Seq<char>) -> bool {
    trimmed(country_part(query)).len() > 0
}

/// The filter of a search in one field: what is searched for, and the country
/// that the query keeps itself to, if any.
pub open spec fn filters(field: Seq<char>, query: Seq<char>) -> Seq<(Seq<char>, Seq<char>)> {
    if has_country(query) {
        seq![(field, trimmed(query.take(country_mark(query, 0)))), country_filter(country_part(query))]
    } else {
        seq![(field, query)]
    }
}

fn filters_of(field: &str, query: &str) -> (r: Vec<(String, String)>)
    ensures
        pair_texts(r@) == filters(field@, query@),
{
    let q = chars_of(query);
    let n: usize = q.len();
    let mut i: usize = 0;
    while i < n && !(q[i] == '@' && (i == 0 || white(q[i - 1])))
        invariant
            q@ == query@,
            i <= n == q@.len(),
            country_mark(query@, 0) == country_mark(query@, i as int),
        decreases n - i,
    {
        i = i + 1;
    }
    let mut v: Vec<(String, String)> = Vec::new();
    let country = if i < n {
        string_of(&q, i + 1, n)
    } else {
        String::new()
    };
    assert(country@ =~= country_part(query@));
    if trim(&country).as_str().is_empty() {
        v.push((field.to_owned(), query.to_owned()));
    } else {
        let text = string_of(&q, 0, i);
        assert(text@ =~= query@.take(i as int));
        v.push((field.to_owned(), trim(&text)));
        v.push(country_filter_of(&country));
    }
    assert(pair_texts(v@) =~= filters(field@, query@));
    v
}

proof fn lemma_no_mark(query: Seq<char>, from: int)
    requires
        0 <= from <= query.len(),
        forall|i: int| from <= i < query.len() ==> !starts_country(query, i),
    ensures
        country_mark(query, from) == query.len(),
    decreases query.len() - from,
{
    if from < query.len() {
        lemma_no_mark(query, from + 1);
    }
}

/// A query without an `@` that starts a word is searched for as it is.
pub proof fn law_plain_query_names_no_country(field: Seq<char>, query: Seq<char>)
    requires
        forall|i: int| 0 <= i < query.len() ==> !starts_country(query, i),
    ensures
        filters(field, query) == seq![(field, query)],
{
    lemma_no_mark(query, 0);
}

/// The search for stations by name, which comes first.
pub fn search(query: &str) -> (r: Request)
    ensures
        r@ == (RequestView { filter: filters("name"@, query@), limit: 100 }),
{
    Request { filter: filters_of("name", query), limit: 100 }
}

/// How a search goes on.
#[derive(Debug)]
pub enum Search {
    Ask(Request),
    Done(Result<Vec<Station>, String>),
}

/// What follows from the search by name: stations found by name are the
/// result, and so is a failure. When no name matches, stations tagged with
/// the query (jazz, news, classical) are asked for.
pub fn search_on(query: &str, by_name: Result<Vec<Station>, String>) -> (r: Search)
    ensures
        match by_name {
            Ok(found) => if found@.len() > 0 {
                r == Search::Done(by_name)
            } else {
                r matches Search::Ask(q) && q@ == (RequestView { filter: filters("tag"@, query@), limit: 100 })
            },
            Err(_) => r == Search::Done(by_name),
        },
{
    match by_name {
        Ok(found) => if found.len() > 0 {
            Search::Done(Ok(found))
        } else {
            Search::Ask(Request { filter: filters_of("tag", query), limit: 100 })
        },
        Err(e) => Search::Done(Err(e)),
    }
}

/// Whether a text is a two-letter country code.
pub open spec fn is_code(c: Seq<char>) -> bool {
    c.len() == 2 && is_ascii_letter(c[0]) && is_ascii_letter(c[1])
}

/// The filter for a country's stations: by two-letter code (NO) or by the
/// start of its English name (Norway).
pub open spec fn country_filter(country: Seq<char>) -> (Seq<char>, Seq<char>) {
    let c = trimmed(country);
    if is_code(c) {
        ("countrycode"@, seq![ascii_upper(c[0]), ascii_upper(c[1])])
    } else {
        ("country"@, capitalized(c))
    }
}

/// The same filter, for an ASCII text.
pub open spec fn ascii_country_filter(country: Seq<char>) -> (Seq<char>, Seq<char>) {
    let c = trimmed(country);
    if is_code(c) {
        ("countrycode"@, seq![ascii_upper(c[0]), ascii_upper(c[1])])
    } else {
        ("country"@, ascii_capitalized(c))
    }
}

fn country_filter_of(country: &str) -> (r: (String, String))
    ensures
        (r.0@, r.1@) == country_filter(country@),
        is_ascii_chars(country@) ==> (r.0@, r.1@) == ascii_country_filter(country@),
{
    let c = trim(country);
    proof {
        if is_ascii_chars(country@) {
            lemma_trimmed_is_ascii(country@);
        }
    }
    let v = chars_of(&c);
    if v.len() == 2 && letter(v[0]) && letter(v[1]) {
        let mut code = String::new();
        code.push(to_ascii_upper(v[0]));
        code.push(to_ascii_upper(v[1]));
        assert(code@ =~= seq![ascii_upper(c@[0]), ascii_upper(c@[1])]);
        return ("countrycode".to_owned(), code);
    }
    ("country".to_owned(), country_name(&c))
}

/// A country's stations, most played first.
pub fn in_country(country: &str) -> (r: Request)
    ensures
        r@ == (RequestView { filter: seq![country_filter(country@)], limit: 500 }),
        is_ascii_chars(country@) ==> r@ == (RequestView { filter: seq![ascii_country_filter(country@)], limit: 500 }),
{
    let mut v: Vec<(String, String)> = Vec::new();
    v.push(country_filter_of(country));
    assert(pair_texts(v@) =~= seq![country_filter(country@)]);
    Request { filter: v, limit: 500 }
}

fn letter(c: char) -> (r: bool)
    ensures
        r == is_ascii_letter(c),
{
    ('a' <= c && c <= 'z') || ('A' <= c && c <= 'Z')
}

// ---- Country names --------------------------------------------------

/// What `char::to_uppercase` gives.
pub uninterp spec fn upper(c: char) -> Seq<char>;

/// What `char::to_lowercase` gives.
pub uninterp spec fn lower(c: char) -> Seq<char>;

/// `char::to_uppercase`. On ASCII it gives one character, the ASCII
/// upper-case one.
#[verifier::external_body]
fn char_upper(c: char) -> (r: String)
    ensures
        r@ == upper(c),
        c <= '\u{7f}' ==> r@ == seq![ascii_upper(c)],
{
    c.to_uppercase().to_string()
}

/// `char::to_lowercase`. On ASCII it gives one character, the ASCII
/// lower-case one.
#[verifier::external_body]
fn char_lower(c: char) -> (r: String)
    ensures
        r@ == lower(c),
        c <= '\u{7f}' ==> r@ == seq![ascii_lower(c)],
{
    c.to_lowercase().to_string()
}

/// A text in lower case, character by character.
pub open spec fn lowered(s: Seq<char>) -> Seq<char>
    decreases s.len(),
{
    if s.len() == 0 {
        Seq::empty()
    } else {
        lowered(s.drop_last()) + lower(s.last())
    }
}

/// A word with its first character in upper case and the rest in lower case.
pub open spec fn capital(w: Seq<char>) -> Seq<char> {
    if w.len() == 0 {
        Seq::empty()
    } else {
        upper(w[0]) + lowered(w.drop_first())
    }
}

/// The words of a text, each with a capital, one blank between each two.
pub open spec fn capitalized(s: Seq<char>) -> Seq<char> {
    join(words(s).map_values(|w: Seq<char>| capital(w)), " "@)
}

/// An ASCII word with a capital.
pub open spec fn ascii_capital(w: Seq<char>) -> Seq<char> {
    if w.len() == 0 {
        Seq::empty()
    } else {
        seq![ascii_upper(w[0])] + w.drop_first().map_values(|c: char| ascii_lower(c))
    }
}

/// The words of an ASCII text, each with a capital.
pub open spec fn ascii_capitalized(s: Seq<char>) -> Seq<char> {
    join(words(s).map_values(|w: Seq<char>| ascii_capital(w)), " "@)
}

fn capital_of(w: &str) -> (r: String)
    ensures
        r@ == capital(w@),
        is_ascii_chars(w@) ==> r@ == ascii_capital(w@),
{
    let v = chars_of(w);
    if v.len() == 0 {
        return String::new();
    }
    let mut s = char_upper(v[0]);
    let ghost rest = w@.drop_first();
    let ghost low = rest.map_values(|c: char| ascii_lower(c));
    let mut i: usize = 1;
    assert(rest.take(0) =~= Seq::<char>::empty());
    assert(s@ =~= upper(w@[0]) + lowered(rest.take(0)));
    assert(is_ascii_chars(w@) ==> s@ =~= seq![ascii_upper(w@[0])] + low.take(0));
    while i < v.len()
        invariant
            v@ == w@,
            rest == w@.drop_first(),
            low == rest.map_values(|c: char| ascii_lower(c)),
            1 <= i <= v@.len(),
            s@ == upper(w@[0]) + lowered(rest.take(i as int - 1)),
            is_ascii_chars(w@) ==> s@ == seq![ascii_upper(w@[0])] + low.take(i as int - 1),
        decreases v.len() - i,
    {
        s.append(&char_lower(v[i]));
        assert(rest.take(i as int).drop_last() =~= rest.take(i as int - 1));
        assert(rest.take(i as int).last() == v@[i as int]);
        assert(is_ascii_chars(w@) ==> s@ =~= seq![ascii_upper(w@[0])] + low.take(i as int));
        i = i + 1;
        assert(s@ =~= upper(w@[0]) + lowered(rest.take(i as int - 1)));
    }
    assert(rest.take(rest.len() as int) =~= rest);
    assert(low.take(low.len() as int) =~= low);
    s
}

/// A country's name the way the directory has it, letter case and all:
/// "Norway", "United Kingdom".
pub fn country_name(s: &str) -> (r: String)
    ensures
        r@ == capitalized(s@),
        is_ascii_chars(s@) ==> r@ == ascii_capitalized(s@),
{
    let parts = words_of(s);
    let ghost all = words(s@);
    let mut out: Vec<String> = Vec::new();
    let mut i: usize = 0;
    proof {
        if is_ascii_chars(s@) {
            lemma_words_are_ascii(s@);
        }
    }
    while i < parts.len()
        invariant
            texts(parts@) == all,
            i <= parts@.len(),
            out@.len() == i,
            is_ascii_chars(s@) ==> forall|k: int| 0 <= k < all.len() ==> is_ascii_chars(#[trigger] all[k]),
            forall|k: int| 0 <= k < i ==> (#[trigger] out@[k])@ == capital(all[k]),
            is_ascii_chars(s@) ==> forall|k: int| 0 <= k < i ==> (#[trigger] out@[k])@ == ascii_capital(all[k]),
        decreases parts.len() - i,
    {
        assert(all[i as int] == parts@[i as int]@);
        out.push(capital_of(&parts[i]));
        i = i + 1;
    }
    assert(texts(out@) =~= all.map_values(|w: Seq<char>| capital(w)));
    assert(is_ascii_chars(s@) ==> texts(out@) =~= all.map_values(|w: Seq<char>| ascii_capital(w)));
    join_with(&out, " ")
}

// ---- Plays and kept stations ----------------------------------------

/// Where the directory counts a play, as it asks clients to tell it; nowhere
/// for a station without an id.
pub fn count_play(uuid: &str) -> (r: Option<String>)
    ensures
        match r {
            Some(url) => uuid@.len() > 0 && url@ == servers()[1] + "/json/url/"@ + uuid@,
            None => uuid@.len() == 0,
        },
{
    if uuid.is_empty() {
        return None;
    }
    let mut url = server(1);
    url.append("/json/url/");
    url.append(uuid);
    Some(url)
}

// ---- The stations that are kept -------------------------------------

impl Station {
    pub fn copy(&self) -> (r: Station)
        ensures
            r == *self,
    {
        Station {
            name: self.name.clone(),
            url: self.url.clone(),
            country: self.country.clone(),
            codec: self.codec.clone(),
            bitrate: self.bitrate,
            tags: self.tags.clone(),
            favicon: self.favicon.clone(),
            uuid: self.uuid.clone(),
        }
    }
}

/// Whether a station is in a list, by [`same`].
pub open spec fn is_kept(list: Seq<Station>, s: Station) -> bool {
    exists|i: int| 0 <= i < list.len() && same(#[trigger] list[i]@, s@)
}

/// A list with a station at its end, unless it is in the list.
pub open spec fn with_station(list: Seq<Station>, s: Station) -> Seq<Station> {
    if is_kept(list, s) {
        list
    } else {
        list.push(s)
    }
}

/// A list without a station.
pub open spec fn without(list: Seq<Station>, s: Station) -> Seq<Station>
    decreases list.len(),
{
    if list.len() == 0 {
        list
    } else if same(list.last()@, s@) {
        without(list.drop_last(), s)
    } else {
        without(list.drop_last(), s).push(list.last())
    }
}

/// Whether a list has this station.
pub fn keeps(list: &Vec<Station>, s: &Station) -> (r: bool)
    ensures
        r == is_kept(list@, *s),
{
    let mut i: usize = 0;
    while i < list.len()
        invariant
            i <= list@.len(),
            forall|k: int| 0 <= k < i ==> !same((#[trigger] list@[k])@, s@),
        decreases list.len() - i,
    {
        if same_station(&list[i], s) {
            return true;
        }
        i = i + 1;
    }
    false
}

/// Keeps a station, and says whether the list changed.
pub fn keep(list: &mut Vec<Station>, s: &Station) -> (r: bool)
    ensures
        final(list)@ == with_station(old(list)@, *s),
        r == !is_kept(old(list)@, *s),
{
    if keeps(list, s) {
        return false;
    }
    list.push(s.copy());
    true
}

/// Removes a station, and says whether the list changed.
pub fn remove(list: &mut Vec<Station>, s: &Station) -> (r: bool)
    ensures
        final(list)@ == without(old(list)@, *s),
        r == is_kept(old(list)@, *s),
{
    let ghost all = list@;
    let mut left: Vec<Station> = Vec::new();
    let mut gone: bool = false;
    let mut i: usize = 0;
    while i < list.len()
        invariant
            list@ == all,
            i <= all.len(),
            left@ == without(all.take(i as int), *s),
            gone == (exists|k: int| 0 <= k < i && same(#[trigger] all[k]@, s@)),
        decreases list.len() - i,
    {
        assert(all.take(i as int + 1).drop_last() =~= all.take(i as int));
        assert(all.take(i as int + 1).last() == all[i as int]);
        if same_station(&list[i], s) {
            assert(same(all[i as int]@, s@));
            gone = true;
        } else {
            left.push(list[i].copy());
        }
        i = i + 1;
    }
    assert(all.take(all.len() as int) =~= all);
    *list = left;
    gone
}

/// A station that was removed is in the list no more, and no other station
/// went with it.
pub proof fn law_removed_station_is_gone(list: Seq<Station>, s: Station, t: Station)
    ensures
        !is_kept(without(list, s), s),
        list.contains(t) && !same(t@, s@) ==> without(list, s).contains(t),
        without(list, s).contains(t) ==> list.contains(t),
        without(list, s).len() <= list.len(),
    decreases list.len(),
{
    if list.len() > 0 {
        let rest = list.drop_last();
        let last = list.last();
        law_removed_station_is_gone(rest, s, t);
        let left = without(list, s);
        let before = without(rest, s);
        assert(!is_kept(left, s)) by {
            if is_kept(left, s) {
                let i = choose|i: int| 0 <= i < left.len() && same(#[trigger] left[i]@, s@);
                if i < before.len() {
                    assert(before[i] == left[i]);
                    assert(is_kept(before, s));
                }
            }
        }
        if list.contains(t) && !same(t@, s@) {
            let i = choose|i: int| 0 <= i < list.len() && list[i] == t;
            if i < rest.len() {
                assert(rest[i] == t);
                assert(rest.contains(t));
                let k = choose|k: int| 0 <= k < before.len() && before[k] == t;
                assert(left[k] == t);
            } else {
                assert(left[left.len() - 1] == t);
            }
        }
        if left.contains(t) {
            let k = choose|k: int| 0 <= k < left.len() && left[k] == t;
            if k < before.len() {
                assert(before[k] == t);
                assert(before.contains(t));
                assert(rest.contains(t));
                let i = choose|i: int| 0 <= i < rest.len() && rest[i] == t;
                assert(list[i] == t);
            } else {
                assert(list[list.len() - 1] == t);
            }
        }
    }
}

/// Removing a station that is not in the list changes nothing.
pub proof fn law_removing_a_stranger_changes_nothing(list: Seq<Station>, s: Station)
    requires
        !is_kept(list, s),
    ensures
        without(list, s) == list,
    decreases list.len(),
{
    if list.len() > 0 {
        assert(!is_kept(list.drop_last(), s)) by {
            if is_kept(list.drop_last(), s) {
                let i = choose|i: int| 0 <= i < list.drop_last().len() && same(#[trigger] list.drop_last()[i]@, s@);
                assert(same(list[i]@, s@));
            }
        }
        law_removing_a_stranger_changes_nothing(list.drop_last(), s);
        assert(same(list[list.len() - 1]@, s@) == same(list.last()@, s@));
        assert(list.drop_last().push(list.last()) =~= list);
    }
}

/// A kept station is in the list, and keeping it once more changes nothing.
/// Where it was new, removing it leads back.
pub proof fn law_kept_station_stays_and_can_be_removed(list: Seq<Station>, s: Station)
    ensures
        is_kept(with_station(list, s), s),
        with_station(with_station(list, s), s) == with_station(list, s),
        !is_kept(list, s) ==> without(with_station(list, s), s) == list,
{
    if !is_kept(list, s) {
        let more = list.push(s);
        assert(more[list.len() as int] == s);
        law_same_is_reflexive(s@);
        assert(is_kept(more, s));
        assert(more.drop_last() =~= list);
        assert(more.last() == s);
        law_removing_a_stranger_changes_nothing(list, s);
    }
}

/// Whether no station is in a list twice.
pub open spec fn distinct(list: Seq<Station>) -> bool {
    forall|i: int, j: int| 0 <= i < j < list.len() ==> !same((#[trigger] list[i])@, (#[trigger] list[j])@)
}

/// Keeping and removing stations never brings one into the list twice.
pub proof fn law_stations_are_kept_once(list: Seq<Station>, s: Station)
    requires
        distinct(list),
    ensures
        distinct(with_station(list, s)),
        distinct(without(list, s)),
    decreases list.len(),
{
    assert forall|i: int| 0 <= i < list.len() && !is_kept(list, s) implies !same((#[trigger] list[i])@, s@) by {}
    if list.len() > 0 {
        let rest = list.drop_last();
        let last = list.last();
        assert forall|i: int, j: int| 0 <= i < j < rest.len() implies !same((#[trigger] rest[i])@, (#[trigger] rest[j])@) by {
            assert(list[i] == rest[i] && list[j] == rest[j]);
        }
        law_stations_are_kept_once(rest, s);
        let before = without(rest, s);
        let left = without(list, s);
        assert forall|i: int, j: int| 0 <= i < j < left.len() implies !same((#[trigger] left[i])@, (#[trigger] left[j])@) by {
            assert(left[i] == before[i]);
            if j < before.len() {
                assert(left[j] == before[j]);
            } else {
                assert(before.contains(before[i]));
                law_removed_station_is_gone(rest, s, before[i]);
                let k = choose|k: int| 0 <= k < rest.len() && rest[k] == before[i];
                assert(list[k] == before[i] && list[list.len() - 1] == last);
            }
        }
    }
}

/// The file of the stations that are kept.
pub fn saved_path(home: &Option<String>) -> (r: String)
    ensures
        r@ == joined(tune_folder(opt_text(*home)), "radio.yml"@),
{
    join_path(&tune_dir(home), "radio.yml")
}

// ---- Laws of stations -----------------------------------------------

/// Two entries with ids are the same station exactly where the ids are equal,
/// whatever their streams; without one id, exactly where the streams are.
pub proof fn law_the_same_station(a: StationView, b: StationView)
    ensures
        a.uuid.len() > 0 && b.uuid.len() > 0 ==> (same(a, b) <==> a.uuid == b.uuid),
        a.uuid.len() == 0 || b.uuid.len() == 0 ==> (same(a, b) <==> a.url == b.url),
{
}

/// What is known of a station is what its fields hold.
pub proof fn law_stations_are_seen_as_they_are(s: Station)
    ensures
        s@.name == s.name@,
        s@.url == s.url@,
        s@.country == s.country@,
        s@.codec == s.codec@,
        s@.bitrate == s.bitrate,
        s@.tags == s.tags@,
        s@.favicon == s.favicon@,
        s@.uuid == s.uuid@,
{
}

/// A station has each of its fields from the member of that name, without the
/// white space around it, and an empty one where that is no text.
pub proof fn law_a_station_is_read_from_its_entry(v: JsonView, s: StationView)
    requires
        entry(v) == Some(s),
    ensures
        v.get_text("name"@) is Some ==> s.name == trimmed(v.get_text("name"@)->0),
        v.get_text("name"@) is None ==> s.name.len() == 0,
        v.get_text("countrycode"@) is Some ==> s.country == trimmed(v.get_text("countrycode"@)->0),
        v.get_text("countrycode"@) is None ==> s.country.len() == 0,
        v.get_text("codec"@) is Some ==> s.codec == trimmed(v.get_text("codec"@)->0),
        v.get_text("codec"@) is None ==> s.codec.len() == 0,
        v.get_text("tags"@) is Some ==> s.tags == trimmed(v.get_text("tags"@)->0),
        v.get_text("tags"@) is None ==> s.tags.len() == 0,
        v.get_text("favicon"@) is Some ==> s.favicon == trimmed(v.get_text("favicon"@)->0),
        v.get_text("favicon"@) is None ==> s.favicon.len() == 0,
        v.get_text("stationuuid"@) is Some ==> s.uuid == trimmed(v.get_text("stationuuid"@)->0),
        v.get_text("stationuuid"@) is None ==> s.uuid.len() == 0,
        v.get_whole("bitrate"@) is Some ==> s.bitrate == v.get_whole("bitrate"@)->0 as int % 0x1_0000_0000,
        v.get_whole("bitrate"@) is None ==> s.bitrate == 0,
        s.url.len() > 0,
{
}

/// The stream of a station is the resolved one where there is one, and else
/// the other; an entry without either is no station.
pub proof fn law_the_resolved_stream_comes_first(v: JsonView, t: Seq<char>)
    ensures
        v.get_text("url_resolved"@) == Some(t) && trimmed(t).len() > 0 ==> entry(v) is Some && (entry(v)->0).url == trimmed(t),
        (v.get_text("url_resolved"@) is None || trimmed(v.get_text("url_resolved"@)->0).len() == 0) && v.get_text("url"@)
            == Some(t) && trimmed(t).len() > 0 ==> entry(v) is Some && (entry(v)->0).url == trimmed(t),
        (v.get_text("url_resolved"@) is None || trimmed(v.get_text("url_resolved"@)->0).len() == 0) && (v.get_text("url"@) is None
            || trimmed(v.get_text("url"@)->0).len() == 0) ==> entry(v) is None,
{
}

/// The stations of two lists are those of the one and then those of the other:
/// the order of the directory stays.
pub proof fn law_stations_of_both(a: Seq<JsonView>, b: Seq<JsonView>)
    ensures
        entries(a + b) == entries(a) + entries(b),
        entries(Seq::empty()) == Seq::<StationView>::empty(),
        b.len() == 1 && entry(b[0]) is Some ==> entries(b) == seq![entry(b[0])->0],
        b.len() == 1 && entry(b[0]) is None ==> entries(b).len() == 0,
    decreases b.len(),
{
    if b.len() == 0 {
        assert(a + b =~= a);
        assert(entries(a) + entries(b) =~= entries(a));
    } else {
        law_stations_of_both(a, b.drop_last());
        assert((a + b).drop_last() =~= a + b.drop_last());
        assert((a + b).last() == b.last());
        assert(entries(a + b) =~= entries(a) + entries(b));
        if b.len() == 1 {
            assert(b.drop_last() =~= Seq::<JsonView>::empty());
        }
    }
}

/// An answer that is a list gives its stations, and one that cannot be read its
/// fault.
pub proof fn law_answers_give_stations(body: Seq<char>, list: Seq<JsonView>, m: Seq<char>)
    ensures
        parsed_list(body) == Ok::<Seq<JsonView>, Seq<char>>(list) ==> answer(body) == Ok::<Seq<StationView>, Seq<char>>(
            entries(list),
        ),
        parsed_list(body) == Err::<Seq<JsonView>, Seq<char>>(m) ==> answer(body) == Err::<Seq<StationView>, Seq<char>>(m),
{
}

/// What came of a request is what it holds.
pub proof fn law_outcomes_are_seen_as_they_are(v: Vec<Station>, m: String, i: int)
    ensures
        outcome(Err(m)) == Err::<Seq<StationView>, Seq<char>>(m@),
        outcome(Ok(v)) is Ok,
        (outcome(Ok(v))->Ok_0).len() == v@.len(),
        0 <= i < v@.len() ==> (outcome(Ok(v))->Ok_0)[i] == v@[i]@,
{
}

/// Every request asks for so many stations that work, the most played first,
/// besides what it filters by.
pub proof fn law_what_every_request_asks(r: RequestView)
    ensures
        query(r) == r.filter.push(("limit"@, decimal(r.limit as nat))).push(("hidebroken"@, "true"@)).push(
            ("order"@, "clickcount"@),
        ).push(("reverse"@, "true"@)),
        servers().len() == SERVERS,
        servers()[0] == "https://de1.api.radio-browser.info"@,
        servers()[1] == "https://all.api.radio-browser.info"@,
{
    assert(query(r) =~= r.filter.push(("limit"@, decimal(r.limit as nat))).push(("hidebroken"@, "true"@)).push(
        ("order"@, "clickcount"@),
    ).push(("reverse"@, "true"@)));
}

/// A query names its country behind the first `@` that starts a word: what
/// stands before it is searched for, and the country is filtered by.
pub proof fn law_a_query_names_its_country(field: Seq<char>, name: Seq<char>, country: Seq<char>)
    requires
        name.len() == 0 || is_white(name.last()),
        forall|i: int| 0 <= i < name.len() && name[i] == '@' ==> i > 0 && !is_white(#[trigger] name[i - 1]),
        trimmed(country).len() > 0,
    ensures
        filters(field, name + seq!['@'] + country) == seq![(field, trimmed(name)), country_filter(country)],
{
    let q = name + seq!['@'] + country;
    let k = name.len() as int;
    assert(q[k] == '@');
    if k > 0 {
        assert(q[k - 1] == name.last());
    }
    assert forall|i: int| 0 <= i < k implies !starts_country(q, i) by {
        assert(q[i] == name[i]);
        if name[i] == '@' {
            assert(!is_white(name[i - 1]));
            assert(q[i - 1] == name[i - 1]);
        }
    }
    lemma_mark(q, 0, k);
    assert(q.skip(k + 1) =~= country);
    assert(q.take(k) =~= name);
}

proof fn lemma_mark(q: Seq<char>, from: int, k: int)
    requires
        0 <= from <= k < q.len(),
        starts_country(q, k),
        forall|i: int| from <= i < k ==> !starts_country(q, i),
    ensures
        country_mark(q, from) == k,
    decreases k - from,
{
    if from < k {
        lemma_mark(q, from + 1, k);
    }
}

/// An `@` inside a word names no country: the whole query is searched for.
pub proof fn law_an_at_sign_inside_a_word_names_no_country(field: Seq<char>, query: Seq<char>)
    requires
        forall|i: int| 0 <= i < query.len() && query[i] == '@' ==> i > 0 && !is_white(#[trigger] query[i - 1]),
    ensures
        filters(field, query) == seq![(field, query)],
{
    assert forall|i: int| 0 <= i < query.len() implies !starts_country(query, i) by {
        if query[i] == '@' {
            assert(!is_white(query[i - 1]));
        }
    }
    law_plain_query_names_no_country(field, query);
}

/// An `@` with nothing behind it names no country either.
pub proof fn law_a_query_without_a_country(field: Seq<char>, name: Seq<char>, country: Seq<char>)
    requires
        name.len() == 0 || is_white(name.last()),
        forall|i: int| 0 <= i < name.len() && name[i] == '@' ==> i > 0 && !is_white(#[trigger] name[i - 1]),
        trimmed(country).len() == 0,
    ensures
        filters(field, name + seq!['@'] + country) == seq![(field, name + seq!['@'] + country)],
{
    let q = name + seq!['@'] + country;
    let k = name.len() as int;
    assert(q[k] == '@');
    if k > 0 {
        assert(q[k - 1] == name.last());
    }
    assert forall|i: int| 0 <= i < k implies !starts_country(q, i) by {
        assert(q[i] == name[i]);
        if name[i] == '@' {
            assert(!is_white(name[i - 1]));
            assert(q[i - 1] == name[i - 1]);
        }
    }
    lemma_mark(q, 0, k);
    assert(q.skip(k + 1) =~= country);
}

/// Two letters are a country's code, in capitals; anything else is its name.
pub proof fn law_codes_and_names_of_countries(country: Seq<char>, x: char, y: char)
    ensures
        trimmed(country) == seq![x, y] && is_ascii_letter(x) && is_ascii_letter(y) ==> country_filter(country) == (
            "countrycode"@,
            seq![ascii_upper(x), ascii_upper(y)],
        ) && ascii_country_filter(country) == country_filter(country),
        trimmed(country).len() != 2 ==> country_filter(country) == ("country"@, capitalized(trimmed(country)))
            && ascii_country_filter(country) == ("country"@, ascii_capitalized(trimmed(country))),
        trimmed(country) == seq![x, y] && !(is_ascii_letter(x) && is_ascii_letter(y)) ==> country_filter(country) == (
            "country"@,
            capitalized(trimmed(country)),
        ) && ascii_country_filter(country) == ("country"@, ascii_capitalized(trimmed(country))),
{
}

/// A country's name has a capital at the start of each word and small letters
/// behind it, and one blank between two words.
pub proof fn law_names_of_countries_are_capitalized(s: Seq<char>, i: int)
    ensures
        capitalized(s) == join(Seq::new(words(s).len(), |k: int| capital(words(s)[k])), " "@),
        ascii_capitalized(s) == join(Seq::new(words(s).len(), |k: int| ascii_capital(words(s)[k])), " "@),
        s.len() > 0 ==> capital(s) == upper(s[0]) + lowered(s.skip(1)),
        ascii_capital(s).len() == s.len(),
        s.len() > 0 ==> ascii_capital(s)[0] == ascii_upper(s[0]),
        0 < i < s.len() ==> ascii_capital(s)[i] == ascii_lower(s[i]),
{
    assert(words(s).map_values(|w: Seq<char>| capital(w)) =~= Seq::new(words(s).len(), |k: int| capital(words(s)[k])));
    assert(words(s).map_values(|w: Seq<char>| ascii_capital(w)) =~= Seq::new(
        words(s).len(),
        |k: int| ascii_capital(words(s)[k]),
    ));
    assert(s.len() > 0 ==> s.skip(1) =~= s.drop_first());
}

/// A text in small letters is that of each of its characters, in order.
pub proof fn law_lowered_of_both(a: Seq<char>, b: Seq<char>)
    ensures
        lowered(a + b) == lowered(a) + lowered(b),
        lowered(Seq::empty()) == Seq::<char>::empty(),
        b.len() == 1 ==> lowered(b) == lower(b[0]),
    decreases b.len(),
{
    if b.len() == 0 {
        assert(a + b =~= a);
        assert(lowered(a) + lowered(b) =~= lowered(a));
    } else {
        law_lowered_of_both(a, b.drop_last());
        assert((a + b).drop_last() =~= a + b.drop_last());
        assert((a + b).last() == b.last());
        assert(lowered(a) + (lowered(b.drop_last()) + lower(b.last())) =~= (lowered(a) + lowered(b.drop_last())) + lower(
            b.last(),
        ));
        if b.len() == 1 {
            assert(b.drop_last() =~= Seq::<char>::empty());
            assert(lowered(b) =~= lower(b[0]));
        }
    }
}

/// Removing a station from two lists removes it from each, and what is left
/// keeps its order.
pub proof fn law_removing_from_both(a: Seq<Station>, b: Seq<Station>, s: Station)
    ensures
        without(a + b, s) == without(a, s) + without(b, s),
        b.len() == 1 && same(b[0]@, s@) ==> without(b, s).len() == 0,
        b.len() == 1 && !same(b[0]@, s@) ==> without(b, s) == b,
    decreases b.len(),
{
    if b.len() == 0 {
        assert(a + b =~= a);
        assert(without(a, s) + without(b, s) =~= without(a, s));
    } else {
        law_removing_from_both(a, b.drop_last(), s);
        assert((a + b).drop_last() =~= a + b.drop_last());
        assert((a + b).last() == b.last());
        assert(without(a + b, s) =~= without(a, s) + without(b, s));
        if b.len() == 1 {
            assert(b.drop_last() =~= Seq::<Station>::empty());
            if !same(b[0]@, s@) {
                assert(without(b, s) =~= b);
            }
        }
    }
}

/// A new station is kept behind the others, and one that is kept already
/// changes nothing.
pub proof fn law_new_stations_come_last(list: Seq<Station>, s: Station, i: int)
    ensures
        (forall|k: int| 0 <= k < list.len() ==> !same((#[trigger] list[k])@, s@)) ==> with_station(list, s) == list.push(s),
        0 <= i < list.len() && same(list[i]@, s@) ==> is_kept(list, s) && with_station(list, s) == list,
        (forall|k: int| 0 <= k < list.len() ==> !same((#[trigger] list[k])@, s@)) ==> !is_kept(list, s),
{
}

/// What is known of a request is what it filters by, pair by pair, and its
/// limit.
pub proof fn law_requests_are_seen_as_they_are(r: Request, v: Seq<Station>, i: int)
    ensures
        r@.limit == r.limit,
        r@.filter.len() == r.filter@.len(),
        0 <= i < r.filter@.len() ==> r@.filter[i] == (r.filter@[i].0@, r.filter@[i].1@),
        station_views(v).len() == v.len(),
        0 <= i < v.len() ==> station_views(v)[i] == v[i]@,
{
}

}
