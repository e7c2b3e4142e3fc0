//! JSON values, read and written by `serde_json`.

use vstd::prelude::*;
use crate::text::texts;

verus! {

/// A JSON value as mathematics. A number is its text, and its value where it
/// is a whole one from zero up to `u64::MAX`.
pub enum JsonView {
    Null,
    Bool(bool),
    Number(Seq<char>, Option<u64>),
    Text(Seq<char>),
    Array(Seq<JsonView>),
    Object(Seq<(Seq<char>, JsonView)>),
}

/// A JSON value. The members of an object stand in the order in which
/// `serde_json` walks them.
#[derive(Debug)]
pub enum Json {
    Null,
    Bool(bool),
    Number(String, Option<u64>),
    Text(String),
    Array(Vec<Json>),
    Object(Vec<(String, Json)>),
}

impl View for Json {
    type V = JsonView;

    open spec fn view(&self) -> JsonView
        decreases self,
    {
        match self {
            Json::Null => JsonView::Null,
            Json::Bool(b) => JsonView::Bool(*b),
            Json::Number(t, w) => JsonView::Number(t@, *w),
            Json::Text(t) => JsonView::Text(t@),
            Json::Array(a) => JsonView::Array(
                Seq::new(
                    a@.len(),
                    |i: int|
                        if 0 <= i < a@.len() {
                            a@[i]@
                        } else {
                            JsonView::Null
                        },
                ),
            ),
            Json::Object(o) => JsonView::Object(
                Seq::new(
                    o@.len(),
                    |i: int|
                        if 0 <= i < o@.len() {
                            (o@[i].0@, o@[i].1@)
                        } else {
                            (Seq::empty(), JsonView::Null)
                        },
                ),
            ),
        }
    }
}

/// The values of a list.
pub open spec fn views(v: Seq<Json>) -> Seq<JsonView> {
    Seq::new(v.len(), |i: int| v[i]@)
}

/// The value of the first member called `key`.
pub open spec fn member(members: Seq<(Seq<char>, JsonView)>, key: Seq<char>) -> Option<JsonView>
    decreases members.len(),
{
    if members.len() == 0 {
        None
    } else if members[0].0 == key {
        Some(members[0].1)
    } else {
        member(members.drop_first(), key)
    }
}

/// The pairs of a list of members.
pub open spec fn pairs(v: Seq<(String, Json)>) -> Seq<(Seq<char>, JsonView)> {
    Seq::new(v.len(), |i: int| (v[i].0@, v[i].1@))
}

pub proof fn lemma_object(o: Vec<(String, Json)>)
    ensures
        Json::Object(o)@ == JsonView::Object(pairs(o@)),
{
    reveal_with_fuel(<Json as View>::view, 2);
    let v = Json::Object(o)@;
    assert(v->Object_0 =~= pairs(o@));
}

pub proof fn lemma_array(a: Vec<Json>)
    ensures
        Json::Array(a)@ == JsonView::Array(views(a@)),
{
    reveal_with_fuel(<Json as View>::view, 2);
    let v = Json::Array(a)@;
    assert(v->Array_0 =~= views(a@));
}

impl JsonView {
    /// The member called `key`, where the value is an object that has one.
    pub open spec fn get(self, key: Seq<char>) -> Option<JsonView> {
        match self {
            JsonView::Object(members) => member(members, key),
            _ => None,
        }
    }

    pub open spec fn text(self) -> Option<Seq<char>> {
        match self {
            JsonView::Text(t) => Some(t),
            _ => None,
        }
    }

    pub open spec fn whole(self) -> Option<u64> {
        match self {
            JsonView::Number(_, w) => w,
            _ => None,
        }
    }

    /// The text of the member called `key`.
    pub open spec fn get_text(self, key: Seq<char>) -> Option<Seq<char>> {
        match self.get(key) {
            Some(v) => v.text(),
            None => None,
        }
    }

    /// The whole number in the member called `key`.
    pub open spec fn get_whole(self, key: Seq<char>) -> Option<u64> {
        match self.get(key) {
            Some(v) => v.whole(),
            None => None,
        }
    }
}

impl Json {
    /// The member called `key`, where the value is an object that has one.
    pub fn get(&self, key: &str) -> (r: Option<&Json>)
        ensures
            match r {
                Some(v) => self@.get(key@) == Some(v@),
                None => self@.get(key@) is None,
            },
    {
        match self {
            Json::Object(o) => {
                proof {
                    lemma_object(*o);
                }
                let ghost all = self@->Object_0;
                let mut i: usize = 0;
                assert(all.skip(0) =~= all);
                while i < o.len()
                    invariant
                        self@ == JsonView::Object(all),
                        all.len() == o@.len(),
                        forall|k: int| 0 <= k < o@.len() ==> (#[trigger] all[k]) == (o@[k].0@, o@[k].1@),
                        i <= o@.len(),
                        member(all, key@) == member(all.skip(i as int), key@),
                    decreases o.len() - i,
                {
                    assert(all.skip(i as int)[0] == all[i as int]);
                    if *o[i].0.as_str() == *key {
                        return Some(&o[i].1);
                    }
                    assert(all.skip(i as int).drop_first() =~= all.skip(i as int + 1));
                    i = i + 1;
                }
                None
            },
            _ => None,
        }
    }

    pub fn as_str(&self) -> (r: Option<&str>)
        ensures
            match r {
                Some(t) => self@.text() == Some(t@),
                None => self@.text() is None,
            },
    {
        match self {
            Json::Text(t) => Some(t.as_str()),
            _ => None,
        }
    }

    pub fn as_u64(&self) -> (r: Option<u64>)
        ensures
            r == self@.whole(),
    {
        match self {
            Json::Number(_, w) => *w,
            _ => None,
        }
    }

    pub fn as_bool(&self) -> (r: Option<bool>)
        ensures
            r == (match self@ {
                JsonView::Bool(b) => Some(b),
                _ => None,
            }),
    {
        match self {
            Json::Bool(b) => Some(*b),
            _ => None,
        }
    }

    pub fn as_array(&self) -> (r: Option<&Vec<Json>>)
        ensures
            match r {
                Some(a) => self@ == JsonView::Array(views(a@)),
                None => !(self@ is Array),
            },
    {
        match self {
            Json::Array(a) => {
                proof {
                    lemma_array(*a);
                }
                Some(a)
            },
            _ => None,
        }
    }

    /// The text of the member called `key`.
    pub fn get_str(&self, key: &str) -> (r: Option<&str>)
        ensures
            match r {
                Some(t) => self@.get_text(key@) == Some(t@),
                None => self@.get_text(key@) is None,
            },
    {
        match self.get(key) {
            Some(v) => v.as_str(),
            None => None,
        }
    }

    /// The whole number in the member called `key`.
    pub fn get_u64(&self, key: &str) -> (r: Option<u64>)
        ensures
            r == self@.get_whole(key@),
    {
        match self.get(key) {
            Some(v) => v.as_u64(),
            None => None,
        }
    }
}

// ---- serde_json -----------------------------------------------------

/// `serde_json`'s value.
#[verifier::external_type_specification]
#[verifier::external_body]
pub struct ExValue(serde_json::Value);

/// What a `serde_json` value holds.
pub uninterp spec fn json_of(v: serde_json::Value) -> JsonView;

/// What `serde_json::from_str` makes of a text as one value: the value, or
/// the error's message.
pub uninterp spec fn parsed(text: Seq<char>) -> Result<JsonView, Seq<char>>;

/// What `serde_json::from_str` makes of a text as a list of values: the
/// values, or the error's message.
pub uninterp spec fn parsed_list(text: Seq<char>) -> Result<Seq<JsonView>, Seq<char>>;

/// What `serde_json::to_string` writes for a list of strings.
pub uninterp spec fn written(items: Seq<Seq<char>>) -> Seq<char>;

/// A `serde_json` value with its outermost layer open.
pub enum Layer {
    Null,
    Bool(bool),
    Number(String, Option<u64>),
    Text(String),
    Array(Vec<serde_json::Value>),
    Object(Vec<(String, serde_json::Value)>),
}

impl Layer {
    pub open spec fn model(self) -> JsonView {
        match self {
            Layer::Null => JsonView::Null,
            Layer::Bool(b) => JsonView::Bool(b),
            Layer::Number(t, w) => JsonView::Number(t@, w),
            Layer::Text(t) => JsonView::Text(t@),
            Layer::Array(a) => JsonView::Array(values(a@)),
            Layer::Object(o) => JsonView::Object(
                Seq::new(o@.len(), |i: int| (o@[i].0@, json_of(o@[i].1))),
            ),
        }
    }
}

/// What the values of a list hold.
pub open spec fn values(v: Seq<serde_json::Value>) -> Seq<JsonView> {
    Seq::new(v.len(), |i: int| json_of(v[i]))
}

/// Texts as JSON strings.
pub open spec fn strings(items: Seq<Seq<char>>) -> Seq<JsonView> {
    Seq::new(items.len(), |i: int| JsonView::Text(items[i]))
}

/// Takes a `serde_json::Value` apart, one variant each. A number gives its
/// text (`Number`'s `Display`) and `Number::as_u64`; an object gives its
/// members in the map's own order.
#[verifier::external_body]
fn open_value(v: serde_json::Value) -> (r: Layer)
    ensures
        r.model() == json_of(v),
{
    match v {
        serde_json::Value::Null => Layer::Null,
        serde_json::Value::Bool(b) => Layer::Bool(b),
        serde_json::Value::Number(n) => Layer::Number(n.to_string(), n.as_u64()),
        serde_json::Value::String(s) => Layer::Text(s),
        serde_json::Value::Array(a) => Layer::Array(a),
        serde_json::Value::Object(o) => Layer::Object(o.into_iter().collect()),
    }
}

/// `serde_json::from_str` on one value; an error becomes its message. The
/// result depends on the text alone.
#[verifier::external_body]
fn read_value(text: &str) -> (r: Result<serde_json::Value, String>)
    ensures
        match r {
            Ok(v) => parsed(text@) == Ok::<JsonView, Seq<char>>(json_of(v)),
            Err(m) => parsed(text@) == Err::<JsonView, Seq<char>>(m@),
        },
{
    serde_json::from_str(text).map_err(|e| e.to_string())
}

/// `serde_json::from_str` on a list of values; an error becomes its message.
/// The result depends on the text alone.
#[verifier::external_body]
fn read_list(text: &str) -> (r: Result<Vec<serde_json::Value>, String>)
    ensures
        match r {
            Ok(v) => parsed_list(text@) == Ok::<Seq<JsonView>, Seq<char>>(values(v@)),
            Err(m) => parsed_list(text@) == Err::<Seq<JsonView>, Seq<char>>(m@),
        },
{
    serde_json::from_str(text).map_err(|e| e.to_string())
}

/// `serde_json::to_string` on a list of strings, which cannot fail. The
/// compact form has no line break in it: one inside a string is escaped. Read
/// as a list, it gives the strings back.
#[verifier::external_body]
fn write_list(items: &Vec<String>) -> (r: String)
    ensures
        r@ == written(texts(items@)),
        !r@.contains('\n'),
        parsed_list(r@) is Ok,
        parsed_list(r@)->Ok_0 == strings(texts(items@)),
{
    serde_json::to_string(items).unwrap()
}

/// A `serde_json` value as a value of this library.
pub fn from_value(v: serde_json::Value) -> (r: Json)
    ensures
        r@ == json_of(v),
    decreases json_of(v),
{
    let ghost model = json_of(v);
    match open_value(v) {
        Layer::Null => Json::Null,
        Layer::Bool(b) => Json::Bool(b),
        Layer::Number(t, w) => Json::Number(t, w),
        Layer::Text(t) => Json::Text(t),
        Layer::Array(a) => {
            let ghost items = a@;
            let mut out: Vec<Json> = Vec::new();
            for x in it: a
                invariant
                    it.seq() == items,
                    model == json_of(v),
                    model == JsonView::Array(values(items)),
                    out@.len() == it.index(),
                    forall|k: int| 0 <= k < out@.len() ==> (#[trigger] out@[k])@ == json_of(items[k]),
            {
                assert(decreases_to!(model => model->Array_0[it.index() as int]));
                assert(model->Array_0[it.index() as int] == json_of(x));
                out.push(from_value(x));
            }
            proof {
                lemma_array(out);
                assert(views(out@) =~= model->Array_0);
            }
            Json::Array(out)
        },
        Layer::Object(o) => {
            let ghost members = o@;
            let mut out: Vec<(String, Json)> = Vec::new();
            for x in it: o
                invariant
                    it.seq() == members,
                    model == json_of(v),
                    model == JsonView::Object(
                        Seq::new(members.len(), |i: int| (members[i].0@, json_of(members[i].1))),
                    ),
                    out@.len() == it.index(),
                    forall|k: int|
                        0 <= k < out@.len() ==> (#[trigger] out@[k]).0@ == members[k].0@ && out@[k].1@ == json_of(
                            members[k].1,
                        ),
            {
                assert(decreases_to!(model => model->Object_0[it.index() as int]));
                assert(model->Object_0[it.index() as int].1 == json_of(x.1));
                out.push((x.0, from_value(x.1)));
            }
            proof {
                lemma_object(out);
                assert(pairs(out@) =~= model->Object_0);
            }
            Json::Object(out)
        },
    }
}

/// One JSON value out of a text.
pub fn parse(text: &str) -> (r: Result<Json, String>)
    ensures
        match r {
            Ok(v) => parsed(text@) == Ok::<JsonView, Seq<char>>(v@),
            Err(m) => parsed(text@) == Err::<JsonView, Seq<char>>(m@),
        },
{
    match read_value(text) {
        Ok(v) => Ok(from_value(v)),
        Err(m) => Err(m),
    }
}

/// A list of JSON values out of a text.
pub fn parse_list(text: &str) -> (r: Result<Vec<Json>, String>)
    ensures
        match r {
            Ok(v) => parsed_list(text@) == Ok::<Seq<JsonView>, Seq<char>>(views(v@)),
            Err(m) => parsed_list(text@) == Err::<Seq<JsonView>, Seq<char>>(m@),
        },
{
    match read_list(text) {
        Ok(list) => {
            let ghost items = list@;
            let mut out: Vec<Json> = Vec::new();
            for x in it: list
                invariant
                    it.seq() == items,
                    out@.len() == it.index(),
                    forall|k: int| 0 <= k < out@.len() ==> (#[trigger] out@[k])@ == json_of(items[k]),
            {
                out.push(from_value(x));
            }
            assert(views(out@) =~= values(items));
            Ok(out)
        },
        Err(m) => Err(m),
    }
}

/// A list of strings as JSON text on one line.
pub fn render_list(items: &Vec<String>) -> (r: String)
    ensures
        r@ == written(texts(items@)),
        !r@.contains('\n'),
        parsed_list(r@) is Ok,
        parsed_list(r@)->Ok_0 == strings(texts(items@)),
{
    write_list(items)
}

// ---- Laws of members ------------------------------------------------

/// A member is the first one of its name, and there is none exactly where no
/// member has that name.
pub proof fn law_the_first_member_counts(
    before: Seq<(Seq<char>, JsonView)>,
    key: Seq<char>,
    v: JsonView,
    after: Seq<(Seq<char>, JsonView)>,
)
    requires
        forall|i: int| 0 <= i < before.len() ==> (#[trigger] before[i]).0 != key,
    ensures
        member(before + seq![(key, v)] + after, key) == Some(v),
        member(before, key) is None,
        JsonView::Object(before + seq![(key, v)] + after).get(key) == Some(v),
        JsonView::Object(before).get(key) is None,
    decreases before.len(),
{
    let all = before + seq![(key, v)] + after;
    if before.len() > 0 {
        let t = before.drop_first();
        assert forall|i: int| 0 <= i < t.len() implies (#[trigger] t[i]).0 != key by {
            assert(t[i] == before[i + 1]);
        }
        law_the_first_member_counts(t, key, v, after);
        assert(all.drop_first() =~= t + seq![(key, v)] + after);
        assert(all[0] == before[0]);
    } else {
        assert(all[0] == (key, v));
    }
}

/// A text is read from a text only, and a whole number from a number that is
/// one; what is no object has no members.
pub proof fn law_values_are_read_by_their_kind(j: JsonView, key: Seq<char>, t: Seq<char>, n: u64, w: Option<u64>)
    ensures
        JsonView::Text(t).text() == Some(t),
        JsonView::Number(t, w).whole() == w,
        !(j is Text) ==> j.text() is None,
        !(j is Number) ==> j.whole() is None,
        !(j is Object) ==> j.get(key) is None,
        j.get(key) == Some(JsonView::Text(t)) ==> j.get_text(key) == Some(t),
        j.get(key) == Some(JsonView::Number(t, Some(n))) ==> j.get_whole(key) == Some(n),
        j.get(key) is None ==> j.get_text(key) is None && j.get_whole(key) is None,
        j.get(key) is Some && !(j.get(key)->0 is Text) ==> j.get_text(key) is None,
        j.get(key) is Some && !(j.get(key)->0 is Number) ==> j.get_whole(key) is None,
{
}

/// What is known of a value is what it holds.
pub proof fn law_values_are_seen_as_they_are(b: bool, t: String, w: Option<u64>, a: Vec<Json>, i: int)
    ensures
        Json::Null@ == JsonView::Null,
        Json::Bool(b)@ == JsonView::Bool(b),
        Json::Text(t)@ == JsonView::Text(t@),
        Json::Number(t, w)@ == JsonView::Number(t@, w),
        Json::Array(a)@ == JsonView::Array(views(a@)),
        views(a@).len() == a@.len(),
        0 <= i < a@.len() ==> views(a@)[i] == a@[i]@,
{
    lemma_array(a);
}

}
