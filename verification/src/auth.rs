//! Spotify sign-in: the scopes, the redirect that brings the code, and what a
//! failed refresh means.
//!
//! On the first run the authorize URL opens in the browser, and the redirect
//! comes back to a listener on this computer with `?code=…`. Later runs use the
//! token kept in `~/.tune/token.json`.

use vstd::prelude::*;
use vstd::utf8::{decode_utf8, encode_utf8, encode_utf8_decode_utf8, encode_utf8_valid_utf8, is_ascii_chars, valid_utf8};
use crate::config::{opt_text, tune_dir, tune_folder};
use crate::path::{join_path, joined};
use crate::text::{
    after_first, ascii_lower, before_first, concat, contains, contains_bare, cut, decimal, decimal_of, holds,
    holds_bare, join, law_cut_at_the_first, law_split_then_join, lowercase, split, split_on, texts, to_lowercase, words, words_of,
};

verus! {

/// The port that the redirect comes back to.
pub const AUTH_PORT: u16 = 8888;

/// Where Spotify sends the browser after the sign-in.
pub const REDIRECT_URI: &'static str = "http://127.0.0.1:8888/callback";

// ---- Scopes ---------------------------------------------------------

/// What tune asks for: playback read and modify, currently playing, library
/// and playlist read, and streaming, without which no audio plays.
pub open spec fn scopes() -> Seq<Seq<char>> {
    seq![
        "user-read-playback-state"@,
        "user-modify-playback-state"@,
        "user-read-currently-playing"@,
        "user-read-private"@,
        "user-library-read"@,
        "playlist-read-private"@,
        "playlist-read-collaborative"@,
        "streaming"@,
    ]
}

/// The scopes that tune needs. Spotify rejects requests for scopes that were
/// not granted on the first sign-in, so a longer list needs a new one.
pub fn required_scopes() -> (r: Vec<String>)
    ensures
        texts(r@) == scopes(),
{
    let mut v: Vec<String> = Vec::new();
    v.push("user-read-playback-state".to_owned());
    v.push("user-modify-playback-state".to_owned());
    v.push("user-read-currently-playing".to_owned());
    v.push("user-read-private".to_owned());
    v.push("user-library-read".to_owned());
    v.push("playlist-read-private".to_owned());
    v.push("playlist-read-collaborative".to_owned());
    v.push("streaming".to_owned());
    assert(texts(v@) =~= scopes());
    v
}

/// Whether a list of granted scopes has every scope that tune needs.
pub open spec fn covers(granted: Seq<Seq<char>>) -> bool {
    forall|i: int| 0 <= i < scopes().len() ==> granted.contains(#[trigger] scopes()[i])
}

fn listed(list: &Vec<String>, s: &String) -> (r: bool)
    ensures
        r == texts(list@).contains(s@),
{
    let mut i: usize = 0;
    while i < list.len()
        invariant
            i <= list@.len(),
            forall|k: int| 0 <= k < i ==> (#[trigger] list@[k])@ != s@,
        decreases list.len() - i,
    {
        if list[i] == *s {
            assert(texts(list@)[i as int] == s@);
            return true;
        }
        i = i + 1;
    }
    assert(!texts(list@).contains(s@)) by {
        if texts(list@).contains(s@) {
            let k = choose|k: int| 0 <= k < texts(list@).len() && texts(list@)[k] == s@;
            assert(list@[k]@ == s@);
        }
    }
    false
}

/// Whether a token with these scopes covers all that tune needs. A cached
/// token from before the list grew does not: it needs one new sign-in.
pub fn token_has_all_scopes(granted: &Vec<String>) -> (r: bool)
    ensures
        r == covers(texts(granted@)),
{
    let need = required_scopes();
    let mut i: usize = 0;
    while i < need.len()
        invariant
            texts(need@) == scopes(),
            i <= need@.len(),
            forall|k: int| 0 <= k < i ==> texts(granted@).contains(#[trigger] scopes()[k]),
        decreases need.len() - i,
    {
        assert(scopes()[i as int] == need@[i as int]@);
        if !listed(granted, &need[i]) {
            return false;
        }
        i = i + 1;
    }
    true
}

/// Whether the user has to sign in: without a cached token, or with one that
/// lacks a scope.
pub fn need_reauth(cached: &Option<Vec<String>>) -> (r: bool)
    ensures
        r == (match cached {
            Some(granted) => !covers(texts(granted@)),
            None => true,
        }),
{
    match cached {
        Some(granted) => !token_has_all_scopes(granted),
        None => true,
    }
}

/// The scopes that tune asks for are all that it needs: a token granted on
/// them calls for no further sign-in.
pub proof fn law_granting_what_is_asked_is_enough()
    ensures
        covers(scopes()),
{
    assert forall|i: int| 0 <= i < scopes().len() implies scopes().contains(#[trigger] scopes()[i]) by {}
}

/// The file that the token is kept in.
pub fn token_cache_path(home: &Option<String>) -> (r: String)
    ensures
        r@ == joined(tune_folder(opt_text(*home)), "token.json"@),
{
    join_path(&tune_dir(home), "token.json")
}

// ---- A failed refresh -----------------------------------------------

/// Whether a message in lower case says that the refresh token is dead, and
/// not that the network failed: a status is a number by itself, and no part of
/// a longer one such as a port.
pub open spec fn says_dead(m: Seq<char>) -> bool {
    ||| holds(m, "invalid_grant"@)
    ||| holds(m, "invalid grant"@)
    ||| holds_bare(m, "400"@)
    ||| holds_bare(m, "401"@)
    ||| holds(m, "unauthorized"@)
}

pub fn token_dead(m: &str) -> (r: bool)
    ensures
        r == says_dead(m@),
{
    contains(m, "invalid_grant") || contains(m, "invalid grant") || contains_bare(m, "400")
        || contains_bare(m, "401") || contains(m, "unauthorized")
}

/// What a refresh comes to.
#[derive(Debug)]
pub enum Refresh {
    /// The token is fresh.
    Fresh,
    /// The refresh token is dead: it is thrown away, and the user signs in
    /// again. The dead token is never tried again.
    SignIn,
    /// A passing failure: the cached token is still worth keeping.
    Keep(String),
}

/// What to do after a refresh that went well, or failed with a message.
pub fn refresh_or_reauthorize(failure: &Option<String>) -> (r: Refresh)
    ensures
        match failure {
            None => r == Refresh::Fresh,
            Some(e) => if says_dead(lowercase(e@)) {
                r == Refresh::SignIn
            } else {
                r matches Refresh::Keep(m) && m@ == "refresh_token: "@ + e@
            },
        },
        match failure {
            None => true,
            Some(e) => is_ascii_chars(e@) ==> (r is SignIn <==> says_dead(e@.map_values(|c: char| ascii_lower(c)))),
        },
{
    match failure {
        None => Refresh::Fresh,
        Some(e) => {
            if token_dead(&to_lowercase(e)) {
                Refresh::SignIn
            } else {
                Refresh::Keep(concat("refresh_token: ", e))
            }
        },
    }
}

// ---- URL decoding ---------------------------------------------------

/// The value of a byte as a hexadecimal digit.
pub open spec fn hex_value(b: u8) -> Option<u8> {
    if 48 <= b <= 57 {
        Some((b - 48) as u8)
    } else if 97 <= b <= 102 {
        Some((b - 87) as u8)
    } else if 65 <= b <= 70 {
        Some((b - 55) as u8)
    } else {
        None
    }
}

fn hex_value_of(b: u8) -> (r: Option<u8>)
    ensures
        r == hex_value(b),
{
    if 48 <= b && b <= 57 {
        Some(b - 48)
    } else if 97 <= b && b <= 102 {
        Some(b - 87)
    } else if 65 <= b && b <= 70 {
        Some(b - 55)
    } else {
        None
    }
}

/// The bytes that a query value stands for: a plus is a blank, a percent sign
/// with two hexadecimal digits is that byte, and all else is itself.
pub open spec fn decoded(b: Seq<u8>) -> Seq<u8>
    decreases b.len(),
{
    if b.len() == 0 {
        Seq::empty()
    } else if b[0] == 43 {
        seq![32u8] + decoded(b.skip(1))
    } else if b[0] == 37 && b.len() > 2 && hex_value(b[1]) is Some && hex_value(b[2]) is Some {
        seq![(16 * hex_value(b[1])->0 + hex_value(b[2])->0) as u8] + decoded(b.skip(3))
    } else {
        seq![b[0]] + decoded(b.skip(1))
    }
}

/// The bytes that a query value stands for.
pub fn decode(s: &str) -> (r: Vec<u8>)
    ensures
        r@ == decoded(encode_utf8(s@)),
{
    let b: &[u8] = s.as_bytes();
    let ghost all = b@;
    let n: usize = b.len();
    let mut out: Vec<u8> = Vec::new();
    let mut i: usize = 0;
    assert(all.skip(0) =~= all);
    assert(out@ + decoded(all.skip(0)) =~= decoded(all));
    while i < n
        invariant
            all == b@,
            n == b@.len(),
            i <= n,
            out@ + decoded(all.skip(i as int)) == decoded(all),
        decreases n - i,
    {
        let ghost rest = all.skip(i as int);
        let ghost before = out@;
        assert(rest[0] == b@[i as int]);
        assert(rest.skip(1) =~= all.skip(i as int + 1));
        if b[i] == 43 {
            out.push(32);
            i = i + 1;
            assert(out@ + decoded(all.skip(i as int)) =~= before + decoded(rest));
        } else if b[i] == 37 && n - i > 2 {
            assert(rest[1] == b@[i + 1]);
            assert(rest[2] == b@[i + 2]);
            assert(rest.skip(3) =~= all.skip(i as int + 3));
            match (hex_value_of(b[i + 1]), hex_value_of(b[i + 2])) {
                (Some(h), Some(l)) => {
                    out.push(16 * h + l);
                    i = i + 3;
                    assert(out@ + decoded(all.skip(i as int)) =~= before + decoded(rest));
                },
                _ => {
                    out.push(b[i]);
                    i = i + 1;
                    assert(out@ + decoded(all.skip(i as int)) =~= before + decoded(rest));
                },
            }
        } else {
            out.push(b[i]);
            i = i + 1;
            assert(out@ + decoded(all.skip(i as int)) =~= before + decoded(rest));
        }
    }
    assert(out@ =~= decoded(all)) by {
        assert(all.skip(n as int) =~= Seq::<u8>::empty());
    }
    out
}

/// What `String::from_utf8_lossy` gives.
pub uninterp spec fn lossy(b: Seq<u8>) -> Seq<char>;

/// `String::from_utf8_lossy`: valid UTF-8 becomes its text; in other bytes
/// each invalid piece becomes U+FFFD. Valid UTF-8 at the start becomes its
/// text whatever stands behind it, and what stands behind it is read on its
/// own.
#[verifier::external_body]
fn from_utf8_lossy(b: &Vec<u8>) -> (r: String)
    ensures
        r@ == lossy(b@),
        valid_utf8(b@) ==> r@ == decode_utf8(b@),
        (forall|x: Seq<u8>, y: Seq<u8>| b@ == #[trigger] (x + y) && valid_utf8(x) ==> r@ == decode_utf8(x) + lossy(y)),
{
    String::from_utf8_lossy(b).into_owned()
}

/// The text that a query value stands for.
pub open spec fn urldecoded(s: Seq<char>) -> Seq<char> {
    lossy(decoded(encode_utf8(s)))
}

/// Whether place `i` of an encoding holds a percent sign and the two digits of
/// `x`, in either letter case.
pub open spec fn escapes(p: Seq<u8>, i: int, x: u8) -> bool {
    &&& p[3 * i] == 37
    &&& hex_value(p[3 * i + 1]) == Some((x / 16) as u8)
    &&& hex_value(p[3 * i + 2]) == Some((x % 16) as u8)
}

/// Whether `p` is `b` in percent encoding, every byte of it.
pub open spec fn is_percent(p: Seq<u8>, b: Seq<u8>) -> bool {
    &&& p.len() == 3 * b.len()
    &&& forall|i: int| 0 <= i < b.len() ==> #[trigger] escapes(p, i, b[i])
}

/// A text with a blank for each plus.
pub open spec fn blanks(s: Seq<char>) -> Seq<char> {
    s.map_values(|c: char| if c == '+' { ' ' } else { c })
}

/// Whether a query value is read as `text`. Valid UTF-8 is read as such; a
/// value without a percent sign stands for itself, with a blank for each plus;
/// one in percent encoding for what was encoded; and what stands before the
/// first percent sign is read apart from what follows.
pub open spec fn reads_as(value: Seq<char>, text: Seq<char>) -> bool {
    let bytes = decoded(encode_utf8(value));
    &&& text == urldecoded(value)
    &&& valid_utf8(bytes) ==> text == decode_utf8(bytes)
    &&& !value.contains('%') ==> text == blanks(value)
    &&& !value.contains('+') && !value.contains('%') ==> text == value
    &&& forall|a: Seq<char>, b: Seq<char>|
        value == #[trigger] (a + b) && !a.contains('%') ==> text == blanks(a) + urldecoded(b)
    &&& forall|t: Seq<char>| #[trigger] is_percent(encode_utf8(value), encode_utf8(t)) ==> text == t
}

/// The text that a query value stands for.
pub fn urldecode(s: &str) -> (r: String)
    ensures
        r@ == urldecoded(s@),
        reads_as(s@, r@),
{
    let bytes = decode(s);
    let r = from_utf8_lossy(&bytes);
    proof {
        encode_utf8_valid_utf8(s@);
        encode_utf8_decode_utf8(s@);
        if !s@.contains('%') {
            lemma_no_percent(s@);
            encode_utf8_valid_utf8(blanks(s@));
            encode_utf8_decode_utf8(blanks(s@));
            if !s@.contains('+') {
                assert forall|i: int| 0 <= i < s@.len() implies s@[i] != '+' by {
                    assert(s@.contains(s@[i]));
                }
                assert(blanks(s@) =~= s@);
            }
        }
        assert forall|a: Seq<char>, b: Seq<char>|
            s@ == #[trigger] (a + b) && !a.contains('%') implies r@ == blanks(a) + urldecoded(b) by {
            law_a_start_without_percent_is_decoded_apart(a, b);
            encode_utf8_valid_utf8(blanks(a));
            encode_utf8_decode_utf8(blanks(a));
            assert(bytes@ == encode_utf8(blanks(a)) + decoded(encode_utf8(b)));
        }
        assert forall|t: Seq<char>| #[trigger] is_percent(encode_utf8(s@), encode_utf8(t)) implies r@ == t by {
            law_percent_encoding_reads_back(encode_utf8(s@), encode_utf8(t));
            encode_utf8_valid_utf8(t);
            encode_utf8_decode_utf8(t);
        }
    }
    r
}

/// Bytes among which no plus and no percent sign stands are decoded to
/// themselves.
pub proof fn law_plain_bytes_stand_for_themselves(b: Seq<u8>)
    requires
        !b.contains(43u8),
        !b.contains(37u8),
    ensures
        decoded(b) == b,
    decreases b.len(),
{
    if b.len() > 0 {
        assert(b.contains(b[0]));
        assert forall|x: u8| b.skip(1).contains(x) implies b.contains(x) by {
            let k = choose|k: int| 0 <= k < b.skip(1).len() && b.skip(1)[k] == x;
            assert(b[k + 1] == x);
        }
        law_plain_bytes_stand_for_themselves(b.skip(1));
        assert(seq![b[0]] + b.skip(1) =~= b);
    }
}

/// Decoding what was percent-encoded gives the bytes back.
pub proof fn law_percent_encoding_reads_back(p: Seq<u8>, b: Seq<u8>)
    requires
        is_percent(p, b),
    ensures
        decoded(p) == b,
    decreases b.len(),
{
    if b.len() > 0 {
        let q = p.skip(3);
        let c = b.skip(1);
        assert(b[0] / 16 <= 15 && 16 * (b[0] / 16) + b[0] % 16 == b[0]);
        assert(escapes(p, 0, b[0]));
        assert forall|i: int| 0 <= i < c.len() implies #[trigger] escapes(q, i, c[i]) by {
            assert(escapes(p, i + 1, b[i + 1]));
        }
        law_percent_encoding_reads_back(q, c);
        assert(seq![b[0]] + c =~= b);
    }
}

proof fn lemma_scalar_bytes(c: char)
    ensures
        forall|i: int|
            0 <= i < vstd::utf8::encode_scalar(c as u32).len() ==> (#[trigger] vstd::utf8::encode_scalar(c as u32)[i]) >= 128
                || vstd::utf8::encode_scalar(c as u32)[i] == c as u32,
        c as u32 <= 0x7f ==> vstd::utf8::encode_scalar(c as u32).len() == 1 && vstd::utf8::encode_scalar(c as u32)[0] == c as u32,
{
    let v: u32 = c as u32;
    vstd::utf8::char_is_scalar(c);
    if vstd::utf8::has_width_1_encoding(v) {
        assert(vstd::utf8::leading_byte_width_1(v) == v) by (bit_vector)
            requires
                v <= 0x7f,
        ;
    } else {
        assert(0xC0u8 | ((v >> 6) & 0x1F) as u8 >= 128) by (bit_vector);
        assert(0xE0u8 | ((v >> 12) & 0x0F) as u8 >= 128) by (bit_vector);
        assert(0xF0u8 | ((v >> 18) & 0x7) as u8 >= 128) by (bit_vector);
        assert(0x80u8 | (v & 0x3F) as u8 >= 128) by (bit_vector);
        assert(0x80u8 | ((v >> 6) & 0x3F) as u8 >= 128) by (bit_vector);
        assert(0x80u8 | ((v >> 12) & 0x3F) as u8 >= 128) by (bit_vector);
    }
}

proof fn lemma_decoded_start(x: Seq<u8>, y: Seq<u8>)
    requires
        !x.contains(37u8),
    ensures
        decoded(x + y) == decoded(x) + decoded(y),
    decreases x.len(),
{
    if x.len() == 0 {
        assert(x + y =~= y);
        assert(decoded(x) + decoded(y) =~= decoded(y));
    } else {
        assert(x.contains(x[0]));
        assert forall|c: u8| x.skip(1).contains(c) implies x.contains(c) by {
            let k = choose|k: int| 0 <= k < x.skip(1).len() && x.skip(1)[k] == c;
            assert(x[k + 1] == c);
        }
        lemma_decoded_start(x.skip(1), y);
        assert((x + y).skip(1) =~= x.skip(1) + y);
        let first: u8 = if x[0] == 43 { 32 } else { x[0] };
        assert(seq![first] + (decoded(x.skip(1)) + decoded(y)) =~= (seq![first] + decoded(x.skip(1))) + decoded(y));
    }
}

proof fn lemma_encode_joined(a: Seq<char>, b: Seq<char>)
    ensures
        encode_utf8(a + b) == encode_utf8(a) + encode_utf8(b),
    decreases a.len(),
{
    if a.len() == 0 {
        assert(a + b =~= b);
        assert(encode_utf8(a) + encode_utf8(b) =~= encode_utf8(b));
    } else {
        lemma_encode_joined(a.drop_first(), b);
        assert((a + b).drop_first() =~= a.drop_first() + b);
        let head = vstd::utf8::encode_scalar(a[0] as u32);
        assert(head + (encode_utf8(a.drop_first()) + encode_utf8(b)) =~= (head + encode_utf8(a.drop_first())) + encode_utf8(b));
    }
}

/// The bytes of one character other than the percent sign: a blank for a plus,
/// else itself.
proof fn lemma_decoded_char(c: char)
    requires
        c != '%',
    ensures
        !vstd::utf8::encode_scalar(c as u32).contains(37u8),
        decoded(vstd::utf8::encode_scalar(c as u32)) == vstd::utf8::encode_scalar(
            (if c == '+' {
                ' '
            } else {
                c
            }) as u32,
        ),
{
    let head = vstd::utf8::encode_scalar(c as u32);
    lemma_scalar_bytes(c);
    vstd::utf8::char_u32_cast(c, c as u32);
    vstd::utf8::char_u32_cast('+', '+' as u32);
    vstd::utf8::char_u32_cast('%', '%' as u32);
    assert('+' as u32 == 43 && '%' as u32 == 37 && ' ' as u32 == 32);
    assert(!head.contains(37u8)) by {
        if head.contains(37u8) {
            let k = choose|k: int| 0 <= k < head.len() && head[k] == 37;
            assert(head[k] >= 128 || head[k] == c as u32);
        }
    }
    if c == '+' {
        lemma_scalar_bytes(' ');
        let blank = vstd::utf8::encode_scalar(' ' as u32);
        assert(head.len() == 1 && blank.len() == 1);
        assert(head[0] == 43 && blank[0] == 32);
        assert(head.skip(1) =~= Seq::<u8>::empty());
        assert(decoded(head.skip(1)) =~= Seq::<u8>::empty());
        assert(decoded(head) =~= seq![32u8]);
        assert(blank =~= seq![32u8]);
    } else {
        assert(!head.contains(43u8)) by {
            if head.contains(43u8) {
                let k = choose|k: int| 0 <= k < head.len() && head[k] == 43;
                assert(head[k] >= 128 || head[k] == c as u32);
            }
        }
        law_plain_bytes_stand_for_themselves(head);
    }
}

proof fn lemma_no_percent(s: Seq<char>)
    requires
        !s.contains('%'),
    ensures
        !encode_utf8(s).contains(37u8),
        decoded(encode_utf8(s)) == encode_utf8(blanks(s)),
    decreases s.len(),
{
    if s.len() == 0 {
        assert(blanks(s) =~= s);
    } else {
        let t = s.drop_first();
        assert(s.contains(s[0]));
        assert forall|x: char| t.contains(x) implies s.contains(x) by {
            let k = choose|k: int| 0 <= k < t.len() && t[k] == x;
            assert(s[k + 1] == x);
        }
        lemma_no_percent(t);
        lemma_decoded_char(s[0]);
        let head = vstd::utf8::encode_scalar(s[0] as u32);
        let tail = encode_utf8(t);
        assert(encode_utf8(s) == head + tail);
        lemma_decoded_start(head, tail);
        assert(blanks(s).drop_first() =~= blanks(t));
        assert(!encode_utf8(s).contains(37u8)) by {
            if (head + tail).contains(37u8) {
                let k = choose|k: int| 0 <= k < (head + tail).len() && (head + tail)[k] == 37;
                if k < head.len() {
                    assert(head.contains(head[k]));
                } else {
                    assert(tail.contains(tail[k - head.len()]));
                }
            }
        }
    }
}

/// What stands before a percent sign is decoded apart from what follows: to
/// itself, with a blank for each plus.
pub proof fn law_a_start_without_percent_is_decoded_apart(a: Seq<char>, b: Seq<char>)
    requires
        !a.contains('%'),
    ensures
        decoded(encode_utf8(a + b)) == encode_utf8(blanks(a)) + decoded(encode_utf8(b)),
{
    lemma_encode_joined(a, b);
    lemma_no_percent(a);
    lemma_decoded_start(encode_utf8(a), encode_utf8(b));
}

// ---- HTML -----------------------------------------------------------

/// A character as it stands in HTML text.
pub open spec fn html(c: char) -> Seq<char> {
    if c == '&' {
        "&amp;"@
    } else if c == '<' {
        "&lt;"@
    } else if c == '>' {
        "&gt;"@
    } else {
        seq![c]
    }
}

/// A text as it stands in HTML.
pub open spec fn escaped(s: Seq<char>) -> Seq<char>
    decreases s.len(),
{
    if s.len() == 0 {
        Seq::empty()
    } else {
        escaped(s.drop_last()) + html(s.last())
    }
}

pub fn html_escape(s: &str) -> (r: String)
    ensures
        r@ == escaped(s@),
{
    let v = crate::text::chars_of(s);
    let mut out = String::new();
    let mut i: usize = 0;
    assert(s@.take(0) =~= Seq::<char>::empty());
    while i < v.len()
        invariant
            v@ == s@,
            i <= v@.len(),
            out@ == escaped(s@.take(i as int)),
        decreases v.len() - i,
    {
        let c = v[i];
        assert(s@.take(i as int + 1).drop_last() =~= s@.take(i as int));
        if c == '&' {
            out.append("&amp;");
        } else if c == '<' {
            out.append("&lt;");
        } else if c == '>' {
            out.append("&gt;");
        } else {
            out.push(c);
        }
        i = i + 1;
        assert(out@ =~= escaped(s@.take(i as int)));
    }
    assert(s@.take(s@.len() as int) =~= s@);
    out
}

/// Escaped text opens and closes no tag.
pub proof fn law_escaped_text_has_no_tags(s: Seq<char>)
    ensures
        !escaped(s).contains('<'),
        !escaped(s).contains('>'),
    decreases s.len(),
{
    if s.len() > 0 {
        let head = escaped(s.drop_last());
        let tail = html(s.last());
        law_escaped_text_has_no_tags(s.drop_last());
        reveal_strlit("&amp;");
        reveal_strlit("&lt;");
        reveal_strlit("&gt;");
        assert forall|i: int| 0 <= i < escaped(s).len() implies (#[trigger] escaped(s)[i]) != '<' && escaped(s)[i] != '>' by {
            if i < head.len() {
                assert(escaped(s)[i] == head[i]);
                assert(head.contains(head[i]));
            } else {
                assert(escaped(s)[i] == tail[i - head.len()]);
            }
        }
    }
}

// ---- The redirect ---------------------------------------------------

/// What the redirect carried.
#[derive(Debug)]
pub struct Callback {
    pub code: Option<String>,
    pub error: Option<String>,
}

/// The value of the last `key=…` among the parts of a query, as it stands
/// there.
pub open spec fn last_value(parts: Seq<Seq<char>>, key: Seq<char>) -> Option<Seq<char>>
    decreases parts.len(),
{
    if parts.len() == 0 {
        None
    } else if before_first(parts.last(), '=') == key {
        Some(after_first(parts.last(), '='))
    } else {
        last_value(parts.drop_last(), key)
    }
}

/// Whether `text` is what a query says for a key: the last value it gives,
/// decoded.
pub open spec fn says(parts: Seq<Seq<char>>, key: Seq<char>, text: Option<String>) -> bool {
    match (last_value(parts, key), text) {
        (Some(v), Some(t)) => reads_as(v, t@),
        (None, None) => true,
        _ => false,
    }
}

/// The query of a request line such as `GET /callback?code=…&state=… HTTP/1.1`,
/// in its parts.
pub open spec fn query_parts(line: Seq<char>) -> Seq<Seq<char>> {
    split(after_first(words(line)[1], '?'), '&')
}

/// What `format!("{:?}", …)` gives for a string.
pub uninterp spec fn debugged(s: Seq<char>) -> Seq<char>;

/// `str`'s `Debug`: the text in quotes, with escapes. The result depends on
/// the text alone.
#[verifier::external_body]
fn debug(s: &str) -> (r: String)
    ensures
        r@ == debugged(s@),
{
    format!("{:?}", s)
}

/// Reads the redirect out of the request line.
pub fn parse_callback(line: &str) -> (r: Result<Callback, String>)
    ensures
        match r {
            Ok(c) => {
                &&& words(line@).len() > 1
                &&& says(query_parts(line@), "code"@, c.code)
                &&& says(query_parts(line@), "error"@, c.error)
            },
            Err(m) => words(line@).len() <= 1 && m@ == "malformed request line: "@ + debugged(line@),
        },
{
    let w = words_of(line);
    if w.len() <= 1 {
        return Err(concat("malformed request line: ", &debug(line)));
    }
    assert(words(line@)[1] == w@[1]@);
    let query = cut(&w[1], '?').1;
    let parts = split_on(&query, '&');
    let ghost all = query_parts(line@);
    let mut code: Option<String> = None;
    let mut error: Option<String> = None;
    let mut i: usize = 0;
    proof {
        reveal_strlit("code");
        reveal_strlit("error");
        assert("code"@.len() != "error"@.len());
    }
    while i < parts.len()
        invariant
            texts(parts@) == all,
            i <= parts@.len(),
            says(all.take(i as int), "code"@, code),
            says(all.take(i as int), "error"@, error),
            "code"@ != "error"@,
        decreases parts.len() - i,
    {
        assert(all.take(i as int + 1).drop_last() =~= all.take(i as int));
        assert(all.take(i as int + 1).last() == parts@[i as int]@);
        let (k, v) = cut(&parts[i], '=');
        if *k.as_str() == *"code" {
            code = Some(urldecode(&v));
        } else if *k.as_str() == *"error" {
            error = Some(urldecode(&v));
        }
        i = i + 1;
    }
    assert(all.take(all.len() as int) =~= all);
    Ok(Callback { code, error })
}

pub open spec fn failure_head() -> Seq<char> {
    "<html><body style='font-family:sans-serif;max-width:32em;margin:4em auto;color:#c33'><h2>Authorization failed</h2><p>Spotify returned: <code>"@
}

pub open spec fn failure_tail() -> Seq<char> {
    "</code></p><p>You can close this tab and re-run <code>tune</code>.</p></body></html>"@
}

pub open spec fn success_page() -> Seq<char> {
    "<html><body style='font-family:sans-serif;max-width:32em;margin:4em auto;color:#080'><h2>tune is authorized</h2><p>You can close this tab and return to the terminal.</p></body></html>"@
}

/// The page that the browser shows after the redirect.
pub open spec fn page(error: Option<Seq<char>>) -> Seq<char> {
    match error {
        Some(e) => failure_head() + escaped(e) + failure_tail(),
        None => success_page(),
    }
}

/// A page as an HTTP response; the length counts bytes.
pub open spec fn http(body: Seq<char>) -> Seq<char> {
    "HTTP/1.1 200 OK\r\nContent-Type: text/html; charset=utf-8\r\nContent-Length: "@ + decimal(
        encode_utf8(body).len(),
    ) + "\r\nConnection: close\r\n\r\n"@ + body
}

impl Callback {
    /// What goes back to the browser.
    pub fn response(&self) -> (r: String)
        ensures
            r@ == http(page(opt_text(self.error))),
    {
        let body = match &self.error {
            Some(e) => {
                let mut b = "<html><body style='font-family:sans-serif;max-width:32em;margin:4em auto;color:#c33'><h2>Authorization failed</h2><p>Spotify returned: <code>".to_owned();
                b.append(&html_escape(e));
                b.append("</code></p><p>You can close this tab and re-run <code>tune</code>.</p></body></html>");
                b
            },
            None => "<html><body style='font-family:sans-serif;max-width:32em;margin:4em auto;color:#080'><h2>tune is authorized</h2><p>You can close this tab and return to the terminal.</p></body></html>".to_owned(),
        };
        let mut r = "HTTP/1.1 200 OK\r\nContent-Type: text/html; charset=utf-8\r\nContent-Length: ".to_owned();
        let n: usize = body.as_str().as_bytes().len();
        r.append(&decimal_of(n as u64));
        r.append("\r\nConnection: close\r\n\r\n");
        r.append(&body);
        r
    }

    /// What the sign-in came to: an error stands before a code.
    pub fn finish(self) -> (r: Result<String, String>)
        ensures
            match (self.error, self.code) {
                (Some(e), _) => r matches Err(m) && m@ == "spotify: "@ + e@,
                (None, Some(c)) => r == Ok::<String, String>(c),
                (None, None) => r matches Err(m) && m@ == "no `code` in callback query"@,
            },
    {
        if let Some(e) = self.error {
            return Err(concat("spotify: ", &e));
        }
        match self.code {
            Some(c) => Ok(c),
            None => Err("no `code` in callback query".to_owned()),
        }
    }
}

// ---- Laws of the sign-in --------------------------------------------

/// A token is enough exactly where it was granted each of these scopes.
pub proof fn law_what_a_token_has_to_cover(granted: Seq<Seq<char>>)
    ensures
        covers(granted) <==> granted.contains("user-read-playback-state"@) && granted.contains(
            "user-modify-playback-state"@,
        ) && granted.contains("user-read-currently-playing"@) && granted.contains("user-read-private"@) && granted.contains(
            "user-library-read"@,
        ) && granted.contains("playlist-read-private"@) && granted.contains("playlist-read-collaborative"@)
            && granted.contains("streaming"@),
        scopes().len() == 8,
{
    let s = scopes();
    assert(s[0] == "user-read-playback-state"@ && s[1] == "user-modify-playback-state"@ && s[2]
        == "user-read-currently-playing"@ && s[3] == "user-read-private"@ && s[4] == "user-library-read"@ && s[5]
        == "playlist-read-private"@ && s[6] == "playlist-read-collaborative"@ && s[7] == "streaming"@);
}

/// A refresh token is dead exactly where the message says so: by name, or by
/// one of two statuses that stands by itself.
pub proof fn law_what_a_dead_token_says(m: Seq<char>)
    ensures
        holds(m, "invalid_grant"@) || holds(m, "invalid grant"@) || holds(m, "unauthorized"@) ==> says_dead(m),
        holds_bare(m, "400"@) || holds_bare(m, "401"@) ==> says_dead(m),
        !holds(m, "invalid_grant"@) && !holds(m, "invalid grant"@) && !holds(m, "unauthorized"@) && !holds_bare(m, "400"@)
            && !holds_bare(m, "401"@) ==> !says_dead(m),
{
}

/// A hexadecimal digit tells its value in either letter case, and nothing else
/// is one.
pub proof fn law_hexadecimal_digits(b: u8)
    ensures
        48 <= b <= 57 ==> hex_value(b) is Some && hex_value(b)->0 == b - 48,
        97 <= b <= 102 ==> hex_value(b) is Some && hex_value(b)->0 == b - 97 + 10,
        65 <= b <= 70 ==> hex_value(b) is Some && hex_value(b)->0 == b - 65 + 10,
        b < 48 || 57 < b < 65 || 70 < b < 97 || 102 < b ==> hex_value(b) is None,
{
}

/// Bytes are decoded from the front: a plus is a blank, a percent sign with two
/// digits is the byte that they give, and one without stays.
pub proof fn law_decoding_from_the_front(b: Seq<u8>, h: u8, l: u8, x: u8)
    ensures
        decoded(Seq::empty()) == Seq::<u8>::empty(),
        decoded(seq!['+' as u8] + b) == seq![' ' as u8] + decoded(b),
        hex_value(h) is Some && hex_value(l) is Some ==> decoded(seq!['%' as u8, h, l] + b) == seq![
            (16 * hex_value(h)->0 + hex_value(l)->0) as u8,
        ] + decoded(b),
        hex_value(h) is None || hex_value(l) is None ==> decoded(seq!['%' as u8, h, l] + b) == seq!['%' as u8] + decoded(
            seq![h, l] + b,
        ),
        x != '+' as u8 && x != '%' as u8 ==> decoded(seq![x] + b) == seq![x] + decoded(b),
        decoded(seq!['%' as u8]) == seq!['%' as u8],
        b.len() < 2 ==> decoded(seq!['%' as u8] + b) == seq!['%' as u8] + decoded(b),
{
    assert('+' as u8 == 43 && '%' as u8 == 37 && ' ' as u8 == 32);
    assert((seq![43u8] + b).skip(1) =~= b);
    assert((seq![37u8, h, l] + b).skip(3) =~= b);
    assert((seq![37u8, h, l] + b).skip(1) =~= seq![h, l] + b);
    assert((seq![x] + b).skip(1) =~= b);
    assert(seq![37u8].skip(1) =~= Seq::<u8>::empty());
    assert(decoded(Seq::<u8>::empty()) == Seq::<u8>::empty());
    assert(decoded(seq![37u8]) == seq![37u8] + decoded(seq![37u8].skip(1)));
    assert(decoded(seq![37u8]) =~= seq![37u8]);
    assert((seq![37u8] + b).skip(1) =~= b);
}

/// A value is read from the bytes that it stands for.
pub proof fn law_values_are_read_from_their_bytes(s: Seq<char>, i: int)
    ensures
        urldecoded(s) == lossy(decoded(encode_utf8(s))),
        blanks(s).len() == s.len(),
        0 <= i < s.len() && s[i] == '+' ==> blanks(s)[i] == ' ',
        0 <= i < s.len() && s[i] != '+' ==> blanks(s)[i] == s[i],
{
}

/// What is read of a value is the text that its bytes give.
pub proof fn law_what_a_value_reads_as(value: Seq<char>, text: Seq<char>)
    requires
        reads_as(value, text),
    ensures
        text == lossy(decoded(encode_utf8(value))),
        valid_utf8(decoded(encode_utf8(value))) ==> text == decode_utf8(decoded(encode_utf8(value))),
{
}

/// In HTML a text is written character by character; `&`, `<` and `>` have
/// names, and all else stands for itself.
pub proof fn law_escaped_of_both(a: Seq<char>, b: Seq<char>)
    ensures
        escaped(a + b) == escaped(a) + escaped(b),
        escaped(Seq::empty()) == Seq::<char>::empty(),
        b == seq!['&'] ==> escaped(b) == "&amp;"@,
        b == seq!['<'] ==> escaped(b) == "&lt;"@,
        b == seq!['>'] ==> escaped(b) == "&gt;"@,
        b.len() == 1 && b[0] != '&' && b[0] != '<' && b[0] != '>' ==> escaped(b) == b,
    decreases b.len(),
{
    if b.len() == 0 {
        assert(a + b =~= a);
        assert(escaped(a) + escaped(b) =~= escaped(a));
    } else {
        law_escaped_of_both(a, b.drop_last());
        assert((a + b).drop_last() =~= a + b.drop_last());
        assert((a + b).last() == b.last());
        assert(escaped(a) + (escaped(b.drop_last()) + html(b.last())) =~= (escaped(a) + escaped(b.drop_last())) + html(
            b.last(),
        ));
        if b.len() == 1 {
            assert(b.drop_last() =~= Seq::<char>::empty());
            assert(escaped(b) =~= html(b[0]));
            if b[0] != '&' && b[0] != '<' && b[0] != '>' {
                assert(escaped(b) =~= b);
            }
        }
    }
}

/// Of several values of one name the last counts, which is empty without an
/// equals sign, and there is none exactly where no part has that name.
pub proof fn law_the_last_value_counts(
    before: Seq<Seq<char>>,
    key: Seq<char>,
    value: Seq<char>,
    after: Seq<Seq<char>>,
)
    requires
        !key.contains('='),
        forall|i: int| 0 <= i < after.len() ==> before_first(#[trigger] after[i], '=') != key,
    ensures
        last_value(before + seq![key + seq!['='] + value] + after, key) == Some(value),
        last_value(before + seq![key] + after, key) == Some(Seq::<char>::empty()),
        last_value(after, key) is None,
    decreases after.len(),
{
    let part = key + seq!['='] + value;
    let all = before + seq![part] + after;
    let bare = before + seq![key] + after;
    law_cut_at_the_first(key, '=', value);
    if after.len() > 0 {
        let t = after.drop_last();
        assert forall|i: int| 0 <= i < t.len() implies before_first(#[trigger] t[i], '=') != key by {
            assert(t[i] == after[i]);
        }
        law_the_last_value_counts(before, key, value, t);
        assert(all.drop_last() =~= before + seq![part] + t);
        assert(bare.drop_last() =~= before + seq![key] + t);
        assert(bare.last() == after[after.len() - 1]);
        assert(all.last() == after[after.len() - 1]);
        assert(after.last() == after[after.len() - 1]);
    } else {
        assert(all.last() == part);
        assert(bare.last() == key);
    }
}

/// The parts of a redirect are what stands between ampersands, behind the
/// question mark of the second word.
pub proof fn law_the_parts_of_a_redirect(line: Seq<char>, path: Seq<char>, query: Seq<char>)
    requires
        words(line).len() > 1,
        words(line)[1] == path + seq!['?'] + query,
        !path.contains('?'),
    ensures
        query_parts(line) == split(query, '&'),
        join(query_parts(line), seq!['&']) == query,
{
    law_cut_at_the_first(path, '?', query);
    law_split_then_join(query, '&');
}

/// Without a question mark there is nothing but one empty part.
pub proof fn law_a_redirect_without_a_query(line: Seq<char>)
    requires
        words(line).len() > 1,
        !words(line)[1].contains('?'),
    ensures
        query_parts(line) == seq![Seq::<char>::empty()],
{
    law_cut_at_the_first(words(line)[1], '?', Seq::empty());
}

/// What is taken for a value of the redirect is what its last part of that name
/// reads as, and none where there is no such part.
pub proof fn law_what_a_redirect_says(parts: Seq<Seq<char>>, key: Seq<char>, text: Option<String>)
    requires
        says(parts, key, text),
    ensures
        text is Some <==> last_value(parts, key) is Some,
        text is Some ==> reads_as(last_value(parts, key)->0, (text->0)@),
{
}

/// The page that the browser gets tells a failure by Spotify's own word, safe
/// to show; and its length is that of its bytes.
pub proof fn law_what_the_browser_gets(error: Seq<char>, body: Seq<char>)
    ensures
        page(Some(error)) == failure_head() + escaped(error) + failure_tail(),
        page(None) == success_page(),
        http(body) == "HTTP/1.1 200 OK\r\nContent-Type: text/html; charset=utf-8\r\nContent-Length: "@ + decimal(
            encode_utf8(body).len(),
        ) + "\r\nConnection: close\r\n\r\n"@ + body,
{
}

}
