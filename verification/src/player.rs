//! tune as a Spotify Connect device of its own.

use std::collections::hash_map::DefaultHasher;
use std::hash::Hasher;

use vstd::prelude::*;
use vstd::std_specs::hash::DefaultHasherAdditionalSpecFns;
use vstd::utf8::encode_utf8;
use crate::text::{concat, hex, hex_digit, hex_of, lemma_hex};

verus! {

/// Whether tune plays on this computer.
#[derive(Debug)]
pub enum LocalPlay {
    /// The settings do not want it.
    Off,
    /// There is no access token to sign in with.
    NoToken,
    /// It signs in with this access token.
    SignIn(String),
}

/// Whether tune plays on this computer: where the settings want it and there
/// is an access token.
pub fn local_play(wanted: bool, token: Option<String>) -> (r: LocalPlay)
    ensures
        r == (if !wanted {
            LocalPlay::Off
        } else {
            match token {
                Some(t) => if t@.len() > 0 {
                    LocalPlay::SignIn(t)
                } else {
                    LocalPlay::NoToken
                },
                None => LocalPlay::NoToken,
            }
        }),
{
    if !wanted {
        return LocalPlay::Off;
    }
    match token {
        Some(t) => if t.as_str().is_empty() {
            LocalPlay::NoToken
        } else {
            LocalPlay::SignIn(t)
        },
        None => LocalPlay::NoToken,
    }
}

/// The `k` low bytes of a number, the lowest first.
pub open spec fn le_bytes(n: nat, k: nat) -> Seq<u8>
    decreases k,
{
    if k == 0 {
        Seq::empty()
    } else {
        seq![(n % 256) as u8] + le_bytes(n / 256, (k - 1) as nat)
    }
}

/// The bytes of a number in memory, on a machine of either byte order.
pub open spec fn memory(n: u64, little: bool) -> Seq<u8> {
    if little {
        le_bytes(n as nat, 8)
    } else {
        le_bytes(n as nat, 8).reverse()
    }
}

/// `u64::to_ne_bytes`: the bytes of a number in the byte order of the machine
/// that runs the program, which may be either.
#[verifier::external_body]
fn native_bytes(n: u64) -> (r: Vec<u8>)
    ensures
        r@ == memory(n, true) || r@ == memory(n, false),
{
    n.to_ne_bytes().to_vec()
}

/// The hash of a device's name.
pub open spec fn name_hash(name: Seq<char>) -> u64 {
    DefaultHasher::spec_finish(
        seq![encode_utf8(name), seq![0xffu8], encode_utf8("tune"@), seq![0xffu8]],
    )
}

/// The hash of a hash, on a machine of either byte order.
pub open spec fn second_hash(a: u64, little: bool) -> u64 {
    DefaultHasher::spec_finish(seq![memory(a, little), encode_utf8("tune2"@), seq![0xffu8]])
}

/// Two hashes as one id.
pub open spec fn id_of(a: u64, b: u64) -> Seq<char> {
    hex(a as nat, 16) + hex(b as nat, 16)
}

/// The id of a device's name, on a machine of either byte order.
pub open spec fn device_id(name: Seq<char>, little: bool) -> Seq<char> {
    id_of(name_hash(name), second_hash(name_hash(name), little))
}

/// Two hashes as one id: 32 hexadecimal digits.
pub fn hashes_to_id(a: u64, b: u64) -> (r: String)
    ensures
        r@ == id_of(a, b),
{
    concat(&hex_of(a, 16), &hex_of(b, 16))
}

fn write_text(h: &mut DefaultHasher, s: &str)
    ensures
        final(h)@ == old(h)@.push(encode_utf8(s@)).push(seq![0xffu8]),
{
    h.write(s.as_bytes());
    let mut end: Vec<u8> = Vec::new();
    end.push(0xff);
    assert(end@ =~= seq![0xffu8]);
    h.write(end.as_slice());
}

/// The hash of a device's name.
pub fn hash_of_name(name: &str) -> (r: u64)
    ensures
        r == name_hash(name@),
{
    let mut h = DefaultHasher::new();
    write_text(&mut h, name);
    write_text(&mut h, "tune");
    assert(h@ =~= seq![encode_utf8(name@), seq![0xffu8], encode_utf8("tune"@), seq![0xffu8]]);
    h.finish()
}

/// The id of a hash `a`, which the machine keeps in memory as `bytes`.
pub fn id_with_bytes(a: u64, bytes: &Vec<u8>) -> (r: String)
    ensures
        r@ == id_of(a, DefaultHasher::spec_finish(seq![bytes@, encode_utf8("tune2"@), seq![0xffu8]])),
{
    let mut h = DefaultHasher::new();
    h.write(bytes.as_slice());
    write_text(&mut h, "tune2");
    assert(h@ =~= seq![bytes@, encode_utf8("tune2"@), seq![0xffu8]]);
    hashes_to_id(a, h.finish())
}

/// The bytes of a number, in the byte order given.
pub fn bytes_in_order(n: u64, little: bool) -> (r: Vec<u8>)
    ensures
        r@ == memory(n, little),
{
    let mut r: Vec<u8> = Vec::new();
    let mut rest: u64 = n;
    let mut i: usize = 0;
    assert(r@ + le_bytes(n as nat, 8) =~= le_bytes(n as nat, 8));
    while i < 8
        invariant
            i <= 8,
            r@.len() == i,
            r@ + le_bytes(rest as nat, (8 - i) as nat) == le_bytes(n as nat, 8),
        decreases 8 - i,
    {
        let ghost before = r@;
        let low: u8 = (rest % 256) as u8;
        r.push(low);
        assert(before + (seq![low] + le_bytes((rest / 256) as nat, (8 - i - 1) as nat)) =~= r@ + le_bytes(
            (rest / 256) as nat,
            (8 - i - 1) as nat,
        ));
        rest = rest / 256;
        i = i + 1;
    }
    assert(r@ =~= le_bytes(n as nat, 8));
    if !little {
        let mut back: Vec<u8> = Vec::new();
        let mut k: usize = 0;
        while k < 8
            invariant
                k <= 8,
                r@.len() == 8,
                back@ == r@.reverse().take(k as int),
            decreases 8 - k,
        {
            back.push(r[7 - k]);
            k = k + 1;
            assert(back@ =~= r@.reverse().take(k as int));
        }
        assert(back@ =~= r@.reverse());
        return back;
    }
    r
}

/// The id of a device's name, in the byte order given. In one byte order a
/// name has one id, in every run: neither time nor chance goes into it.
pub fn device_id_in_order(name: &str, little: bool) -> (r: String)
    ensures
        r@ == device_id(name@, little),
{
    let a = hash_of_name(name);
    id_with_bytes(a, &bytes_in_order(a, little))
}

/// Stable device id per device name. Spotify treats this as the permanent
/// identity of the device; a hash of the name means that quitting and
/// launching tune again does not litter the account with fresh devices. Which
/// of the two ids it is rests on the machine's byte order alone.
pub fn device_id_for_name(name: &str) -> (r: String)
    ensures
        r@ == device_id(name@, true) || r@ == device_id(name@, false),
{
    let a = hash_of_name(name);
    id_with_bytes(a, &native_bytes(a))
}

/// An id is 32 hexadecimal digits, whatever the name.
pub proof fn law_id_is_32_hex_digits(name: Seq<char>, little: bool)
    ensures
        device_id(name, little).len() == 32,
        forall|i: int|
            0 <= i < 32 ==> ('0' <= (#[trigger] device_id(name, little)[i]) && device_id(name, little)[i] <= '9') || ('a'
                <= device_id(name, little)[i] && device_id(name, little)[i] <= 'f'),
{
    let a = name_hash(name);
    let b = second_hash(a, little);
    lemma_hex(a as nat, 16);
    lemma_hex(b as nat, 16);
    assert forall|i: int| 0 <= i < 32 implies ('0' <= (#[trigger] device_id(name, little)[i]) && device_id(name, little)[i] <= '9')
        || ('a' <= device_id(name, little)[i] && device_id(name, little)[i] <= 'f') by {
        if i < 16 {
            assert(device_id(name, little)[i] == hex(a as nat, 16)[i]);
        } else {
            assert(device_id(name, little)[i] == hex(b as nat, 16)[i - 16]);
        }
    }
}

/// Different pairs of hashes give different ids.
pub proof fn law_ids_tell_hashes_apart(a: u64, b: u64, c: u64, d: u64)
    requires
        id_of(a, b) == id_of(c, d),
    ensures
        a == c,
        b == d,
{
    lemma_hex(a as nat, 16);
    lemma_hex(b as nat, 16);
    lemma_hex(c as nat, 16);
    lemma_hex(d as nat, 16);
    assert(hex(a as nat, 16) =~= id_of(a, b).take(16));
    assert(hex(c as nat, 16) =~= id_of(c, d).take(16));
    assert(hex(b as nat, 16) =~= id_of(a, b).skip(16));
    assert(hex(d as nat, 16) =~= id_of(c, d).skip(16));
    assert(vstd::arithmetic::power::pow(16, 16) == 0x1_0000_0000_0000_0000) by {
        reveal_with_fuel(vstd::arithmetic::power::pow, 17);
    }
    lemma_hex_injective(a as nat, c as nat, 16);
    lemma_hex_injective(b as nat, d as nat, 16);
}

proof fn lemma_hex_injective(m: nat, n: nat, k: nat)
    requires
        hex(m, k) == hex(n, k),
        m < vstd::arithmetic::power::pow(16, k),
        n < vstd::arithmetic::power::pow(16, k),
    ensures
        m == n,
    decreases k,
{
    if k == 0 {
        vstd::arithmetic::power::lemma_pow0(16);
    } else {
        let a = hex(m / 16, (k - 1) as nat);
        let b = hex(n / 16, (k - 1) as nat);
        assert(hex(m, k).drop_last() =~= a);
        assert(hex(n, k).drop_last() =~= b);
        assert(hex(m, k).last() == hex_digit(m % 16));
        assert(hex(n, k).last() == hex_digit(n % 16));
        assert(hex_digit(m % 16) as int == (if m % 16 < 10 { 48 + m % 16 } else { 87 + m % 16 }));
        assert(hex_digit(n % 16) as int == (if n % 16 < 10 { 48 + n % 16 } else { 87 + n % 16 }));
        reveal(vstd::arithmetic::power::pow);
        lemma_hex_injective(m / 16, n / 16, (k - 1) as nat);
        assert(m % 16 == n % 16);
    }
}

// ---- Laws of the id -------------------------------------------------

/// The number that bytes stand for, the lowest first.
pub open spec fn value_of_bytes(b: Seq<u8>) -> nat
    decreases b.len(),
{
    if b.len() == 0 {
        0
    } else {
        b[0] as nat + 256 * value_of_bytes(b.drop_first())
    }
}

proof fn lemma_bytes_value(n: nat, k: nat)
    ensures
        le_bytes(n, k).len() == k,
        n < vstd::arithmetic::power::pow(256, k) ==> value_of_bytes(le_bytes(n, k)) == n,
    decreases k,
{
    if k == 0 {
        vstd::arithmetic::power::lemma_pow0(256);
    } else {
        lemma_bytes_value(n / 256, (k - 1) as nat);
        assert(le_bytes(n, k).drop_first() =~= le_bytes(n / 256, (k - 1) as nat));
        reveal(vstd::arithmetic::power::pow);
        assert(le_bytes(n, k)[0] == n % 256);
    }
}

/// The bytes of a number stand for it, the lowest first in the one order and
/// the highest first in the other.
pub proof fn law_bytes_stand_for_their_number(n: u64)
    ensures
        memory(n, true).len() == 8,
        value_of_bytes(memory(n, true)) == n,
        memory(n, false) == memory(n, true).reverse(),
{
    assert(vstd::arithmetic::power::pow(256, 8) == 0x1_0000_0000_0000_0000) by {
        reveal_with_fuel(vstd::arithmetic::power::pow, 9);
    }
    lemma_bytes_value(n as nat, 8);
}

/// An id is the hash of the name, and behind it a hash of that hash.
pub proof fn law_what_an_id_is_made_of(name: Seq<char>, little: bool)
    ensures
        device_id(name, little).take(16) == hex(name_hash(name) as nat, 16),
        device_id(name, little).skip(16) == hex(second_hash(name_hash(name), little) as nat, 16),
        name_hash(name) == DefaultHasher::spec_finish(
            seq![encode_utf8(name), seq![0xffu8], encode_utf8("tune"@), seq![0xffu8]],
        ),
        second_hash(name_hash(name), little) == DefaultHasher::spec_finish(
            seq![memory(name_hash(name), little), encode_utf8("tune2"@), seq![0xffu8]],
        ),
{
    lemma_hex(name_hash(name) as nat, 16);
    assert(device_id(name, little).take(16) =~= hex(name_hash(name) as nat, 16));
    assert(device_id(name, little).skip(16) =~= hex(second_hash(name_hash(name), little) as nat, 16));
}

}
