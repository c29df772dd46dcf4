use vstd::prelude::*;
use vstd::string::*;
use vstd::utf8::*;
use std::str::Chars;
use vstd::std_specs::iter::IteratorSpec;
use crate::chybky::Chyby;

verus! {

broadcast use vstd::utf8::group_utf8_lib;

/// The value of a hexadecimal digit (`0`-`9`, `a`-`f`, `A`-`F`), or `None`
/// for any other character.
pub open spec fn hex_value(c: char) -> Option<u8> {
    if '0' <= c && c <= '9' {
        Some((c as u32 - '0' as u32) as u8)
    } else if 'a' <= c && c <= 'f' {
        Some((c as u32 - 'a' as u32 + 10) as u8)
    } else if 'A' <= c && c <= 'F' {
        Some((c as u32 - 'A' as u32 + 10) as u8)
    } else {
        None
    }
}

/// Every character of `s` is a hexadecimal digit.
pub open spec fn je_hex(s: Seq<char>) -> bool {
    forall|i: int| 0 <= i < s.len() ==> (#[trigger] hex_value(s[i])) is Some
}

/// The byte written as the two hexadecimal digits `h` (high nibble) and `l`.
pub open spec fn bajt_z_dvojice(h: char, l: char) -> u8 {
    (hex_value(h).unwrap() * 16 + hex_value(l).unwrap()) as u8
}

/// The bytes written by consecutive pairs of hexadecimal digits of `s`.
pub open spec fn bajty_z_hex(s: Seq<char>) -> Seq<u8> {
    Seq::new(s.len() / 2, |i: int| bajt_z_dvojice(s[2 * i], s[2 * i + 1]))
}

/// What `u_literal` yields for the characters `s`: the text whose UTF-8
/// encoding the hexadecimal digit pairs of `s` spell, if `s` has an even
/// number of characters, all of them hexadecimal digits, and those bytes are
/// valid UTF-8.
pub open spec fn spec_u_literal(s: Seq<char>) -> Option<Seq<char>> {
    if s.len() % 2 == 0 && je_hex(s) && valid_utf8(bajty_z_hex(s)) {
        Some(decode_utf8(bajty_z_hex(s)))
    } else {
        None
    }
}

/// Converts a hexadecimal digit to its value (a nibble).
/// A character that is not a hexadecimal digit is refused with `BadNeco`.
pub fn char_to_nibble(qq: char) -> (r: Result<u8, Chyby>)
    ensures
        match hex_value(qq) {
            Some(v) => r == Ok::<u8, Chyby>(v),
            None => r == Err::<u8, Chyby>(Chyby::BadNeco),
        },
        r matches Ok(v) ==> v < 16,
{
    let c: u32 = qq as u32;
    if '0' <= qq && qq <= '9' {
        Ok((c - 48) as u8)
    } else if 'a' <= qq && qq <= 'f' {
        Ok((c - 97 + 10) as u8)
    } else if 'A' <= qq && qq <= 'F' {
        Ok((c - 65 + 10) as u8)
    } else {
        Err(Chyby::BadNeco)
    }
}

/// Takes the next character from the iterator; an exhausted iterator gives
/// `BadNeco` and stays as it was.
pub fn vrat_znak(mm: &mut Chars<'_>) -> (r: Result<char, Chyby>)
    ensures
        (*old(mm)).remaining().len() > 0 ==> {
            &&& r == Ok::<char, Chyby>((*old(mm)).remaining()[0])
            &&& (*final(mm)).remaining() == (*old(mm)).remaining().drop_first()
        },
        (*old(mm)).remaining().len() == 0 ==> {
            &&& r == Err::<char, Chyby>(Chyby::BadNeco)
            &&& (*final(mm)).remaining() == (*old(mm)).remaining()
        },
{
    match mm.next() {
        Some(k) => Ok(k),
        None => Err(Chyby::BadNeco),
    }
}

/// Half the number of characters of `ret` when that number is even; an odd
/// number of characters is refused with the message `Chybka`.
pub fn chars_count(ret: String) -> (r: Result<usize, &'static str>)
    ensures
        match r {
            Ok(n) => ret@.len() % 2 == 0 && n == ret@.len() / 2,
            Err(e) => ret@.len() % 2 == 1 && e@ == "Chybka"@,
        },
{
    let pocet = ret.as_str().unicode_len();
    let u = pocet % 2;
    if u == 0 {
        Ok(pocet / 2)
    } else {
        Err("Chybka")
    }
}


/// `bytes::Bytes`, the buffer that the decoded bytes are handed to.
#[verifier::external_type_specification]
#[verifier::external_body]
pub struct ExBytes(bytes::Bytes);

/// The bytes that a `bytes::Bytes` buffer holds.
pub uninterp spec fn obsah_bajtu(b: bytes::Bytes) -> Seq<u8>;

/// `Bytes::from(Vec<u8>)` (bytes crate): the buffer takes over the vector,
/// so it holds exactly the vector's bytes, in order.
#[verifier::external_body]
fn bajty_z_vektoru(v: Vec<u8>) -> (b: bytes::Bytes)
    ensures
        obsah_bajtu(b) == v@,
{
    bytes::Bytes::from(v)
}

/// `<Bytes as Deref>::deref` (bytes crate): the slice of all bytes the buffer
/// holds.
#[verifier::external_body]
fn bajty_jako_rez(b: &bytes::Bytes) -> (r: &[u8])
    ensures
        r@ == obsah_bajtu(*b),
{
    std::ops::Deref::deref(b)
}

/// `std::str::from_utf8`: succeeds exactly on valid UTF-8, and the text it
/// gives back is encoded by exactly the bytes it was given.
#[verifier::external_body]
fn text_z_utf8(b: &[u8]) -> (r: Option<&str>)
    ensures
        r is Some <==> valid_utf8(b@),
        r matches Some(t) ==> t.spec_bytes() == b@,
{
    std::str::from_utf8(b).ok()
}

/// Decodes a string of hexadecimal digit pairs, each pair one byte of UTF-8,
/// into the text those bytes encode. An odd number of characters, a character
/// that is not a hexadecimal digit, or bytes that are not valid UTF-8 are
/// refused with `BadNeco`.
pub fn u_literal(retezec: String) -> (r: Result<String, Chyby>)
    ensures
        match spec_u_literal(retezec@) {
            Some(t) => r matches Ok(v) && v@ == t,
            None => r == Err::<String, Chyby>(Chyby::BadNeco),
        },
{
    let mut vys: Vec<u8> = Vec::new();
    let mut znaky: Chars = retezec.chars();
    let pocetznaku = match chars_count(retezec.clone()) {
        Ok(n) => n,
        Err(_) => return Err(Chyby::BadNeco),
    };
    let ghost s = retezec@;
    assert(s.skip(0) =~= s);
    for i in 0..pocetznaku
        invariant
            s == retezec@,
            s.len() == 2 * pocetznaku,
            znaky.remaining() == s.skip(2 * i),
            vys@.len() == i,
            forall|j: int| 0 <= j < i ==> #[trigger] vys@[j] == bajt_z_dvojice(s[2 * j], s[2 * j + 1]),
            forall|k: int| 0 <= k < 2 * i ==> (#[trigger] hex_value(s[k])) is Some,
    {
        let firs_char = match vrat_znak(&mut znaky) {
            Ok(c) => c,
            Err(e) => return Err(e),
        };
        let second_char = match vrat_znak(&mut znaky) {
            Ok(c) => c,
            Err(e) => return Err(e),
        };
        assert(firs_char == s[2 * i] && second_char == s[2 * i + 1]);
        assert(znaky.remaining() =~= s.skip(2 * i + 2));
        let mut first_nibble = match char_to_nibble(firs_char) {
            Ok(v) => v,
            Err(e) => {
                assert(!je_hex(s));
                return Err(e);
            },
        };
        let second_nibble = match char_to_nibble(second_char) {
            Ok(v) => v,
            Err(e) => {
                assert(!je_hex(s));
                return Err(e);
            },
        };
        let h = first_nibble;
        first_nibble = first_nibble << 4;
        let b = first_nibble | second_nibble;
        assert(b == h * 16 + second_nibble) by (bit_vector)
            requires
                h < 16,
                second_nibble < 16,
                first_nibble == h << 4,
                b == first_nibble | second_nibble,
        ;
        vys.push(b);
    }
    assert(je_hex(s));
    assert(vys@ =~= bajty_z_hex(s));
    let h = bajty_z_vektoru(vys);
    match text_z_utf8(bajty_jako_rez(&h)) {
        Some(t) => {
            proof {
                encode_utf8_decode_utf8(t@);
            }
            Ok(t.to_owned())
        },
        None => Err(Chyby::BadNeco),
    }
}


/// The lower-case hexadecimal digit of a nibble `v` (below 16).
pub open spec fn hex_cislice(v: u8) -> char {
    if v < 10 {
        (48 + v) as char
    } else {
        (97 + v - 10) as char
    }
}

/// `c` with ASCII lower-case letters made upper-case.
pub open spec fn velke_ascii(c: char) -> char {
    if 'a' <= c && c <= 'z' {
        (c as u32 - 32) as char
    } else {
        c
    }
}

/// The hexadecimal writing of `b`: two lower-case digits per byte, high
/// nibble first.
pub open spec fn hex_zapis(b: Seq<u8>) -> Seq<char> {
    Seq::new(
        2 * b.len(),
        |i: int|
            if i % 2 == 0 {
                hex_cislice(b[i / 2] / 16)
            } else {
                hex_cislice(b[i / 2] % 16)
            },
    )
}

/// Every nibble's digit is read back as that nibble, and the digits are
/// read alike in upper and lower case.
pub proof fn zakon_cislice(v: u8)
    requires
        v < 16,
    ensures
        hex_value(hex_cislice(v)) == Some(v),
        hex_value(velke_ascii(hex_cislice(v))) == Some(v),
{
}

/// Reading a hexadecimal digit does not depend on its case.
pub proof fn zakon_velikost_pismen(c: char)
    ensures
        hex_value(velke_ascii(c)) == hex_value(c),
{
}

/// The hexadecimal writing of any text's UTF-8 encoding is decoded back to
/// that very text.
pub proof fn zakon_zpet_na_text(t: Seq<char>)
    ensures
        spec_u_literal(hex_zapis(encode_utf8(t))) == Some(t),
{
    let b = encode_utf8(t);
    let s = hex_zapis(b);
    assert forall|i: int| 0 <= i < s.len() implies (#[trigger] hex_value(s[i])) is Some by {
        if i % 2 == 0 {
            zakon_cislice(b[i / 2] / 16);
        } else {
            zakon_cislice(b[i / 2] % 16);
        }
    }
    assert forall|j: int| 0 <= j < b.len() implies #[trigger] bajt_z_dvojice(s[2 * j], s[2 * j + 1]) == b[j] by {
        assert((2 * j) / 2 == j);
        assert((2 * j + 1) / 2 == j);
        assert((2 * j) % 2 == 0);
        assert((2 * j + 1) % 2 == 1);
        zakon_cislice(b[j] / 16);
        zakon_cislice(b[j] % 16);
    }
    assert(bajty_z_hex(s) =~= b);
}


/// Each pair of digits is one byte of the result's UTF-8 encoding: the
/// decoded text is encoded by exactly the bytes the pairs spell, half as many
/// as there are digits.
pub proof fn zakon_pary_jsou_bajty(s: Seq<char>)
    requires
        spec_u_literal(s) is Some,
    ensures
        encode_utf8(spec_u_literal(s).unwrap()) == bajty_z_hex(s),
        encode_utf8(spec_u_literal(s).unwrap()).len() * 2 == s.len(),
{
    decode_utf8_encode_utf8(bajty_z_hex(s));
}


/// Only digits are read: a character read as `v` is the digit of `v`, in
/// lower or upper case.
pub proof fn zakon_jen_cislice(c: char)
    ensures
        hex_value(c) matches Some(v) ==> v < 16 && (c == hex_cislice(v) || c == velke_ascii(hex_cislice(v))),
{
}


/// An odd number of digits, or any character that is not a hexadecimal
/// digit, is refused.
pub proof fn zakon_odmitnuti(s: Seq<char>, i: int)
    ensures
        s.len() % 2 == 1 ==> spec_u_literal(s) is None,
        0 <= i < s.len() && hex_value(s[i]) is None ==> spec_u_literal(s) is None,
{
}

} // verus!
