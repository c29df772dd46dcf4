use vstd::prelude::*;
use vstd::string::*;
use crate::chybky::Chyby;
use crate::hexa::{spec_u_literal, u_literal, hex_zapis, velke_ascii, zakon_zpet_na_text};
use vstd::utf8::encode_utf8;
use crate::text::{zacina, zacina_na, znaky_textu};

verus! {

/// The prefixes that tell how an argument is written.
#[derive(Debug)]
pub struct Prefixy {
    /// A decimal code point follows.
    pub decim: String,
    /// A hexadecimal code point follows.
    pub unicode: String,
    /// Hexadecimal UTF-8 bytes follow.
    pub utf: String,
}

/// The configuration: the prefixes.
#[derive(Debug)]
pub struct Data {
    pub prefixy: Prefixy,
}

impl Default for Prefixy {
    /// `dx` for decimal, `ux` for a hexadecimal code point, `0x` for UTF-8
    /// bytes.
    fn default() -> (r: Prefixy)
        ensures
            r.decim@ == "dx"@,
            r.unicode@ == "ux"@,
            r.utf@ == "0x"@,
    {
        Prefixy { decim: "dx".to_owned(), unicode: "ux".to_owned(), utf: "0x".to_owned() }
    }
}

impl Default for Data {
    /// The default prefixes.
    fn default() -> (r: Data)
        ensures
            r.prefixy.decim@ == "dx"@,
            r.prefixy.unicode@ == "ux"@,
            r.prefixy.utf@ == "0x"@,
    {
        Data { prefixy: Prefixy::default() }
    }
}

/// The value of `c` as a digit in base `radix` (`0`-`9`, then `a`-`z` or
/// `A`-`Z` for 10 to 35), if it is one.
pub open spec fn cislice(c: char, radix: u32) -> Option<u32> {
    let v: int = if '0' <= c && c <= '9' {
        c as u32 - '0' as u32
    } else if 'a' <= c && c <= 'z' {
        c as u32 - 'a' as u32 + 10
    } else if 'A' <= c && c <= 'Z' {
        c as u32 - 'A' as u32 + 10
    } else {
        99
    };
    if v < radix {
        Some(v as u32)
    } else {
        None
    }
}

/// Every character of `s` is a digit in base `radix`.
pub open spec fn vse_cislice(s: Seq<char>, radix: u32) -> bool {
    forall|i: int| 0 <= i < s.len() ==> (#[trigger] cislice(s[i], radix)) is Some
}

/// The number the digits `s` write in base `radix`.
pub open spec fn hodnota(s: Seq<char>, radix: u32) -> nat
    decreases s.len(),
{
    if s.len() == 0 {
        0
    } else {
        hodnota(s.drop_last(), radix) * (radix as nat) + (cislice(s.last(), radix).unwrap() as nat)
    }
}

/// The digits of a number written with an optional leading `+`.
pub open spec fn bez_znamenka(s: Seq<char>) -> Seq<char> {
    if s.len() > 0 && s[0] == '+' {
        s.drop_first()
    } else {
        s
    }
}

/// The `u32` that the text `s` writes in base `radix` (an optional `+`, then
/// at least one digit), if it fits.
pub open spec fn spec_cislo(s: Seq<char>, radix: u32) -> Option<u32> {
    let d = bez_znamenka(s);
    if d.len() > 0 && vse_cislice(d, radix) && hodnota(d, radix) <= u32::MAX {
        Some(hodnota(d, radix) as u32)
    } else {
        None
    }
}

/// The number is a Unicode scalar value, the code of a `char`.
pub open spec fn je_znak(i: u32) -> bool {
    i < 0xD800 || (0xE000 <= i && i <= 0x10FFFF)
}

/// Prefixes keep their value: a value of the first `k` digits is at most the
/// value of all of them.
pub proof fn lemma_hodnota_roste(s: Seq<char>, radix: u32, k: int)
    requires
        2 <= radix,
        0 <= k <= s.len(),
        vse_cislice(s, radix),
    ensures
        hodnota(s.take(k), radix) <= hodnota(s, radix),
    decreases s.len(),
{
    if k < s.len() {
        assert(s.drop_last().take(k) =~= s.take(k));
        assert(vse_cislice(s.drop_last(), radix)) by {
            assert forall|i: int| 0 <= i < s.drop_last().len() implies (#[trigger] cislice(s.drop_last()[i], radix)) is Some by {
                assert(s.drop_last()[i] == s[i]);
            }
        }
        lemma_hodnota_roste(s.drop_last(), radix, k);
        assert(hodnota(s.drop_last(), radix) * radix >= hodnota(s.drop_last(), radix)) by (nonlinear_arith)
            requires radix >= 2;
    } else {
        assert(s.take(k) =~= s);
    }
}

/// The value of a digit in base `radix`.
fn cislice_exec(c: char, radix: u32) -> (r: Option<u32>)
    ensures
        r == cislice(c, radix),
{
    let cc: u32 = c as u32;
    let v: u32 = if '0' <= c && c <= '9' {
        cc - 48
    } else if 'a' <= c && c <= 'z' {
        cc - 97 + 10
    } else if 'A' <= c && c <= 'Z' {
        cc - 65 + 10
    } else {
        99
    };
    if v < radix {
        Some(v)
    } else {
        None
    }
}

/// Reads the number that `s` writes in base `radix` (an optional leading `+`,
/// then digits); `None` when there are no digits, another character occurs, or
/// the number does not fit in a `u32`.
pub fn precti_cislo(s: &str, radix: u32) -> (r: Option<u32>)
    requires
        2 <= radix <= 36,
    ensures
        r == spec_cislo(s@, radix),
{
    let v = znaky_textu(s);
    let ghost d = bez_znamenka(s@);
    let start: usize = if v.len() > 0 && v[0] == '+' { 1 } else { 0 };
    assert(d =~= v@.skip(start as int));
    if start >= v.len() {
        return None;
    }
    let mut acc: u64 = 0;
    let mut i = start;
    assert(d.take(0) =~= Seq::<char>::empty());
    while i < v.len()
        invariant
            start <= i <= v.len(),
            v@ == s@,
            d == bez_znamenka(s@),
            d == v@.skip(start as int),
            2 <= radix <= 36,
            acc <= u32::MAX,
            acc == hodnota(d.take(i - start), radix),
            vse_cislice(d.take(i - start), radix),
        decreases v.len() - i,
    {
        let ghost k = i - start;
        assert(d.take(k + 1).drop_last() =~= d.take(k));
        assert(d.take(k + 1).last() == v@[i as int]);
        let c = match cislice_exec(v[i], radix) {
            Some(c) => c,
            None => {
                assert(!vse_cislice(d, radix)) by {
                    assert(d[k] == v@[i as int]);
                }
                return None;
            },
        };
        assert(acc * (radix as u64) <= 0xffff_ffffu64 * 36u64) by (nonlinear_arith)
            requires acc <= 0xffff_ffffu64, radix <= 36;
        let nove: u64 = acc * (radix as u64) + (c as u64);
        assert(vse_cislice(d.take(k + 1), radix)) by {
            assert forall|j: int| 0 <= j < k + 1 implies (#[trigger] cislice(d.take(k + 1)[j], radix)) is Some by {
                if j < k {
                    assert(d.take(k + 1)[j] == d.take(k)[j]);
                }
            }
        }
        assert(nove == hodnota(d.take(k + 1), radix));
        if nove > 0xffff_ffffu64 {
            proof {
                if vse_cislice(d, radix) {
                    lemma_hodnota_roste(d, radix, k + 1);
                }
            }
            return None;
        }
        acc = nove;
        i = i + 1;
    }
    assert(d.take(d.len() as int) =~= d);
    Some(acc as u32)
}

/// `char::from_u32`: the `char` with the given code, for Unicode scalar
/// values (below `0xD800`, or from `0xE000` to `0x10FFFF`); `None` otherwise.
#[verifier::external_body]
fn znak_z_kodu(i: u32) -> (r: Option<char>)
    ensures
        r is Some <==> je_znak(i),
        r matches Some(c) ==> c as u32 == i,
{
    char::from_u32(i)
}

/// The character whose code the text `s` writes in base `radix`; a text that
/// is no such number, or a number that is no character's code, is refused
/// with `BadNeco`.
pub fn znak_z_cisla(s: &str, radix: u32) -> (r: Result<char, Chyby>)
    requires
        2 <= radix <= 36,
    ensures
        match spec_cislo(s@, radix) {
            Some(i) if je_znak(i) => r matches Ok(c) && c as u32 == i,
            _ => r == Err::<char, Chyby>(Chyby::BadNeco),
        },
{
    match precti_cislo(s, radix) {
        Some(i) => match znak_z_kodu(i) {
            Some(c) => Ok(c),
            None => Err(Chyby::BadNeco),
        },
        None => Err(Chyby::BadNeco),
    }
}

/// The only character of a text that has exactly one.
pub fn jediny_znak(s: &str) -> (r: Option<char>)
    ensures
        s@.len() == 1 ==> r == Some(s@[0]),
        s@.len() != 1 ==> r is None,
{
    if s.unicode_len() == 1 {
        Some(s.get_char(0))
    } else {
        None
    }
}


/// What to do with an argument.
#[derive(Debug)]
pub enum Krok {
    /// Print this character.
    Vypis(char),
    /// Look the character up by this name.
    HledejJmeno(String),
}

/// `r` is what a code point written in base `radix` as `s` gives: the
/// character to print, or `BadNeco`.
pub open spec fn dava_znak(s: Seq<char>, radix: u32, r: Result<Krok, Chyby>) -> bool {
    match spec_cislo(s, radix) {
        Some(i) if je_znak(i) => r matches Ok(Krok::Vypis(c)) && c as u32 == i,
        _ => r == Err::<Krok, Chyby>(Chyby::BadNeco),
    }
}

/// `r` is what hexadecimal UTF-8 bytes written as `s` give: the character
/// they encode when they encode exactly one, `BadChar` with the decoded text
/// when it has another number of characters, `BadNeco` when they are no
/// valid hexadecimal UTF-8.
pub open spec fn dava_utf(s: Seq<char>, r: Result<Krok, Chyby>) -> bool {
    match spec_u_literal(s) {
        Some(t) => if t.len() == 1 {
            r == Ok::<Krok, Chyby>(Krok::Vypis(t[0]))
        } else {
            r matches Err(Chyby::BadChar(x)) && x@ == t
        },
        None => r == Err::<Krok, Chyby>(Chyby::BadNeco),
    }
}

/// `a` without its first `n` characters.
pub open spec fn bez_prefixu(a: Seq<char>, p: Seq<char>) -> Seq<char> {
    a.subrange(p.len() as int, a.len() as int)
}

/// `a` without its leading `p`.
fn odstran_prefix(a: &String, p: &String) -> (r: String)
    requires
        zacina(a@, p@),
    ensures
        r@ == bez_prefixu(a@, p@),
{
    let n = a.as_str().unicode_len();
    let m = p.as_str().unicode_len();
    a.as_str().substring_char(m, n).to_owned()
}

/// Decides what an argument (already in lower case) asks for. The first
/// prefix it begins with, tried in the order `unicode`, `utf`, `decim`,
/// tells how the rest is read: a hexadecimal code point, hexadecimal UTF-8
/// bytes of exactly one character, or a decimal code point. An argument
/// with none of the prefixes is a name to look up. A rest that cannot be read
/// gives `BadNeco`; UTF-8 bytes that decode to other than one character give
/// `BadChar` with the decoded text.
pub fn zpracuj_argument(argument: &String, prefixy: &Prefixy) -> (r: Result<Krok, Chyby>)
    ensures
        zacina(argument@, prefixy.unicode@) ==> dava_znak(bez_prefixu(argument@, prefixy.unicode@), 16, r),
        !zacina(argument@, prefixy.unicode@) && zacina(argument@, prefixy.utf@) ==> dava_utf(bez_prefixu(argument@, prefixy.utf@), r),
        !zacina(argument@, prefixy.unicode@) && !zacina(argument@, prefixy.utf@) && zacina(argument@, prefixy.decim@)
            ==> dava_znak(bez_prefixu(argument@, prefixy.decim@), 10, r),
        !zacina(argument@, prefixy.unicode@) && !zacina(argument@, prefixy.utf@) && !zacina(argument@, prefixy.decim@)
            ==> (r matches Ok(Krok::HledejJmeno(x)) && x@ == argument@),
{
    if zacina_na(argument.as_str(), prefixy.unicode.as_str()) {
        let zbytek = odstran_prefix(argument, &prefixy.unicode);
        match znak_z_cisla(zbytek.as_str(), 16) {
            Ok(c) => Ok(Krok::Vypis(c)),
            Err(e) => Err(e),
        }
    } else if zacina_na(argument.as_str(), prefixy.utf.as_str()) {
        let zbytek = odstran_prefix(argument, &prefixy.utf);
        match u_literal(zbytek) {
            Ok(t) => match jediny_znak(t.as_str()) {
                Some(c) => Ok(Krok::Vypis(c)),
                None => Err(Chyby::BadChar(t)),
            },
            Err(e) => Err(e),
        }
    } else if zacina_na(argument.as_str(), prefixy.decim.as_str()) {
        let zbytek = odstran_prefix(argument, &prefixy.decim);
        match znak_z_cisla(zbytek.as_str(), 10) {
            Ok(c) => Ok(Krok::Vypis(c)),
            Err(e) => Err(e),
        }
    } else {
        Ok(Krok::HledejJmeno(argument.clone()))
    }
}


/// A leading `+` does not change the number a text writes.
pub proof fn zakon_plus(d: Seq<char>, radix: u32)
    requires
        d.len() > 0,
        d[0] != '+',
    ensures
        spec_cislo(seq!['+'] + d, radix) == spec_cislo(d, radix),
{
    assert((seq!['+'] + d).drop_first() =~= d);
}


/// The digit that writes the value `v` (below 36): `0`-`9`, then `a`-`z`.
pub open spec fn znak_cislice(v: nat) -> char {
    if v < 10 {
        (48 + v) as char
    } else {
        (87 + v) as char
    }
}

/// The number `n` written in base `r`: its digits, most significant first,
/// with no leading zeros (`0` is written `0`).
pub open spec fn zapis_cisla(n: nat, r: nat) -> Seq<char>
    decreases n,
{
    if r < 2 || n < r {
        seq![znak_cislice(n)]
    } else {
        proof {
            assert(n / r < n) by (nonlinear_arith)
                requires r >= 2, n >= r;
        }
        zapis_cisla(n / r, r) + seq![znak_cislice(n % r)]
    }
}

/// Every digit below the base is read as its value: `0`-`9` as 0 to 9,
/// `a`-`z` as 10 to 35.
pub proof fn zakon_cislice_znak(v: nat, radix: u32)
    requires
        v < radix <= 36,
    ensures
        cislice(znak_cislice(v), radix) == Some(v as u32),
{
}

/// Digits are read alike in upper and lower case.
pub proof fn zakon_cislice_velka(c: char, radix: u32)
    ensures
        cislice(velke_ascii(c), radix) == cislice(c, radix),
{
}

/// The writing of a number in a base is read as the digits of that base and
/// has that number as its value.
pub proof fn lemma_zapis_cisla(n: nat, radix: u32)
    requires
        2 <= radix <= 36,
    ensures
        zapis_cisla(n, radix as nat).len() > 0,
        vse_cislice(zapis_cisla(n, radix as nat), radix),
        hodnota(zapis_cisla(n, radix as nat), radix) == n,
    decreases n,
{
    let r = radix as nat;
    let z = zapis_cisla(n, r);
    if n < r {
        zakon_cislice_znak(n, radix);
        assert(z.drop_last() =~= Seq::<char>::empty());
        assert(hodnota(Seq::<char>::empty(), radix) == 0);
        assert(z.last() == znak_cislice(n));
        assert(hodnota(z, radix) == hodnota(z.drop_last(), radix) * r + n);
        let h0 = hodnota(z.drop_last(), radix);
        assert(h0 == 0);
        assert(h0 * r + n == n) by (nonlinear_arith)
            requires h0 == 0;
    } else {
        assert(n / r < n) by (nonlinear_arith)
            requires r >= 2, n >= r;
        lemma_zapis_cisla(n / r, radix);
        let zp = zapis_cisla(n / r, r);
        assert(n % r < r) by (nonlinear_arith)
            requires r >= 2;
        zakon_cislice_znak(n % r, radix);
        assert(z.drop_last() =~= zp);
        assert(z.last() == znak_cislice(n % r));
        assert((n / r) * r + n % r == n) by (nonlinear_arith)
            requires r >= 2;
        assert(hodnota(z, radix) == hodnota(zp, radix) * r + (n % r));
        assert(hodnota(z, radix) == n);
        assert forall|i: int| 0 <= i < z.len() implies (#[trigger] cislice(z[i], radix)) is Some by {
            if i < zp.len() {
                assert(z[i] == zp[i]);
            }
        }
    }
}

/// Reading the writing of any `u32` in any base from 2 to 36 gives the
/// number back.
pub proof fn zakon_cteni_zapisu(n: u32, radix: u32)
    requires
        2 <= radix <= 36,
    ensures
        spec_cislo(zapis_cisla(n as nat, radix as nat), radix) == Some(n),
{
    lemma_zapis_cisla(n as nat, radix);
    let z = zapis_cisla(n as nat, radix as nat);
    assert(cislice(z[0], radix) is Some);
    assert(bez_znamenka(z) == z);
}

/// A character's code written in a base after its prefix gives that very
/// character.
pub proof fn zakon_kod_dava_znak(c: char, radix: u32, r: Result<Krok, Chyby>)
    requires
        2 <= radix <= 36,
        dava_znak(zapis_cisla(c as u32 as nat, radix as nat), radix, r),
    ensures
        r matches Ok(Krok::Vypis(d)) && d == c,
{
    zakon_cteni_zapisu(c as u32, radix);
    assert(je_znak(c as u32));
}

/// A number that is no character's code, written after its prefix, is
/// refused with `BadNeco`.
pub proof fn zakon_kod_mimo_znaky(n: u32, radix: u32, r: Result<Krok, Chyby>)
    requires
        2 <= radix <= 36,
        !je_znak(n),
        dava_znak(zapis_cisla(n as nat, radix as nat), radix, r),
    ensures
        r == Err::<Krok, Chyby>(Chyby::BadNeco),
{
    zakon_cteni_zapisu(n, radix);
}

/// The hexadecimal writing of a character's UTF-8 encoding gives that
/// character, however many bytes the encoding has.
pub proof fn zakon_utf_dava_znak(c: char, r: Result<Krok, Chyby>)
    requires
        dava_utf(hex_zapis(encode_utf8(seq![c])), r),
    ensures
        r == Ok::<Krok, Chyby>(Krok::Vypis(c)),
{
    zakon_zpet_na_text(seq![c]);
}

/// The hexadecimal writing of the UTF-8 encoding of a text of other than
/// one character gives `BadChar` with that text.
pub proof fn zakon_utf_jiny_pocet(t: Seq<char>, r: Result<Krok, Chyby>)
    requires
        t.len() != 1,
        dava_utf(hex_zapis(encode_utf8(t)), r),
    ensures
        r matches Err(Chyby::BadChar(x)) && x@ == t,
{
    zakon_zpet_na_text(t);
}


/// Only digits are read: a character read as `v` in base `radix` is below
/// the base and is the digit of `v`, in lower or upper case.
pub proof fn zakon_jen_cislice_zakladu(c: char, radix: u32)
    requires
        radix <= 36,
    ensures
        cislice(c, radix) matches Some(v) ==> v < radix && v < 36
            && (c == znak_cislice(v as nat) || c == velke_ascii(znak_cislice(v as nat))),
{
}

/// A number too large for a `u32` is refused, whatever its base.
pub proof fn zakon_velke_cislo(n: nat, radix: u32)
    requires
        2 <= radix <= 36,
        n > u32::MAX,
    ensures
        spec_cislo(zapis_cisla(n, radix as nat), radix) is None,
{
    lemma_zapis_cisla(n, radix);
    let z = zapis_cisla(n, radix as nat);
    assert(cislice(z[0], radix) is Some);
    assert(bez_znamenka(z) == z);
}

/// A leading `-` is refused.
pub proof fn zakon_minus(d: Seq<char>, radix: u32)
    requires
        radix <= 36,
    ensures
        spec_cislo(seq!['-'] + d, radix) is None,
{
    let s = seq!['-'] + d;
    assert(s[0] == '-');
    assert(bez_znamenka(s) == s);
    assert(cislice(s[0], radix) is None);
}

/// Without its prefix, an argument `p + x` is `x`.
pub proof fn zakon_bez_prefixu(p: Seq<char>, x: Seq<char>)
    ensures
        bez_prefixu(p + x, p) =~= x,
{
}


/// Nothing after the prefix, or a `+` alone, is refused with `BadNeco`; so
/// is an odd number of hexadecimal digits after the UTF-8 prefix.
pub proof fn zakon_prazdny_zbytek(radix: u32, s: Seq<char>, r: Result<Krok, Chyby>)
    ensures
        dava_znak(Seq::<char>::empty(), radix, r) ==> r == Err::<Krok, Chyby>(Chyby::BadNeco),
        dava_znak(seq!['+'], radix, r) ==> r == Err::<Krok, Chyby>(Chyby::BadNeco),
        s.len() % 2 == 1 && dava_utf(s, r) ==> r == Err::<Krok, Chyby>(Chyby::BadNeco),
{
    assert(seq!['+'].drop_first() =~= Seq::<char>::empty());
}

} // verus!
