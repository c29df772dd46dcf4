use vstd::prelude::*;
use vstd::string::*;
use crate::chybky::Chyby;
use crate::text::{obsahuje, obsahuje_v_useku, znaky_textu, zakon_obsahuje_uvnitr};

verus! {

/// The index where the field that starts at `od` ends: the first `;` at or
/// after `od`, or the end of the line.
pub open spec fn konec_pole(s: Seq<char>, od: int) -> int
    decreases s.len() - od,
{
    if od >= s.len() {
        s.len() as int
    } else if s[od] == ';' {
        od
    } else {
        konec_pole(s, od + 1)
    }
}

/// The line has at least one `;`, that is at least two fields.
pub open spec fn ma_dve_pole(s: Seq<char>) -> bool {
    exists|i: int| 0 <= i < s.len() && s[i] == ';'
}

/// The first field of the line (the code point).
pub open spec fn prvni_pole(s: Seq<char>) -> Seq<char> {
    s.subrange(0, konec_pole(s, 0))
}

/// The second field of the line (the name).
pub open spec fn druhe_pole(s: Seq<char>) -> Seq<char> {
    s.subrange(konec_pole(s, 0) + 1, konec_pole(s, konec_pole(s, 0) + 1))
}

/// What `csv_line_parser` gives for a line with at least one `;`: the first
/// field when the phrase occurs in the second field.
pub open spec fn spec_csv(line: Seq<char>, fraze: Seq<char>) -> Option<Seq<char>> {
    if obsahuje(druhe_pole(line), fraze) {
        Some(prvni_pole(line))
    } else {
        None
    }
}

/// The lines as the search reads them, each one in lower case.
pub open spec fn mala_radky(radky: Seq<String>) -> Seq<Seq<char>> {
    Seq::new(radky.len(), |i: int| mala_pismena(radky[i]@))
}

/// The outcome of searching the lines (already in lower case) for the phrase:
/// `Some(Ok(code))` for the first field of the first line whose second field
/// holds the phrase, `Some(Err(line))` for a line without `;` met before any
/// match, `None` when no line matches.
pub open spec fn spec_hledani(fraze: Seq<char>, radky: Seq<Seq<char>>) -> Option<Result<Seq<char>, Seq<char>>>
    decreases radky.len(),
{
    if radky.len() == 0 {
        None
    } else if !ma_dve_pole(radky[0]) {
        Some(Err(radky[0]))
    } else {
        match spec_csv(radky[0], fraze) {
            Some(v) => Some(Ok(v)),
            None => spec_hledani(fraze, radky.drop_first()),
        }
    }
}

/// What `str::to_lowercase` gives for a text.
pub uninterp spec fn mala_pismena(s: Seq<char>) -> Seq<char>;

/// What `str::trim` gives for a text.
pub uninterp spec fn oriznuto(s: Seq<char>) -> Seq<char>;

/// `str::to_lowercase`: the lower-case form of the text, a function of the
/// text alone; which characters change is Unicode's Lowercase mapping and is
/// left to the name `mala_pismena`.
#[verifier::external_body]
fn na_mala(s: &str) -> (r: String)
    ensures
        r@ == mala_pismena(s@),
{
    s.to_lowercase()
}

/// `str::trim`: the text without leading and trailing white space, a function
/// of the text alone; what counts as white space is Unicode's White_Space
/// property and is left to the name `oriznuto`.
#[verifier::external_body]
fn oriznout(s: &str) -> (r: &str)
    ensures
        r@ == oriznuto(s@),
{
    s.trim()
}

/// The index where the field starting at `od` ends.
fn najdi_konec_pole(v: &Vec<char>, od: usize) -> (r: usize)
    requires
        od <= v.len(),
    ensures
        r == konec_pole(v@, od as int),
        od <= r <= v.len(),
        forall|k: int| od <= k < r ==> v@[k] != ';',
        r < v.len() ==> v@[r as int] == ';',
{
    let mut i = od;
    while i < v.len() && v[i] != ';'
        invariant
            od <= i <= v.len(),
            konec_pole(v@, i as int) == konec_pole(v@, od as int),
            forall|k: int| od <= k < i ==> v@[k] != ';',
        decreases v.len() - i,
    {
        i = i + 1;
    }
    i
}

/// Parses one line of a `;`-separated list: when the phrase occurs in the
/// second field, gives the first field; otherwise `None`. The line must have
/// at least two fields.
pub fn csv_line_parser(line: String, fraze: &String) -> (r: Option<String>)
    requires
        ma_dve_pole(line@),
    ensures
        r matches Some(v) ==> Some(v@) == spec_csv(line@, fraze@),
        r is None ==> spec_csv(line@, fraze@) is None,
{
    let radek = znaky_textu(line.as_str());
    let f = znaky_textu(fraze.as_str());
    let p = najdi_konec_pole(&radek, 0);
    assert(p < radek.len()) by {
        let w = choose|w: int| 0 <= w < line@.len() && line@[w] == ';';
        assert(w >= p);
    }
    let q = najdi_konec_pole(&radek, p + 1);
    if obsahuje_v_useku(&radek, p + 1, q, &f) {
        Some(line.as_str().substring_char(0, p).to_owned())
    } else {
        None
    }
}

/// Whether the line has at least one `;`.
fn ma_strednik(line: &String) -> (r: bool)
    ensures
        r == ma_dve_pole(line@),
{
    let radek = znaky_textu(line.as_str());
    let p = najdi_konec_pole(&radek, 0);
    proof {
        if p < radek.len() {
            assert(line@[p as int] == ';');
        }
    }
    p < radek.len()
}

/// The texts of the lines.
pub open spec fn texty(radky: Seq<String>) -> Seq<Seq<char>> {
    Seq::new(radky.len(), |i: int| radky[i]@)
}

/// Searches the lines of a `;`-separated list, as they are given, for the
/// phrase: `Some(Ok(code))` with the first field of the first line whose
/// second field holds the phrase, `Some(Err(line))` with a line without `;`
/// met before any match, `None` when no line matches.
pub fn prohledej_radky(fraze: &String, radky: &Vec<String>) -> (r: Option<Result<String, String>>)
    ensures
        match spec_hledani(fraze@, texty(radky@)) {
            Some(Ok(v)) => r matches Some(Ok(s)) && s@ == v,
            Some(Err(l)) => r matches Some(Err(s)) && s@ == l,
            None => r is None,
        },
{
    let ghost vse = texty(radky@);
    assert(vse.skip(0) =~= vse);
    let n = radky.len();
    for i in 0..n
        invariant
            n == radky@.len(),
            vse == texty(radky@),
            spec_hledani(fraze@, vse) == spec_hledani(fraze@, vse.skip(i as int)),
    {
        assert(vse.skip(i as int).drop_first() =~= vse.skip(i + 1));
        let radek = radky[i].clone();
        if !ma_strednik(&radek) {
            return Some(Err(radek));
        }
        match csv_line_parser(radek, fraze) {
            Some(vystup) => {
                return Some(Ok(vystup));
            },
            None => {},
        }
    }
    assert(vse.skip(n as int).len() == 0);
    None
}

/// Searches the lines of a `;`-separated list for a word, as a name list is
/// searched: the word without surrounding white space and each line are taken
/// in lower case, and the first field of the first line whose second field
/// holds the word is the result. With no such line, a failed read
/// (`chyba_cteni`, the error that ended the reading after the lines given)
/// gives `NFFile`, otherwise `NFWord` with the word as given. A line without
/// `;` met before any match stops the search with `BadString` holding that
/// line in lower case.
pub fn hledej_v_radcich(slovo: String, radky: &Vec<String>, chyba_cteni: Option<std::io::Error>) -> (r: Result<String, Chyby>)
    ensures
        match spec_hledani(mala_pismena(oriznuto(slovo@)), mala_radky(radky@)) {
            Some(Ok(v)) => r matches Ok(s) && s@ == v,
            Some(Err(l)) => r matches Err(Chyby::BadString(s)) && s@ == l,
            None => match chyba_cteni {
                Some(e) => r == Err::<String, Chyby>(Chyby::NFFile(e)),
                None => r matches Err(Chyby::NFWord(w)) && w@ == slovo@,
            },
        },
{
    let hledane_slovo = na_mala(oriznout(slovo.as_str()));
    let mut mala: Vec<String> = Vec::new();
    for i in 0..radky.len()
        invariant
            mala@.len() == i,
            forall|j: int| 0 <= j < i ==> #[trigger] mala@[j]@ == mala_pismena(radky@[j]@),
    {
        mala.push(na_mala(radky[i].as_str()));
    }
    assert(texty(mala@) =~= mala_radky(radky@));
    match prohledej_radky(&hledane_slovo, &mala) {
        Some(Ok(vystup)) => Ok(vystup),
        Some(Err(radek)) => Err(Chyby::BadString(radek)),
        None => match chyba_cteni {
            Some(e) => Err(Chyby::NFFile(e)),
            None => Err(Chyby::NFWord(slovo)),
        },
    }
}

/// The field ends are where the line's `;` are: no `;` before the end of a
/// field, and a `;` at its end unless the line ends there.
pub proof fn lemma_konec_pole(s: Seq<char>, od: int)
    requires
        0 <= od <= s.len(),
    ensures
        od <= konec_pole(s, od) <= s.len(),
        forall|k: int| od <= k < konec_pole(s, od) ==> s[k] != ';',
        konec_pole(s, od) < s.len() ==> s[konec_pole(s, od)] == ';',
    decreases s.len() - od,
{
    if od < s.len() && s[od] != ';' {
        lemma_konec_pole(s, od + 1);
    }
}

/// In a line with at least two fields, the first field holds no `;` and is
/// followed by one.
pub proof fn zakon_prvni_pole(line: Seq<char>)
    requires
        ma_dve_pole(line),
    ensures
        forall|k: int| 0 <= k < prvni_pole(line).len() ==> prvni_pole(line)[k] != ';',
        prvni_pole(line).len() < line.len(),
        line[prvni_pole(line).len() as int] == ';',
{
    lemma_konec_pole(line, 0);
    let w = choose|w: int| 0 <= w < line.len() && line[w] == ';';
    assert(w >= konec_pole(line, 0));
}

/// The empty phrase occurs in every name: every line with two fields gives
/// its first field for it.
pub proof fn zakon_prazdna_fraze(line: Seq<char>)
    requires
        ma_dve_pole(line),
    ensures
        spec_csv(line, Seq::<char>::empty()) == Some(prvni_pole(line)),
{
    zakon_prvni_pole(line);
    lemma_konec_pole(line, 0);
    lemma_konec_pole(line, konec_pole(line, 0) + 1);
    let d = druhe_pole(line);
    assert(d.subrange(0, 0) =~= Seq::<char>::empty());
    assert(crate::text::shoda_na(d, Seq::<char>::empty(), 0));
}


/// `x` holds no `;`.
pub open spec fn bez_stredniku(x: Seq<char>) -> bool {
    forall|k: int| 0 <= k < x.len() ==> x[k] != ';'
}

/// A field that starts at `od` and holds no `;` ends at the next `;`, or at
/// the end of the line.
pub proof fn lemma_konec_na(s: Seq<char>, od: int, e: int)
    requires
        0 <= od <= e <= s.len(),
        forall|k: int| od <= k < e ==> s[k] != ';',
        e == s.len() || s[e] == ';',
    ensures
        konec_pole(s, od) == e,
    decreases e - od,
{
    if od < e {
        lemma_konec_na(s, od + 1, e);
    }
}

/// A line made of a code, `;`, and a name in which the phrase stands
/// anywhere (followed by nothing or by more `;`-separated fields) gives its
/// code for that phrase.
pub proof fn zakon_csv_najde_frazi(kod: Seq<char>, a: Seq<char>, f: Seq<char>, b: Seq<char>, dalsi: Seq<char>)
    requires
        bez_stredniku(kod),
        bez_stredniku(a),
        bez_stredniku(f),
        bez_stredniku(b),
        dalsi.len() == 0 || dalsi[0] == ';',
    ensures
        ma_dve_pole(kod + seq![';'] + a + f + b + dalsi),
        spec_csv(kod + seq![';'] + a + f + b + dalsi, f) == Some(kod),
{
    let line = kod + seq![';'] + a + f + b + dalsi;
    let p = kod.len() as int;
    let e = p + 1 + a.len() + f.len() + b.len();
    assert(line[p] == ';');
    assert forall|k: int| 0 <= k < p implies line[k] != ';' by {
        assert(line[k] == kod[k]);
    }
    lemma_konec_na(line, 0, p);
    assert forall|k: int| p + 1 <= k < e implies line[k] != ';' by {
        let j = k - p - 1;
        if j < a.len() {
            assert(line[k] == a[j]);
        } else if j < a.len() + f.len() {
            assert(line[k] == f[j - a.len()]);
        } else {
            assert(line[k] == b[j - a.len() - f.len()]);
        }
    }
    if dalsi.len() > 0 {
        assert(line[e] == dalsi[0]);
    }
    lemma_konec_na(line, p + 1, e);
    assert(druhe_pole(line) =~= a + f + b);
    assert(prvni_pole(line) =~= kod);
    zakon_obsahuje_uvnitr(a, f, b);
}

/// A matching line is found wherever it stands: when every line before it
/// has two fields and none of them matches, the search gives the code of
/// that line, whatever follows it.
pub proof fn zakon_hledani_najde_kdekoli(f: Seq<char>, pred: Seq<Seq<char>>, l: Seq<char>, po: Seq<Seq<char>>)
    requires
        forall|i: int| 0 <= i < pred.len() ==> ma_dve_pole(#[trigger] pred[i]) && spec_csv(pred[i], f) is None,
        ma_dve_pole(l),
        spec_csv(l, f) is Some,
    ensures
        spec_hledani(f, pred + seq![l] + po) == Some(Ok::<Seq<char>, Seq<char>>(spec_csv(l, f).unwrap())),
    decreases pred.len(),
{
    let vse = pred + seq![l] + po;
    if pred.len() == 0 {
        assert(vse[0] == l);
    } else {
        assert(vse[0] == pred[0]);
        assert(vse.drop_first() =~= pred.drop_first() + seq![l] + po);
        assert forall|i: int| 0 <= i < pred.drop_first().len() implies ma_dve_pole(#[trigger] pred.drop_first()[i])
            && spec_csv(pred.drop_first()[i], f) is None by {
            assert(pred.drop_first()[i] == pred[i + 1]);
        }
        zakon_hledani_najde_kdekoli(f, pred.drop_first(), l, po);
    }
}

/// The search finds nothing exactly when every line has two fields and none
/// of them matches.
pub proof fn zakon_hledani_nic(f: Seq<char>, radky: Seq<Seq<char>>)
    ensures
        spec_hledani(f, radky) is None <==> forall|i: int|
            0 <= i < radky.len() ==> ma_dve_pole(#[trigger] radky[i]) && spec_csv(radky[i], f) is None,
    decreases radky.len(),
{
    if radky.len() > 0 {
        zakon_hledani_nic(f, radky.drop_first());
        if forall|i: int| 0 <= i < radky.len() ==> ma_dve_pole(#[trigger] radky[i]) && spec_csv(radky[i], f) is None {
            assert forall|i: int| 0 <= i < radky.drop_first().len() implies ma_dve_pole(#[trigger] radky.drop_first()[i])
                && spec_csv(radky.drop_first()[i], f) is None by {
                assert(radky.drop_first()[i] == radky[i + 1]);
            }
        }
        if spec_hledani(f, radky) is None {
            assert forall|i: int| 0 <= i < radky.len() implies ma_dve_pole(#[trigger] radky[i])
                && spec_csv(radky[i], f) is None by {
                if i > 0 {
                    assert(radky[i] == radky.drop_first()[i - 1]);
                }
            }
        }
    }
}


/// A line whose name does not hold the phrase gives nothing for it, even
/// when a later field does.
pub proof fn zakon_csv_nenajde(kod: Seq<char>, a: Seq<char>, f: Seq<char>, dalsi: Seq<char>)
    requires
        bez_stredniku(kod),
        bez_stredniku(a),
        !obsahuje(a, f),
        dalsi.len() == 0 || dalsi[0] == ';',
    ensures
        ma_dve_pole(kod + seq![';'] + a + dalsi),
        spec_csv(kod + seq![';'] + a + dalsi, f) is None,
{
    let line = kod + seq![';'] + a + dalsi;
    let p = kod.len() as int;
    let e = p + 1 + a.len();
    assert(line[p] == ';');
    assert forall|k: int| 0 <= k < p implies line[k] != ';' by {
        assert(line[k] == kod[k]);
    }
    lemma_konec_na(line, 0, p);
    assert forall|k: int| p + 1 <= k < e implies line[k] != ';' by {
        assert(line[k] == a[k - p - 1]);
    }
    if dalsi.len() > 0 {
        assert(line[e] == dalsi[0]);
    }
    lemma_konec_na(line, p + 1, e);
    assert(druhe_pole(line) =~= a);
}

/// A line without `;` stops the search wherever it stands, when every line
/// before it has two fields and none of them matches.
pub proof fn zakon_hledani_bez_stredniku(f: Seq<char>, pred: Seq<Seq<char>>, l: Seq<char>, po: Seq<Seq<char>>)
    requires
        forall|i: int| 0 <= i < pred.len() ==> ma_dve_pole(#[trigger] pred[i]) && spec_csv(pred[i], f) is None,
        !ma_dve_pole(l),
    ensures
        spec_hledani(f, pred + seq![l] + po) == Some(Err::<Seq<char>, Seq<char>>(l)),
    decreases pred.len(),
{
    let vse = pred + seq![l] + po;
    if pred.len() == 0 {
        assert(vse[0] == l);
    } else {
        assert(vse[0] == pred[0]);
        assert(vse.drop_first() =~= pred.drop_first() + seq![l] + po);
        assert forall|i: int| 0 <= i < pred.drop_first().len() implies ma_dve_pole(#[trigger] pred.drop_first()[i])
            && spec_csv(pred.drop_first()[i], f) is None by {
            assert(pred.drop_first()[i] == pred[i + 1]);
        }
        zakon_hledani_bez_stredniku(f, pred.drop_first(), l, po);
    }
}

} // verus!
