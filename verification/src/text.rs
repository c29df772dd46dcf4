use vstd::prelude::*;
use vstd::string::*;

verus! {

/// `s` begins with `p`.
pub open spec fn zacina(s: Seq<char>, p: Seq<char>) -> bool {
    p.len() <= s.len() && s.subrange(0, p.len() as int) == p
}

/// `n` occurs in `h` starting at index `i`.
pub open spec fn shoda_na(h: Seq<char>, n: Seq<char>, i: int) -> bool {
    0 <= i && i + n.len() <= h.len() && h.subrange(i, i + n.len()) == n
}

/// `n` occurs somewhere in `h` (the empty sequence occurs in every sequence).
pub open spec fn obsahuje(h: Seq<char>, n: Seq<char>) -> bool {
    exists|i: int| #[trigger] shoda_na(h, n, i)
}

/// The characters of a text, one by one.
pub fn znaky_textu(s: &str) -> (v: Vec<char>)
    ensures
        v@ == s@,
{
    let mut v: Vec<char> = Vec::new();
    for c in it: s.chars()
        invariant
            v.len() == it.index(),
            forall|i: int| 0 <= i < v.len() ==> v@[i] == it.seq()[i],
    {
        v.push(c);
    }
    assert(v@ =~= s@);
    v
}

/// Whether the text `s` begins with the text `p`.
pub fn zacina_na(s: &str, p: &str) -> (r: bool)
    ensures
        r == zacina(s@, p@),
{
    let sv = znaky_textu(s);
    let pv = znaky_textu(p);
    if pv.len() > sv.len() {
        return false;
    }
    for i in 0..pv.len()
        invariant
            sv@ == s@,
            pv@ == p@,
            pv.len() <= sv.len(),
            forall|k: int| 0 <= k < i ==> sv@[k] == pv@[k],
    {
        if sv[i] != pv[i] {
            assert(s@.subrange(0, p@.len() as int)[i as int] != p@[i as int]);
            return false;
        }
    }
    assert(s@.subrange(0, p@.len() as int) =~= p@);
    true
}

/// Whether `n` occurs at index `i` of `h`.
fn shoda_na_exec(h: &Vec<char>, n: &Vec<char>, i: usize) -> (r: bool)
    ensures
        r == shoda_na(h@, n@, i as int),
{
    if i > h.len() || n.len() > h.len() - i {
        return false;
    }
    for k in 0..n.len()
        invariant
            i + n.len() <= h.len(),
            forall|m: int| 0 <= m < k ==> h@[i + m] == n@[m],
    {
        if h[i + k] != n[k] {
            assert(h@.subrange(i as int, i + n.len())[k as int] != n@[k as int]);
            return false;
        }
    }
    assert(h@.subrange(i as int, i + n.len()) =~= n@);
    true
}

/// Whether `n` occurs in the part of `h` from index `od` up to (not
/// including) index `po`.
pub fn obsahuje_v_useku(h: &Vec<char>, od: usize, po: usize, n: &Vec<char>) -> (r: bool)
    requires
        od <= po <= h.len(),
    ensures
        r == obsahuje(h@.subrange(od as int, po as int), n@),
{
    let ghost u = h@.subrange(od as int, po as int);
    let mut i = od;
    while n.len() <= po - i
        invariant
            od <= i <= po,
            od <= po <= h.len(),
            u == h@.subrange(od as int, po as int),
            forall|k: int| 0 <= k < i - od ==> !shoda_na(u, n@, k),
        decreases po - i,
    {
        if shoda_na_exec(h, n, i) {
            assert(u.subrange(i - od, i - od + n.len()) =~= h@.subrange(i as int, i + n.len()));
            assert(shoda_na(u, n@, i - od));
            return true;
        }
        proof {
            assert(!shoda_na(u, n@, i - od)) by {
                if shoda_na(u, n@, i - od) {
                    assert(u.subrange(i - od, i - od + n.len()) =~= h@.subrange(i as int, i + n.len()));
                }
            }
        }
        assert(i < po) by {
            if n.len() == 0 {
                assert(h@.subrange(i as int, i as int) =~= n@);
            }
        }
        i = i + 1;
    }
    assert(!obsahuje(u, n@));
    false
}


/// A sequence placed anywhere inside another, with anything before and
/// after it, occurs in the whole.
pub proof fn zakon_obsahuje_uvnitr(a: Seq<char>, n: Seq<char>, b: Seq<char>)
    ensures
        obsahuje(a + n + b, n),
{
    let h = a + n + b;
    assert(h.subrange(a.len() as int, (a.len() + n.len()) as int) =~= n);
    assert(shoda_na(h, n, a.len() as int));
}

/// The characters of `h` from index `i` on are, one by one, those of `n`.
pub open spec fn stejne_od(h: Seq<char>, n: Seq<char>, i: int) -> bool {
    0 <= i && i + n.len() <= h.len() && forall|k: int| 0 <= k < n.len() ==> #[trigger] h[i + k] == n[k]
}

/// `n` occurs in `h` exactly when, from some index on, the characters of `h`
/// are one by one those of `n`.
pub proof fn zakon_obsahuje_okno(h: Seq<char>, n: Seq<char>)
    ensures
        obsahuje(h, n) <==> exists|i: int| #[trigger] stejne_od(h, n, i),
{
    if obsahuje(h, n) {
        let i = choose|i: int| #[trigger] shoda_na(h, n, i);
        assert forall|k: int| 0 <= k < n.len() implies #[trigger] h[i + k] == n[k] by {
            assert(h.subrange(i, i + n.len())[k] == h[i + k]);
        }
        assert(stejne_od(h, n, i));
    }
    if exists|i: int| #[trigger] stejne_od(h, n, i) {
        let i = choose|i: int| #[trigger] stejne_od(h, n, i);
        assert forall|k: int| 0 <= k < n.len() implies #[trigger] h.subrange(i, i + n.len())[k] == n[k] by {
            assert(h[i + k] == n[k]);
        }
        assert(h.subrange(i, i + n.len()) =~= n);
        assert(shoda_na(h, n, i));
    }
}


/// A text that begins with `p` is `p` followed by the rest: `p + x` begins
/// with `p`, and a text that begins with `p` is `p` and what follows.
pub proof fn zakon_zacina(p: Seq<char>, x: Seq<char>, s: Seq<char>)
    ensures
        zacina(p + x, p),
        zacina(s, p) ==> s =~= p + s.subrange(p.len() as int, s.len() as int),
{
    assert((p + x).subrange(0, p.len() as int) =~= p);
}

} // verus!
