//! Les textes : des suites de caractères, lues, comparées et assemblées.
//!
//! Tout ce que la surface écrit pour l'humain passe par ici. Un texte s'y voit comme la suite
//! de ses caractères (`Seq<char>`), et chaque opération dit ce qu'elle fait de cette suite.

use vstd::prelude::*;
use vstd::utf8::encode_utf8;

verus! {

/// Les caractères qu'Unicode tient pour des blancs (la propriété `White_Space`), ceux que
/// `str::trim` retire.
pub open spec fn est_blanc(c: char) -> bool {
    ||| ('\u{9}' <= c && c <= '\u{d}')
    ||| c == ' '
    ||| c == '\u{85}'
    ||| c == '\u{a0}'
    ||| c == '\u{1680}'
    ||| ('\u{2000}' <= c && c <= '\u{200a}')
    ||| c == '\u{2028}'
    ||| c == '\u{2029}'
    ||| c == '\u{202f}'
    ||| c == '\u{205f}'
    ||| c == '\u{3000}'
}

/// Le texte sans ses blancs de tête.
pub open spec fn sans_blancs_devant(s: Seq<char>) -> Seq<char>
    decreases s.len(),
{
    if s.len() > 0 && est_blanc(s[0]) {
        sans_blancs_devant(s.drop_first())
    } else {
        s
    }
}

/// Le texte sans ses blancs de queue.
pub open spec fn sans_blancs_derriere(s: Seq<char>) -> Seq<char>
    decreases s.len(),
{
    if s.len() > 0 && est_blanc(s.last()) {
        sans_blancs_derriere(s.drop_last())
    } else {
        s
    }
}

/// Le texte sans ses blancs aux deux bouts, comme `str::trim`.
pub open spec fn sans_blancs(s: Seq<char>) -> Seq<char> {
    sans_blancs_derriere(sans_blancs_devant(s))
}

/// Un texte qui ne commence ni ne finit par un blanc reste tel quel.
pub proof fn lemme_sans_blancs_identite(s: Seq<char>)
    requires
        s.len() == 0 || (!est_blanc(s[0]) && !est_blanc(s.last())),
    ensures
        sans_blancs(s) == s,
{
}

/// `p` ouvre `s`.
pub open spec fn commence_par(s: Seq<char>, p: Seq<char>) -> bool {
    p.len() <= s.len() && s.subrange(0, p.len() as int) == p
}

/// Le chiffre décimal d'une valeur de 0 à 9.
pub open spec fn chiffre(d: nat) -> char {
    if d == 0 { '0' }
    else if d == 1 { '1' }
    else if d == 2 { '2' }
    else if d == 3 { '3' }
    else if d == 4 { '4' }
    else if d == 5 { '5' }
    else if d == 6 { '6' }
    else if d == 7 { '7' }
    else if d == 8 { '8' }
    else { '9' }
}

/// L'écriture décimale d'un entier naturel, sans zéro de tête.
pub open spec fn decimal(n: nat) -> Seq<char>
    decreases n,
{
    if n < 10 {
        seq![chiffre(n)]
    } else {
        decimal(n / 10).push(chiffre(n % 10))
    }
}

/// L'écriture décimale sur deux chiffres au moins, comme `{:02}`.
pub open spec fn deux_chiffres(n: nat) -> Seq<char> {
    if n < 10 {
        seq!['0', chiffre(n)]
    } else {
        decimal(n)
    }
}

/// La minuscule ASCII d'un caractère ; les autres restent tels quels.
pub open spec fn minuscule(c: char) -> char {
    if 'A' <= c && c <= 'Z' {
        ((c as u32) + 32) as char
    } else {
        c
    }
}

/// Un texte en minuscules ASCII, comme `str::to_ascii_lowercase`.
pub open spec fn minuscules(s: Seq<char>) -> Seq<char> {
    s.map_values(|c: char| minuscule(c))
}

/// La minuscule ASCII d'un caractère.
pub fn minuscule_de(c: char) -> (r: char)
    ensures
        r == minuscule(c),
{
    if 'A' <= c && c <= 'Z' {
        let n: u8 = (c as u32 + 32) as u8;
        n as char
    } else {
        c
    }
}

/// Un texte en minuscules ASCII.
pub fn en_minuscules(v: &[char]) -> (r: Vec<char>)
    ensures
        r@ == minuscules(v@),
{
    let mut r: Vec<char> = Vec::new();
    for i in 0..v.len()
        invariant
            r@.len() == i,
            forall|k: int| 0 <= k < i ==> r@[k] == minuscule(v@[k]),
    {
        r.push(minuscule_de(v[i]));
    }
    assert(r@ == minuscules(v@));
    r
}

/// La taille d'un texte en octets UTF-8, telle que `str::len` la rend.
pub open spec fn taille(s: Seq<char>) -> int {
    (encode_utf8(s).len() as usize) as int
}

/// La taille d'un texte en octets UTF-8.
pub fn taille_de(s: &str) -> (n: usize)
    ensures
        n == taille(s@),
{
    s.len()
}

/// Le texte contient ce caractère.
pub fn contient_car(s: &str, c: char) -> (r: bool)
    ensures
        r == s@.contains(c),
{
    let v = caracteres(s);
    for i in 0..v.len()
        invariant
            v@ == s@,
            forall|k: int| 0 <= k < i ==> v@[k] != c,
    {
        if v[i] == c {
            assert(s@[i as int] == c);
            return true;
        }
    }
    false
}

/// Les textes d'une suite de `String`.
pub open spec fn vues(v: Seq<String>) -> Seq<Seq<char>> {
    v.map_values(|s: String| s@)
}

/// La suite contient ce texte.
pub fn contient_texte(v: &Vec<String>, s: &str) -> (r: bool)
    ensures
        r == vues(v@).contains(s@),
{
    for i in 0..v.len()
        invariant
            forall|k: int| 0 <= k < i ==> v@[k]@ != s@,
    {
        if egal(v[i].as_str(), s) {
            proof {
                assert(vues(v@)[i as int] == s@);
            }
            return true;
        }
    }
    false
}

/// Les caractères d'un texte, dans l'ordre.
pub fn caracteres(s: &str) -> (v: Vec<char>)
    ensures
        v@ == s@,
{
    let mut v: Vec<char> = Vec::new();
    for c in it: s.chars()
        invariant
            v@ == it.seq().take(it.index() as int),
            it.seq() == s@,
    {
        v.push(c);
    }
    v
}

/// Ajoute un caractère à la fin d'un texte.
#[verifier::external_body]
pub(crate) fn pousser(s: &mut String, c: char)
    ensures
        final(s)@ == old(s)@.push(c),
{
    s.push(c);
}

/// Ajoute un texte à la fin d'un autre.
pub(crate) fn ajouter(s: &mut String, t: &str)
    ensures
        final(s)@ == old(s)@ + t@,
{
    s.append(t);
}

/// Un texte fait d'une suite de caractères.
pub fn texte_de(v: &[char]) -> (s: String)
    ensures
        s@ == v@,
{
    let mut s = String::new();
    let mut i: usize = 0;
    while i < v.len()
        invariant
            i <= v.len(),
            s@ == v@.take(i as int),
        decreases v.len() - i,
    {
        pousser(&mut s, v[i]);
        assert(v@.take(i + 1) == v@.take(i as int).push(v@[i as int]));
        i = i + 1;
    }
    assert(v@.take(v.len() as int) == v@);
    s
}

/// Ajoute une suite de caractères à la fin d'un texte.
pub fn ajouter_car(s: &mut String, v: &[char])
    ensures
        final(s)@ == old(s)@ + v@,
{
    let mut i: usize = 0;
    while i < v.len()
        invariant
            i <= v.len(),
            s@ == old(s)@ + v@.take(i as int),
        decreases v.len() - i,
    {
        pousser(s, v[i]);
        assert(v@.take(i + 1) == v@.take(i as int).push(v@[i as int]));
        assert(old(s)@ + v@.take(i + 1) == (old(s)@ + v@.take(i as int)).push(v@[i as int]));
        i = i + 1;
    }
    assert(v@.take(v.len() as int) == v@);
}

/// Deux textes sont-ils les mêmes, caractère pour caractère ?
pub fn egal(a: &str, b: &str) -> (r: bool)
    ensures
        r == (a@ == b@),
{
    let va = caracteres(a);
    let vb = caracteres(b);
    egal_car(&va, &vb)
}

/// Deux suites de caractères sont-elles les mêmes ?
pub fn egal_car(a: &[char], b: &[char]) -> (r: bool)
    ensures
        r == (a@ == b@),
{
    if a.len() != b.len() {
        return false;
    }
    let mut i: usize = 0;
    while i < a.len()
        invariant
            i <= a.len(),
            a.len() == b.len(),
            a@.take(i as int) == b@.take(i as int),
        decreases a.len() - i,
    {
        if a[i] != b[i] {
            assert(a@[i as int] != b@[i as int]);
            return false;
        }
        assert(a@.take(i + 1) == a@.take(i as int).push(a@[i as int]));
        assert(b@.take(i + 1) == b@.take(i as int).push(b@[i as int]));
        i = i + 1;
    }
    assert(a@.take(a.len() as int) == a@);
    assert(b@.take(b.len() as int) == b@);
    true
}

/// `p` ouvre-t-il `s` ?
pub fn commence_par_car(s: &[char], p: &[char]) -> (r: bool)
    ensures
        r == commence_par(s@, p@),
{
    if p.len() > s.len() {
        return false;
    }
    let mut i: usize = 0;
    while i < p.len()
        invariant
            i <= p.len(),
            p.len() <= s.len(),
            s@.subrange(0, i as int) == p@.take(i as int),
        decreases p.len() - i,
    {
        if s[i] != p[i] {
            assert(s@.subrange(0, p.len() as int)[i as int] != p@[i as int]);
            return false;
        }
        assert(s@.subrange(0, i + 1) == s@.subrange(0, i as int).push(s@[i as int]));
        assert(p@.take(i + 1) == p@.take(i as int).push(p@[i as int]));
        i = i + 1;
    }
    assert(p@.take(p.len() as int) == p@);
    true
}

/// Le caractère est-il un blanc ?
pub fn blanc(c: char) -> (r: bool)
    ensures
        r == est_blanc(c),
{
    ('\u{9}' <= c && c <= '\u{d}') || c == ' ' || c == '\u{85}' || c == '\u{a0}' || c
        == '\u{1680}' || ('\u{2000}' <= c && c <= '\u{200a}') || c == '\u{2028}' || c
        == '\u{2029}' || c == '\u{202f}' || c == '\u{205f}' || c == '\u{3000}'
}

proof fn lemme_devant(s: Seq<char>, i: int)
    requires
        0 <= i <= s.len(),
        forall|k: int| 0 <= k < i ==> est_blanc(#[trigger] s[k]),
    ensures
        sans_blancs_devant(s) == sans_blancs_devant(s.subrange(i, s.len() as int)),
    decreases i,
{
    if i > 0 {
        assert(s.drop_first().subrange(i - 1, s.drop_first().len() as int) == s.subrange(
            i,
            s.len() as int,
        ));
        lemme_devant(s.drop_first(), i - 1);
    } else {
        assert(s.subrange(0, s.len() as int) == s);
    }
}

proof fn lemme_derriere(s: Seq<char>, j: int)
    requires
        0 <= j <= s.len(),
        forall|k: int| j <= k < s.len() ==> est_blanc(#[trigger] s[k]),
    ensures
        sans_blancs_derriere(s) == sans_blancs_derriere(s.subrange(0, j)),
    decreases s.len() - j,
{
    if j < s.len() {
        assert(s.drop_last().subrange(0, j) == s.subrange(0, j));
        lemme_derriere(s.drop_last(), j);
    } else {
        assert(s.subrange(0, s.len() as int) == s);
    }
}

/// Les bornes du texte sans ses blancs : `v[debut..fin]`.
pub fn bornes_sans_blancs(v: &[char]) -> (r: (usize, usize))
    ensures
        r.0 <= r.1 <= v.len(),
        v@.subrange(r.0 as int, r.1 as int) == sans_blancs(v@),
{
    let mut i: usize = 0;
    while i < v.len() && blanc(v[i])
        invariant
            i <= v.len(),
            forall|k: int| 0 <= k < i ==> est_blanc(#[trigger] v@[k]),
        decreases v.len() - i,
    {
        i = i + 1;
    }
    proof {
        lemme_devant(v@, i as int);
    }
    let ghost t = v@.subrange(i as int, v.len() as int);
    assert(sans_blancs_devant(t) == t);
    let mut j: usize = v.len();
    while j > i && blanc(v[j - 1])
        invariant
            i <= j <= v.len(),
            t == v@.subrange(i as int, v.len() as int),
            forall|k: int| j <= k < v.len() ==> est_blanc(#[trigger] v@[k]),
        decreases j,
    {
        j = j - 1;
    }
    proof {
        assert forall|k: int| j - i <= k < t.len() implies est_blanc(#[trigger] t[k]) by {
            assert(t[k] == v@[k + i]);
        }
        lemme_derriere(t, j - i);
        assert(t.subrange(0, j - i) == v@.subrange(i as int, j as int));
        assert(!(j > i) || !est_blanc(v@[j - 1]));
        assert(sans_blancs_derriere(v@.subrange(i as int, j as int)) == v@.subrange(
            i as int,
            j as int,
        ));
    }
    (i, j)
}

/// Le texte sans ses blancs aux deux bouts.
pub fn rogner(v: &[char]) -> (r: Vec<char>)
    ensures
        r@ == sans_blancs(v@),
{
    let (i, j) = bornes_sans_blancs(v);
    let mut r: Vec<char> = Vec::new();
    let mut k: usize = i;
    while k < j
        invariant
            i <= k <= j <= v.len(),
            r@ == v@.subrange(i as int, k as int),
        decreases j - k,
    {
        r.push(v[k]);
        assert(v@.subrange(i as int, k + 1) == v@.subrange(i as int, k as int).push(v@[k as int]));
        k = k + 1;
    }
    r
}

/// Une tranche d'une suite de caractères.
pub fn tranche(v: &[char], debut: usize, fin: usize) -> (r: Vec<char>)
    requires
        debut <= fin <= v.len(),
    ensures
        r@ == v@.subrange(debut as int, fin as int),
{
    let mut r: Vec<char> = Vec::new();
    let mut k: usize = debut;
    while k < fin
        invariant
            debut <= k <= fin <= v.len(),
            r@ == v@.subrange(debut as int, k as int),
        decreases fin - k,
    {
        r.push(v[k]);
        assert(v@.subrange(debut as int, k + 1) == v@.subrange(debut as int, k as int).push(
            v@[k as int],
        ));
        k = k + 1;
    }
    r
}

/// L'écriture décimale d'un entier.
pub fn ecrire_decimal(n: u64) -> (s: String)
    ensures
        s@ == decimal(n as nat),
    decreases n,
{
    if n < 10 {
        let mut s = String::new();
        pousser(&mut s, chiffre_de(n));
        s
    } else {
        let mut s = ecrire_decimal(n / 10);
        pousser(&mut s, chiffre_de(n % 10));
        s
    }
}

/// L'écriture sur deux chiffres au moins.
pub fn ecrire_deux_chiffres(n: u64) -> (s: String)
    ensures
        s@ == deux_chiffres(n as nat),
{
    if n < 10 {
        let mut s = String::new();
        pousser(&mut s, '0');
        pousser(&mut s, chiffre_de(n));
        s
    } else {
        ecrire_decimal(n)
    }
}

/// Le chiffre d'une valeur de 0 à 9.
pub fn chiffre_de(d: u64) -> (c: char)
    requires
        d < 10,
    ensures
        c == chiffre(d as nat),
{
    if d == 0 { '0' }
    else if d == 1 { '1' }
    else if d == 2 { '2' }
    else if d == 3 { '3' }
    else if d == 4 { '4' }
    else if d == 5 { '5' }
    else if d == 6 { '6' }
    else if d == 7 { '7' }
    else if d == 8 { '8' }
    else { '9' }
}

/// Ajoute l'écriture décimale d'un entier à un texte.
pub fn ajouter_decimal(s: &mut String, n: u64)
    ensures
        final(s)@ == old(s)@ + decimal(n as nat),
{
    let d = ecrire_decimal(n);
    ajouter(s, d.as_str());
}

/// `a` vient avant `b`, ou lui est égal, dans l'ordre des textes : caractère par caractère, par
/// point de code, un texte précédant ceux qu'il ouvre. C'est l'ordre de `str` en Rust, celui de
/// ses octets UTF-8.
pub open spec fn avant_ou_egal(a: Seq<char>, b: Seq<char>) -> bool
    decreases a.len(),
{
    if a.len() == 0 {
        true
    } else if b.len() == 0 {
        false
    } else if a[0] != b[0] {
        a[0] < b[0]
    } else {
        avant_ou_egal(a.drop_first(), b.drop_first())
    }
}

/// L'ordre des textes est total et transitif.
pub proof fn lemme_ordre_des_textes(a: Seq<char>, b: Seq<char>, c: Seq<char>)
    ensures
        avant_ou_egal(a, b) || avant_ou_egal(b, a),
        avant_ou_egal(a, b) && avant_ou_egal(b, c) ==> avant_ou_egal(a, c),
    decreases a.len(),
{
    if a.len() > 0 && b.len() > 0 && c.len() > 0 {
        lemme_ordre_des_textes(a.drop_first(), b.drop_first(), c.drop_first());
    } else if a.len() > 0 && b.len() > 0 {
        lemme_ordre_des_textes(a.drop_first(), b.drop_first(), c);
    }
}

/// Deux suites aux `i` premiers caractères communs se rangent comme leurs restes.
proof fn lemme_prefixe_commun(a: Seq<char>, b: Seq<char>, i: int)
    requires
        0 <= i <= a.len(),
        i <= b.len(),
        a.take(i) == b.take(i),
    ensures
        avant_ou_egal(a, b) == avant_ou_egal(a.skip(i), b.skip(i)),
    decreases i,
{
    if i > 0 {
        assert(a[0] == a.take(i)[0]);
        assert(b[0] == b.take(i)[0]);
        assert(a.drop_first().take(i - 1) =~= a.take(i).drop_first());
        assert(b.drop_first().take(i - 1) =~= b.take(i).drop_first());
        lemme_prefixe_commun(a.drop_first(), b.drop_first(), i - 1);
        assert(a.drop_first().skip(i - 1) =~= a.skip(i));
        assert(b.drop_first().skip(i - 1) =~= b.skip(i));
    } else {
        assert(a.skip(0) =~= a);
        assert(b.skip(0) =~= b);
    }
}

/// `a` vient-il avant `b`, ou lui est-il égal, dans l'ordre des textes ?
pub fn avant_ou_egal_texte(a: &str, b: &str) -> (r: bool)
    ensures
        r == avant_ou_egal(a@, b@),
{
    let va = caracteres(a);
    let vb = caracteres(b);
    let mut i: usize = 0;
    while i < va.len() && i < vb.len() && va[i] == vb[i]
        invariant
            i <= va@.len(),
            i <= vb@.len(),
            va@.take(i as int) == vb@.take(i as int),
        decreases va@.len() - i,
    {
        assert(va@.take(i + 1) == va@.take(i as int).push(va@[i as int]));
        assert(vb@.take(i + 1) == vb@.take(i as int).push(vb@[i as int]));
        i = i + 1;
    }
    proof {
        lemme_prefixe_commun(va@, vb@, i as int);
    }
    if i == va.len() {
        true
    } else if i == vb.len() {
        false
    } else {
        assert(va@.skip(i as int)[0] == va@[i as int]);
        assert(vb@.skip(i as int)[0] == vb@[i as int]);
        va[i] < vb[i]
    }
}

/// Un texte en minuscules au sens d'Unicode, tel que `str::to_lowercase` le rend (les tables de
/// casse d'Unicode, sigma final compris).
pub uninterp spec fn minuscules_unicode(s: Seq<char>) -> Seq<char>;

/// Un texte en minuscules, par `str::to_lowercase`.
#[verifier::external_body]
pub(crate) fn en_minuscules_unicode(s: &str) -> (r: String)
    ensures
        r@ == minuscules_unicode(s@),
{
    s.to_lowercase()
}

/// `q` figure dans `s` à partir de la place `i`.
pub open spec fn figure_a(s: Seq<char>, q: Seq<char>, i: int) -> bool {
    0 <= i && i + q.len() <= s.len() && s.subrange(i, i + q.len()) == q
}

/// `q` figure quelque part dans `s` ; le texte vide figure partout.
pub open spec fn contient_sous(s: Seq<char>, q: Seq<char>) -> bool {
    exists|i: int| #[trigger] figure_a(s, q, i)
}

fn figure_a_exec(s: &[char], q: &[char], i: usize) -> (r: bool)
    requires
        i + q@.len() <= s@.len(),
    ensures
        r == figure_a(s@, q@, i as int),
{
    let n = s.len();
    let mut j: usize = 0;
    while j < q.len()
        invariant
            n == s@.len(),
            i + q@.len() <= s@.len(),
            j <= q@.len(),
            s@.subrange(i as int, i + j) == q@.take(j as int),
        decreases q@.len() - j,
    {
        assert(i + j < s@.len());
        if s[i + j] != q[j] {
            assert(s@.subrange(i as int, i + q@.len())[j as int] != q@[j as int]);
            return false;
        }
        assert(s@.subrange(i as int, i + j + 1) == s@.subrange(i as int, i + j).push(s@[i + j]));
        assert(q@.take(j + 1) == q@.take(j as int).push(q@[j as int]));
        j = j + 1;
    }
    assert(q@.take(q@.len() as int) == q@);
    true
}

/// `q` figure-t-il quelque part dans `s` ?
pub fn contient_sous_texte(s: &[char], q: &[char]) -> (r: bool)
    ensures
        r == contient_sous(s@, q@),
{
    if q.len() > s.len() {
        assert forall|i: int| !figure_a(s@, q@, i) by {}
        return false;
    }
    if q.len() == 0 {
        assert(s@.subrange(0, 0) =~= q@);
        assert(figure_a(s@, q@, 0));
        return true;
    }
    let fin = s.len() - q.len();
    let mut i: usize = 0;
    while i <= fin
        invariant
            q@.len() <= s@.len(),
            0 < q@.len(),
            fin == s@.len() - q@.len(),
            fin < usize::MAX,
            i <= fin + 1,
            forall|k: int| 0 <= k < i ==> !#[trigger] figure_a(s@, q@, k),
        decreases fin + 1 - i,
    {
        if figure_a_exec(s, q, i) {
            return true;
        }
        i = i + 1;
    }
    assert forall|k: int| !#[trigger] figure_a(s@, q@, k) by {
        if 0 <= k < i {
        }
    }
    false
}

} // verus!
