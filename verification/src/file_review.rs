//! La comparaison des deux versions d'un fichier, ligne à ligne.
//!
//! Le préfixe et le suffixe communs sont conservés tels quels ; le milieu restant est aligné par
//! la plus longue sous-suite commune de ses lignes, sauf quand il est trop grand pour la table :
//! il se lit alors en bloc, ce qui disparaît puis ce qui apparaît.

use vstd::prelude::*;
use crate::texte::{caracteres, contient_car, egal, egal_car, taille, taille_de, texte_de};

verus! {

/// La nature d'une ligne comparée.
#[derive(Clone, Copy, Debug, PartialEq, Eq, Structural)]
pub enum Kind {
    /// Présente des deux côtés.
    Equal,
    /// Présente avant seulement.
    Removed,
    /// Présente après seulement.
    Added,
}

/// Une ligne de la comparaison : ses numéros de chaque côté (à partir de 1) et son texte, fin
/// de ligne comprise.
pub struct Line {
    /// Numéro de la ligne dans la version d'avant.
    pub before: Option<usize>,
    /// Numéro de la ligne dans la version d'après.
    pub after: Option<usize>,
    /// Ce qu'elle est.
    pub kind: Kind,
    /// Son texte.
    pub text: String,
}

/// La comparaison complète.
pub struct Comparison {
    /// Les lignes, dans l'ordre de lecture.
    pub rows: Vec<Line>,
    /// Le milieu était trop grand pour être aligné : il se lit en bloc.
    pub grouped: bool,
}

/// Une ligne comparée, réduite à ses positions (à partir de 0) de chaque côté.
pub type Paire = (Option<int>, Option<int>);

/// Les lignes d'un texte, chacune avec sa fin de ligne, comme `str::split_inclusive('\n')`.
pub open spec fn morceaux(s: Seq<char>) -> Seq<Seq<char>>
    decreases s.len(),
{
    if s.len() == 0 {
        seq![]
    } else {
        let p = morceaux(s.drop_last());
        let c = s.last();
        if p.len() == 0 || p.last().last() == '\n' {
            p.push(seq![c])
        } else {
            p.update(p.len() - 1, p.last().push(c))
        }
    }
}

/// Des lignes mises bout à bout.
pub open spec fn joindre(p: Seq<Seq<char>>) -> Seq<char>
    decreases p.len(),
{
    if p.len() == 0 {
        seq![]
    } else {
        joindre(p.drop_last()) + p.last()
    }
}

/// Le nombre de lignes communes en tête.
pub open spec fn prefixe(a: Seq<Seq<char>>, b: Seq<Seq<char>>) -> nat
    decreases a.len(),
{
    if a.len() == 0 || b.len() == 0 || a[0] != b[0] {
        0
    } else {
        1 + prefixe(a.drop_first(), b.drop_first())
    }
}

/// Le nombre de lignes communes en queue.
pub open spec fn suffixe(a: Seq<Seq<char>>, b: Seq<Seq<char>>) -> nat
    decreases a.len(),
{
    if a.len() == 0 || b.len() == 0 || a.last() != b.last() {
        0
    } else {
        1 + suffixe(a.drop_last(), b.drop_last())
    }
}

/// La longueur de la plus longue sous-suite commune de `a[i..]` et `b[j..]`.
pub open spec fn lcs(a: Seq<Seq<char>>, b: Seq<Seq<char>>, i: int, j: int) -> nat
    decreases a.len() - i, b.len() - j,
{
    if i < 0 || j < 0 || i >= a.len() || j >= b.len() {
        0
    } else if a[i] == b[j] {
        1 + lcs(a, b, i + 1, j + 1)
    } else {
        let x = lcs(a, b, i + 1, j);
        let y = lcs(a, b, i, j + 1);
        if x >= y { x } else { y }
    }
}

/// L'alignement du milieu, lu depuis `(i, j)` : une ligne commune quand les deux se
/// répondent ; sinon la suppression tant qu'elle ne coûte rien à la sous-suite commune, sinon
/// l'ajout. Les positions sont décalées de `p`, la longueur du préfixe.
pub open spec fn trace(a: Seq<Seq<char>>, b: Seq<Seq<char>>, i: int, j: int, p: int) -> Seq<Paire>
    decreases a.len() - i, b.len() - j,
{
    if i < 0 || j < 0 || i > a.len() || j > b.len() || (i == a.len() && j == b.len()) {
        seq![]
    } else if i < a.len() && j < b.len() && a[i] == b[j] {
        seq![(Some(p + i), Some(p + j))] + trace(a, b, i + 1, j + 1, p)
    } else if i < a.len() && (j == b.len() || lcs(a, b, i + 1, j) >= lcs(a, b, i, j + 1)) {
        seq![(Some(p + i), None::<int>)] + trace(a, b, i + 1, j, p)
    } else if j < b.len() {
        seq![(None::<int>, Some(p + j))] + trace(a, b, i, j + 1, p)
    } else {
        seq![]
    }
}

/// Le milieu est trop grand pour la table d'alignement : plus d'un million de paires.
pub open spec fn trop_grand(oc: int, nc: int) -> bool {
    oc * nc > 1_000_000
}

/// La comparaison de deux suites de lignes, réduite aux positions.
pub open spec fn comparaison(a: Seq<Seq<char>>, b: Seq<Seq<char>>) -> Seq<Paire> {
    let p = prefixe(a, b) as int;
    let s = suffixe(a.skip(p), b.skip(p)) as int;
    let oc = a.len() - p - s;
    let nc = b.len() - p - s;
    let am = a.subrange(p, p + oc);
    let bm = b.subrange(p, p + nc);
    let milieu = if trop_grand(oc, nc) {
        Seq::new(oc as nat, |k: int| (Some(p + k), None::<int>)) + Seq::new(
            nc as nat,
            |k: int| (None::<int>, Some(p + k)),
        )
    } else {
        trace(am, bm, 0, 0, p)
    };
    Seq::new(p as nat, |k: int| (Some(k), Some(k))) + milieu + Seq::new(
        s as nat,
        |k: int| (Some(a.len() - s + k), Some(b.len() - s + k)),
    )
}

/// La nature d'une paire.
pub open spec fn nature_de(p: Paire) -> Kind {
    if p.0 is Some && p.1 is Some {
        Kind::Equal
    } else if p.0 is Some {
        Kind::Removed
    } else {
        Kind::Added
    }
}

/// Un numéro de ligne, à partir de 1.
pub open spec fn numero(o: Option<int>) -> Option<usize> {
    match o {
        Some(i) => Some((i + 1) as usize),
        None => None,
    }
}

/// La ligne `l` est la paire `p` des lignes `a` et `b`.
pub open spec fn conforme(l: Line, p: Paire, a: Seq<Seq<char>>, b: Seq<Seq<char>>) -> bool {
    &&& l.before == numero(p.0)
    &&& l.after == numero(p.1)
    &&& l.kind == nature_de(p)
    &&& l.text@ == (match p.0 {
        Some(i) => a[i],
        None => b[p.1->0],
    })
}

/// Les positions d'avant, dans l'ordre des paires.
pub open spec fn cote_avant(ps: Seq<Paire>) -> Seq<int>
    decreases ps.len(),
{
    if ps.len() == 0 {
        seq![]
    } else {
        match ps.last().0 {
            Some(i) => cote_avant(ps.drop_last()).push(i),
            None => cote_avant(ps.drop_last()),
        }
    }
}

/// Les positions d'après, dans l'ordre des paires.
pub open spec fn cote_apres(ps: Seq<Paire>) -> Seq<int>
    decreases ps.len(),
{
    if ps.len() == 0 {
        seq![]
    } else {
        match ps.last().1 {
            Some(j) => cote_apres(ps.drop_last()).push(j),
            None => cote_apres(ps.drop_last()),
        }
    }
}

/// Le nombre de lignes communes.
pub open spec fn communes(ps: Seq<Paire>) -> nat
    decreases ps.len(),
{
    if ps.len() == 0 {
        0
    } else if ps.last().0 is Some && ps.last().1 is Some {
        communes(ps.drop_last()) + 1
    } else {
        communes(ps.drop_last())
    }
}

/// Les textes des lignes présentes avant, dans l'ordre.
pub open spec fn textes_avant(rows: Seq<Line>) -> Seq<Seq<char>>
    decreases rows.len(),
{
    if rows.len() == 0 {
        seq![]
    } else if rows.last().before is Some {
        textes_avant(rows.drop_last()).push(rows.last().text@)
    } else {
        textes_avant(rows.drop_last())
    }
}

/// Les textes des lignes présentes après, dans l'ordre.
pub open spec fn textes_apres(rows: Seq<Line>) -> Seq<Seq<char>>
    decreases rows.len(),
{
    if rows.len() == 0 {
        seq![]
    } else if rows.last().after is Some {
        textes_apres(rows.drop_last()).push(rows.last().text@)
    } else {
        textes_apres(rows.drop_last())
    }
}

/// Les positions `d`, `d + 1`, …, `d + n - 1`.
pub open spec fn suite(d: int, n: int) -> Seq<int> {
    Seq::new(n as nat, |k: int| d + k)
}

// ---------------------------------------------------------------------------------------------
// Les lignes d'un texte.

proof fn lemme_morceaux(s: Seq<char>)
    ensures
        joindre(morceaux(s)) == s,
        forall|k: int| 0 <= k < morceaux(s).len() ==> #[trigger] morceaux(s)[k].len() > 0,
    decreases s.len(),
{
    if s.len() > 0 {
        let p = morceaux(s.drop_last());
        lemme_morceaux(s.drop_last());
        let c = s.last();
        if p.len() == 0 || p.last().last() == '\n' {
            assert(p.push(seq![c]).drop_last() == p);
            assert(s.drop_last() + seq![c] == s);
        } else {
            let q = p.update(p.len() - 1, p.last().push(c));
            assert(q.drop_last() == p.drop_last());
            assert(joindre(p) == joindre(p.drop_last()) + p.last());
            assert(joindre(q) == joindre(p.drop_last()) + p.last().push(c));
            assert(s == s.drop_last().push(c));
        }
    }
}

/// Les lignes d'une suite de caractères.
fn couper(v: &[char]) -> (r: Vec<Vec<char>>)
    ensures
        r@.len() == morceaux(v@).len(),
        forall|k: int| 0 <= k < r@.len() ==> (#[trigger] r@[k])@ == morceaux(v@)[k],
{
    let mut r: Vec<Vec<char>> = Vec::new();
    let mut i: usize = 0;
    while i < v.len()
        invariant
            i <= v.len(),
            r@.len() == morceaux(v@.take(i as int)).len(),
            forall|k: int| 0 <= k < r@.len() ==> (#[trigger] r@[k])@ == morceaux(v@.take(i as int))[k],
        decreases v.len() - i,
    {
        let c = v[i];
        let ghost avant = v@.take(i as int);
        assert(v@.take(i + 1).drop_last() == avant);
        assert(v@.take(i + 1).last() == c);
        let nouveau = r.len() == 0 || {
            let n = r[r.len() - 1].len();
            n == 0 || r[r.len() - 1][n - 1] == '\n'
        };
        proof {
            lemme_morceaux(avant);
        }
        if nouveau {
            let mut m: Vec<char> = Vec::new();
            m.push(c);
            r.push(m);
        } else {
            let mut m = r.pop().unwrap();
            m.push(c);
            r.push(m);
        }
        i = i + 1;
    }
    assert(v@.take(v.len() as int) == v@);
    r
}

// ---------------------------------------------------------------------------------------------
// Préfixe et suffixe communs.

proof fn lemme_prefixe(a: Seq<Seq<char>>, b: Seq<Seq<char>>, k: int)
    requires
        0 <= k <= a.len(),
        k <= b.len(),
        forall|t: int| 0 <= t < k ==> #[trigger] a[t] == b[t],
    ensures
        prefixe(a, b) == k + prefixe(a.skip(k), b.skip(k)),
    decreases k,
{
    if k > 0 {
        assert(a.drop_first().skip(k - 1) == a.skip(k));
        assert(b.drop_first().skip(k - 1) == b.skip(k));
        lemme_prefixe(a.drop_first(), b.drop_first(), k - 1);
    } else {
        assert(a.skip(0) == a);
        assert(b.skip(0) == b);
    }
}

proof fn lemme_suffixe(a: Seq<Seq<char>>, b: Seq<Seq<char>>, k: int)
    requires
        0 <= k <= a.len(),
        k <= b.len(),
        forall|t: int| 0 <= t < k ==> #[trigger] a[a.len() - 1 - t] == b[b.len() - 1 - t],
    ensures
        suffixe(a, b) == k + suffixe(a.take(a.len() - k), b.take(b.len() - k)),
    decreases k,
{
    if k > 0 {
        assert(a.drop_last().take(a.drop_last().len() - (k - 1)) == a.take(a.len() - k));
        assert(b.drop_last().take(b.drop_last().len() - (k - 1)) == b.take(b.len() - k));
        assert forall|t: int| 0 <= t < k - 1 implies #[trigger] a.drop_last()[a.drop_last().len()
            - 1 - t] == b.drop_last()[b.drop_last().len() - 1 - t] by {
            assert(a[a.len() - 1 - (t + 1)] == b[b.len() - 1 - (t + 1)]);
        }
        assert(a[a.len() - 1 - 0] == b[b.len() - 1 - 0]);
        lemme_suffixe(a.drop_last(), b.drop_last(), k - 1);
    } else {
        assert(a.take(a.len() as int) == a);
        assert(b.take(b.len() as int) == b);
    }
}

// ---------------------------------------------------------------------------------------------
// La plus longue sous-suite commune et l'alignement.

proof fn lemme_lcs_borne(a: Seq<Seq<char>>, b: Seq<Seq<char>>, i: int, j: int)
    requires
        0 <= i <= a.len(),
        0 <= j <= b.len(),
    ensures
        lcs(a, b, i, j) <= a.len() - i,
        lcs(a, b, i, j) <= b.len() - j,
    decreases a.len() - i, b.len() - j,
{
    if i < a.len() && j < b.len() {
        if a[i] == b[j] {
            lemme_lcs_borne(a, b, i + 1, j + 1);
        } else {
            lemme_lcs_borne(a, b, i + 1, j);
            lemme_lcs_borne(a, b, i, j + 1);
        }
    }
}

proof fn lemme_trace(a: Seq<Seq<char>>, b: Seq<Seq<char>>, i: int, j: int, p: int)
    requires
        0 <= i <= a.len(),
        0 <= j <= b.len(),
    ensures
        cote_avant(trace(a, b, i, j, p)) == suite(p + i, a.len() - i),
        cote_apres(trace(a, b, i, j, p)) == suite(p + j, b.len() - j),
        communes(trace(a, b, i, j, p)) == lcs(a, b, i, j),
        forall|k: int| 0 <= k < trace(a, b, i, j, p).len() ==> {
            let q = #[trigger] trace(a, b, i, j, p)[k];
            (q.0 is Some && q.1 is Some) ==> a[q.0->0 - p] == b[q.1->0 - p]
        },
        forall|k: int| 0 <= k < trace(a, b, i, j, p).len() ==> {
            let q = #[trigger] trace(a, b, i, j, p)[k];
            &&& q.0 is Some ==> p + i <= q.0->0 < p + a.len()
            &&& q.1 is Some ==> p + j <= q.1->0 < p + b.len()
            &&& (q.0 is Some || q.1 is Some)
        },
    decreases a.len() - i, b.len() - j,
{
    let t = trace(a, b, i, j, p);
    if i == a.len() && j == b.len() {
        assert(suite(p + i, 0) =~= seq![]);
        assert(suite(p + j, 0) =~= seq![]);
    } else {
        let (tete, i2, j2) = if i < a.len() && j < b.len() && a[i] == b[j] {
            ((Some(p + i), Some(p + j)), i + 1, j + 1)
        } else if i < a.len() && (j == b.len() || lcs(a, b, i + 1, j) >= lcs(a, b, i, j + 1)) {
            ((Some(p + i), None::<int>), i + 1, j)
        } else {
            ((None::<int>, Some(p + j)), i, j + 1)
        };
        lemme_trace(a, b, i2, j2, p);
        let r = trace(a, b, i2, j2, p);
        assert(t == seq![tete] + r);
        lemme_tete(tete, r);
        if tete.0 is Some {
            assert(suite(p + i, a.len() - i) =~= seq![p + i] + suite(p + i2, a.len() - i2));
        } else {
            assert(i2 == i);
        }
        if tete.1 is Some {
            assert(suite(p + j, b.len() - j) =~= seq![p + j] + suite(p + j2, b.len() - j2));
        } else {
            assert(j2 == j);
        }
        assert forall|k: int| 0 <= k < t.len() implies {
            let q = #[trigger] t[k];
            (q.0 is Some && q.1 is Some) ==> a[q.0->0 - p] == b[q.1->0 - p]
        } by {
            if k > 0 {
                assert(t[k] == r[k - 1]);
            }
        }
        assert forall|k: int| 0 <= k < t.len() implies {
            let q = #[trigger] t[k];
            &&& q.0 is Some ==> p + i <= q.0->0 < p + a.len()
            &&& q.1 is Some ==> p + j <= q.1->0 < p + b.len()
            &&& (q.0 is Some || q.1 is Some)
        } by {
            if k > 0 {
                assert(t[k] == r[k - 1]);
            }
        }
    }
}

proof fn lemme_tete(tete: Paire, r: Seq<Paire>)
    ensures
        cote_avant(seq![tete] + r) == (match tete.0 {
            Some(i) => seq![i] + cote_avant(r),
            None => cote_avant(r),
        }),
        cote_apres(seq![tete] + r) == (match tete.1 {
            Some(j) => seq![j] + cote_apres(r),
            None => cote_apres(r),
        }),
        communes(seq![tete] + r) == communes(r) + (if tete.0 is Some && tete.1 is Some {
            1nat
        } else {
            0nat
        }),
{
    lemme_concat(seq![tete], r);
    let u = seq![tete];
    assert(u.drop_last() =~= seq![]);
    assert(u.last() == tete);
    assert(cote_avant(u.drop_last()) =~= seq![]);
    assert(cote_apres(u.drop_last()) =~= seq![]);
    assert(communes(u.drop_last()) == 0);
    match tete.0 {
        Some(i) => {
            assert(cote_avant(u) == cote_avant(u.drop_last()).push(i));
            assert(cote_avant(u) =~= seq![i]);
        },
        None => {
            assert(cote_avant(u) =~= seq![]);
        },
    }
    match tete.1 {
        Some(j) => {
            assert(cote_apres(u) == cote_apres(u.drop_last()).push(j));
            assert(cote_apres(u) =~= seq![j]);
        },
        None => {
            assert(cote_apres(u) =~= seq![]);
        },
    }
    assert(cote_avant(u) + cote_avant(r) == (match tete.0 {
        Some(i) => seq![i] + cote_avant(r),
        None => cote_avant(r),
    }));
    assert(cote_apres(u) + cote_apres(r) == (match tete.1 {
        Some(j) => seq![j] + cote_apres(r),
        None => cote_apres(r),
    }));
}

proof fn lemme_concat(x: Seq<Paire>, y: Seq<Paire>)
    ensures
        cote_avant(x + y) == cote_avant(x) + cote_avant(y),
        cote_apres(x + y) == cote_apres(x) + cote_apres(y),
        communes(x + y) == communes(x) + communes(y),
    decreases y.len(),
{
    if y.len() == 0 {
        assert(x + y == x);
        assert(cote_avant(y) =~= seq![]);
        assert(cote_apres(y) =~= seq![]);
    } else {
        lemme_concat(x, y.drop_last());
        assert((x + y).drop_last() == x + y.drop_last());
        assert((x + y).last() == y.last());
    }
}

proof fn lemme_droites(d: int, e: int, n: int)
    requires
        n >= 0,
    ensures
        cote_avant(Seq::new(n as nat, |k: int| (Some(d + k), Some(e + k)))) == suite(d, n),
        cote_apres(Seq::new(n as nat, |k: int| (Some(d + k), Some(e + k)))) == suite(e, n),
        communes(Seq::new(n as nat, |k: int| (Some(d + k), Some(e + k)))) == n,
    decreases n,
{
    let s = Seq::new(n as nat, |k: int| (Some(d + k), Some(e + k)));
    if n > 0 {
        lemme_droites(d, e, n - 1);
        assert(s.drop_last() == Seq::new((n - 1) as nat, |k: int| (Some(d + k), Some(e + k))));
        assert(suite(d, n) == suite(d, n - 1).push(d + n - 1));
        assert(suite(e, n) == suite(e, n - 1).push(e + n - 1));
    } else {
        assert(suite(d, 0) =~= seq![]);
        assert(suite(e, 0) =~= seq![]);
    }
}

proof fn lemme_gauches(d: int, n: int)
    requires
        n >= 0,
    ensures
        cote_avant(Seq::new(n as nat, |k: int| (Some(d + k), None::<int>))) == suite(d, n),
        cote_apres(Seq::new(n as nat, |k: int| (Some(d + k), None::<int>))) =~= seq![],
        communes(Seq::new(n as nat, |k: int| (Some(d + k), None::<int>))) == 0,
    decreases n,
{
    let s = Seq::new(n as nat, |k: int| (Some(d + k), None::<int>));
    if n > 0 {
        lemme_gauches(d, n - 1);
        assert(s.drop_last() == Seq::new((n - 1) as nat, |k: int| (Some(d + k), None::<int>)));
        assert(suite(d, n) == suite(d, n - 1).push(d + n - 1));
    } else {
        assert(suite(d, 0) =~= seq![]);
    }
}

proof fn lemme_ajouts(e: int, n: int)
    requires
        n >= 0,
    ensures
        cote_avant(Seq::new(n as nat, |k: int| (None::<int>, Some(e + k)))) =~= seq![],
        cote_apres(Seq::new(n as nat, |k: int| (None::<int>, Some(e + k)))) == suite(e, n),
        communes(Seq::new(n as nat, |k: int| (None::<int>, Some(e + k)))) == 0,
    decreases n,
{
    let s = Seq::new(n as nat, |k: int| (None::<int>, Some(e + k)));
    if n > 0 {
        lemme_ajouts(e, n - 1);
        assert(s.drop_last() == Seq::new((n - 1) as nat, |k: int| (None::<int>, Some(e + k))));
        assert(suite(e, n) == suite(e, n - 1).push(e + n - 1));
    } else {
        assert(suite(e, 0) =~= seq![]);
    }
}

proof fn lemme_suites(d: int, n: int, m: int)
    requires
        n >= 0,
        m >= 0,
    ensures
        suite(d, n) + suite(d + n, m) == suite(d, n + m),
{
    assert(suite(d, n) + suite(d + n, m) =~= suite(d, n + m));
}

/// Les positions de la comparaison : toutes les lignes d'avant et toutes celles d'après, chacune
/// une fois et dans l'ordre ; chaque ligne commune relie deux lignes identiques ; hors bloc, le
/// nombre de lignes communes est celui du préfixe, du suffixe et de la plus longue sous-suite
/// commune du milieu.
pub proof fn loi_comparaison(a: Seq<Seq<char>>, b: Seq<Seq<char>>)
    ensures
        cote_avant(comparaison(a, b)) == suite(0, a.len() as int),
        cote_apres(comparaison(a, b)) == suite(0, b.len() as int),
        forall|k: int| 0 <= k < comparaison(a, b).len() ==> {
            let q = #[trigger] comparaison(a, b)[k];
            &&& q.0 is Some ==> 0 <= q.0->0 < a.len()
            &&& q.1 is Some ==> 0 <= q.1->0 < b.len()
            &&& (q.0 is Some || q.1 is Some)
            &&& (q.0 is Some && q.1 is Some) ==> a[q.0->0] == b[q.1->0]
        },
        ({
            let p = prefixe(a, b) as int;
            let s = suffixe(a.skip(p), b.skip(p)) as int;
            let oc = a.len() - p - s;
            let nc = b.len() - p - s;
            !trop_grand(oc, nc) ==> communes(comparaison(a, b)) == p + s + lcs(
                a.subrange(p, p + oc),
                b.subrange(p, p + nc),
                0,
                0,
            )
        }),
{
    let p = prefixe(a, b) as int;
    lemme_prefixe_borne(a, b);
    let s = suffixe(a.skip(p), b.skip(p)) as int;
    lemme_suffixe_borne(a.skip(p), b.skip(p));
    let oc = a.len() - p - s;
    let nc = b.len() - p - s;
    let am = a.subrange(p, p + oc);
    let bm = b.subrange(p, p + nc);
    let tete = Seq::new(p as nat, |k: int| (Some(0 + k), Some(0 + k)));
    assert(tete == Seq::new(p as nat, |k: int| (Some(k), Some(k))));
    let queue = Seq::new(s as nat, |k: int| (Some((a.len() - s) + k), Some((b.len() - s) + k)));
    let milieu = if trop_grand(oc, nc) {
        Seq::new(oc as nat, |k: int| (Some(p + k), None::<int>)) + Seq::new(
            nc as nat,
            |k: int| (None::<int>, Some(p + k)),
        )
    } else {
        trace(am, bm, 0, 0, p)
    };
    let c = comparaison(a, b);
    assert(c == tete + milieu + queue);
    lemme_droites(0, 0, p);
    lemme_droites(a.len() - s, b.len() - s, s);
    if trop_grand(oc, nc) {
        let g = Seq::new(oc as nat, |k: int| (Some(p + k), None::<int>));
        let d = Seq::new(nc as nat, |k: int| (None::<int>, Some(p + k)));
        lemme_gauches(p, oc);
        lemme_ajouts(p, nc);
        lemme_concat(g, d);
        assert(cote_avant(milieu) == suite(p, oc));
        assert(cote_apres(milieu) == suite(p, nc));
    } else {
        lemme_trace(am, bm, 0, 0, p);
    }
    lemme_concat(tete, milieu);
    lemme_concat(tete + milieu, queue);
    lemme_suites(0, p, oc);
    lemme_suites(0, p + oc, s);
    lemme_suites(0, p, nc);
    lemme_suites(0, p + nc, s);
    lemme_prefixe_egal(a, b);
    lemme_suffixe_egal(a.skip(p), b.skip(p));
    assert forall|k: int| 0 <= k < c.len() implies {
        let q = #[trigger] c[k];
        &&& q.0 is Some ==> 0 <= q.0->0 < a.len()
        &&& q.1 is Some ==> 0 <= q.1->0 < b.len()
        &&& (q.0 is Some || q.1 is Some)
        &&& (q.0 is Some && q.1 is Some) ==> a[q.0->0] == b[q.1->0]
    } by {
        if k < p {
            assert(c[k] == tete[k]);
        } else if k < p + milieu.len() {
            assert(c[k] == milieu[k - p]);
            if !trop_grand(oc, nc) {
                let q = milieu[k - p];
                if q.0 is Some && q.1 is Some {
                    assert(am[q.0->0 - p] == bm[q.1->0 - p]);
                }
            } else if k - p < oc {
                assert(milieu[k - p] == (Some(p + (k - p)), None::<int>));
            } else {
                assert(milieu[k - p] == (None::<int>, Some(p + (k - p - oc))));
            }
        } else {
            let t = k - p - milieu.len();
            assert(c[k] == queue[t]);
            assert(a.skip(p)[a.skip(p).len() - 1 - (s - 1 - t)] == b.skip(p)[b.skip(p).len() - 1
                - (s - 1 - t)]);
        }
    }
}

proof fn lemme_prefixe_borne(a: Seq<Seq<char>>, b: Seq<Seq<char>>)
    ensures
        prefixe(a, b) <= a.len(),
        prefixe(a, b) <= b.len(),
    decreases a.len(),
{
    if a.len() > 0 && b.len() > 0 && a[0] == b[0] {
        lemme_prefixe_borne(a.drop_first(), b.drop_first());
    }
}

proof fn lemme_suffixe_borne(a: Seq<Seq<char>>, b: Seq<Seq<char>>)
    ensures
        suffixe(a, b) <= a.len(),
        suffixe(a, b) <= b.len(),
    decreases a.len(),
{
    if a.len() > 0 && b.len() > 0 && a.last() == b.last() {
        lemme_suffixe_borne(a.drop_last(), b.drop_last());
    }
}

proof fn lemme_prefixe_egal(a: Seq<Seq<char>>, b: Seq<Seq<char>>)
    ensures
        forall|t: int| 0 <= t < prefixe(a, b) ==> #[trigger] a[t] == b[t],
    decreases a.len(),
{
    if a.len() > 0 && b.len() > 0 && a[0] == b[0] {
        lemme_prefixe_egal(a.drop_first(), b.drop_first());
        lemme_prefixe_borne(a.drop_first(), b.drop_first());
        assert forall|t: int| 0 <= t < prefixe(a, b) implies #[trigger] a[t] == b[t] by {
            if t > 0 {
                assert(a.drop_first()[t - 1] == b.drop_first()[t - 1]);
            }
        }
    }
}

proof fn lemme_suffixe_egal(a: Seq<Seq<char>>, b: Seq<Seq<char>>)
    ensures
        forall|t: int|
            0 <= t < suffixe(a, b) ==> #[trigger] a[a.len() - 1 - t] == b[b.len() - 1 - t],
    decreases a.len(),
{
    if a.len() > 0 && b.len() > 0 && a.last() == b.last() {
        lemme_suffixe_egal(a.drop_last(), b.drop_last());
        lemme_suffixe_borne(a.drop_last(), b.drop_last());
        assert forall|t: int| 0 <= t < suffixe(a, b) implies #[trigger] a[a.len() - 1 - t] == b[b.len()
            - 1 - t] by {
            if t > 0 {
                assert(a.drop_last()[a.drop_last().len() - 1 - (t - 1)] == b.drop_last()[b.drop_last().len()
                    - 1 - (t - 1)]);
            }
        }
    }
}


proof fn lemme_lcs_prefixe(a: Seq<Seq<char>>, b: Seq<Seq<char>>, p: int, i: int)
    requires
        0 <= i <= p,
        p <= a.len(),
        p <= b.len(),
        forall|k: int| 0 <= k < p ==> #[trigger] a[k] == b[k],
    ensures
        lcs(a, b, i, i) == (p - i) + lcs(a, b, p, p),
    decreases p - i,
{
    if i < p {
        assert(a[i] == b[i]);
        lemme_lcs_prefixe(a, b, p, i + 1);
    }
}

proof fn lemme_lcs_queue(a: Seq<Seq<char>>, b: Seq<Seq<char>>, i: int, j: int)
    requires
        a.len() > 0,
        b.len() > 0,
        a.last() == b.last(),
        0 <= i < a.len(),
        0 <= j < b.len(),
    ensures
        lcs(a, b, i, j) == lcs(a.drop_last(), b.drop_last(), i, j) + 1,
    decreases a.len() - i, b.len() - j,
{
    let x = a.drop_last();
    let y = b.drop_last();
    if i == x.len() && j == y.len() {
        assert(a[i] == b[j]);
        assert(lcs(a, b, i + 1, j + 1) == 0);
        assert(lcs(x, y, i, j) == 0);
    } else if i == x.len() {
        assert(lcs(x, y, i, j) == 0);
        if b[j] != a[i] {
            lemme_lcs_queue(a, b, i, j + 1);
            assert(lcs(x, y, i, j + 1) == 0);
            assert(lcs(a, b, i + 1, j) == 0);
        } else {
            assert(lcs(a, b, i + 1, j + 1) == 0);
        }
    } else if j == y.len() {
        assert(lcs(x, y, i, j) == 0);
        if a[i] != b[j] {
            lemme_lcs_queue(a, b, i + 1, j);
            assert(lcs(x, y, i + 1, j) == 0);
            assert(lcs(a, b, i, j + 1) == 0);
        } else {
            assert(lcs(a, b, i + 1, j + 1) == 0);
        }
    } else {
        assert(a[i] == x[i] && b[j] == y[j]);
        if a[i] == b[j] {
            lemme_lcs_queue(a, b, i + 1, j + 1);
        } else {
            lemme_lcs_queue(a, b, i + 1, j);
            lemme_lcs_queue(a, b, i, j + 1);
        }
    }
}

proof fn lemme_lcs_suffixe(a: Seq<Seq<char>>, b: Seq<Seq<char>>, s: int, i: int, j: int)
    requires
        0 <= s,
        0 <= i,
        0 <= j,
        s <= a.len() - i,
        s <= b.len() - j,
        forall|t: int| 0 <= t < s ==> #[trigger] a[a.len() - 1 - t] == b[b.len() - 1 - t],
    ensures
        lcs(a, b, i, j) == lcs(a.subrange(0, a.len() - s), b.subrange(0, b.len() - s), i, j) + s,
    decreases s,
{
    if s == 0 {
        assert(a.subrange(0, a.len() as int) =~= a);
        assert(b.subrange(0, b.len() as int) =~= b);
    } else {
        assert(a[a.len() - 1 - 0] == b[b.len() - 1 - 0]);
        lemme_lcs_queue(a, b, i, j);
        let x = a.drop_last();
        let y = b.drop_last();
        assert forall|t: int| 0 <= t < s - 1 implies #[trigger] x[x.len() - 1 - t] == y[y.len() - 1
            - t] by {
            assert(a[a.len() - 1 - (t + 1)] == b[b.len() - 1 - (t + 1)]);
        }
        lemme_lcs_suffixe(x, y, s - 1, i, j);
        assert(x.subrange(0, x.len() - (s - 1)) =~= a.subrange(0, a.len() - s));
        assert(y.subrange(0, y.len() - (s - 1)) =~= b.subrange(0, b.len() - s));
    }
}

proof fn lemme_lcs_decale(a: Seq<Seq<char>>, b: Seq<Seq<char>>, p: int, i: int, j: int)
    requires
        0 <= p <= i,
        p <= j,
        p <= a.len(),
        p <= b.len(),
    ensures
        lcs(a, b, i, j) == lcs(a.skip(p), b.skip(p), i - p, j - p),
    decreases a.len() - i, b.len() - j,
{
    if i < a.len() && j < b.len() {
        assert(a.skip(p)[i - p] == a[i] && b.skip(p)[j - p] == b[j]);
        if a[i] == b[j] {
            lemme_lcs_decale(a, b, p, i + 1, j + 1);
        } else {
            lemme_lcs_decale(a, b, p, i + 1, j);
            lemme_lcs_decale(a, b, p, i, j + 1);
        }
    }
}

/// Hors bloc, la comparaison garde autant de lignes communes que la plus longue sous-suite
/// commune des deux textes entiers : retirer d'abord le préfixe et le suffixe communs ne fait
/// rien perdre.
pub proof fn loi_les_lignes_communes_sont_la_plus_longue_sous_suite(
    a: Seq<Seq<char>>,
    b: Seq<Seq<char>>,
)
    ensures
        ({
            let p = prefixe(a, b) as int;
            let s = suffixe(a.skip(p), b.skip(p)) as int;
            !trop_grand(a.len() - p - s, b.len() - p - s) ==> communes(comparaison(a, b)) == lcs(
                a,
                b,
                0,
                0,
            )
        }),
{
    loi_comparaison(a, b);
    let p = prefixe(a, b) as int;
    lemme_prefixe_borne(a, b);
    lemme_prefixe_egal(a, b);
    let a2 = a.skip(p);
    let b2 = b.skip(p);
    let s = suffixe(a2, b2) as int;
    lemme_suffixe_borne(a2, b2);
    lemme_suffixe_egal(a2, b2);
    let oc = a.len() - p - s;
    let nc = b.len() - p - s;
    lemme_lcs_prefixe(a, b, p, 0);
    lemme_lcs_decale(a, b, p, p, p);
    assert forall|t: int| 0 <= t < s implies #[trigger] a2[a2.len() - 1 - t] == b2[b2.len() - 1
        - t] by {}
    lemme_lcs_suffixe(a2, b2, s, 0, 0);
    assert(a2.subrange(0, a2.len() - s) =~= a.subrange(p, p + oc));
    assert(b2.subrange(0, b2.len() - s) =~= b.subrange(p, p + nc));
}

// ---------------------------------------------------------------------------------------------
// La comparaison exécutable.

/// Le milieu de `a` et `b` est-il trop grand pour être aligné ?
pub open spec fn en_bloc(a: Seq<Seq<char>>, b: Seq<Seq<char>>) -> bool {
    let p = prefixe(a, b) as int;
    let s = suffixe(a.skip(p), b.skip(p)) as int;
    trop_grand(a.len() - p - s, b.len() - p - s)
}

/// Les lignes `la` et `lb` sont celles de `a` et `b`.
pub open spec fn lignes_de(la: Seq<Vec<char>>, a: Seq<Seq<char>>) -> bool {
    &&& la.len() == a.len()
    &&& la.len() <= isize::MAX
    &&& forall|k: int| 0 <= k < la.len() ==> (#[trigger] la[k])@ == a[k]
}

fn ligne(la: &Vec<Vec<char>>, lb: &Vec<Vec<char>>, i: Option<usize>, j: Option<usize>) -> (l: Line)
    requires
        i is Some ==> i->0 < la@.len(),
        j is Some ==> j->0 < lb@.len(),
        i is Some || j is Some,
    ensures
        conforme(
            l,
            (
                match i {
                    Some(v) => Some(v as int),
                    None => None,
                },
                match j {
                    Some(v) => Some(v as int),
                    None => None,
                },
            ),
            la@.map_values(|v: Vec<char>| v@),
            lb@.map_values(|v: Vec<char>| v@),
        ),
{
    let n_old = la.len();
    let n_new = lb.len();
    let before = match i {
        Some(v) => Some(v + 1),
        None => None,
    };
    let after = match j {
        Some(v) => Some(v + 1),
        None => None,
    };
    let kind = match (i, j) {
        (Some(_), Some(_)) => Kind::Equal,
        (Some(_), None) => Kind::Removed,
        _ => Kind::Added,
    };
    let text = match i {
        Some(v) => texte_de(la[v].as_slice()),
        None => texte_de(lb[j.unwrap()].as_slice()),
    };
    Line { before, after, kind, text }
}

proof fn lemme_textes(rows: Seq<Line>, ps: Seq<Paire>, a: Seq<Seq<char>>, b: Seq<Seq<char>>)
    requires
        rows.len() == ps.len(),
        forall|k: int| 0 <= k < rows.len() ==> conforme(#[trigger] rows[k], ps[k], a, b),
        forall|k: int| 0 <= k < ps.len() ==> {
            let q = #[trigger] ps[k];
            &&& q.0 is Some ==> 0 <= q.0->0 < a.len()
            &&& q.1 is Some ==> 0 <= q.1->0 < b.len()
            &&& (q.0 is Some || q.1 is Some)
            &&& (q.0 is Some && q.1 is Some) ==> a[q.0->0] == b[q.1->0]
        },
    ensures
        textes_avant(rows) == cote_avant(ps).map_values(|i: int| a[i]),
        textes_apres(rows) == cote_apres(ps).map_values(|j: int| b[j]),
    decreases rows.len(),
{
    if rows.len() > 0 {
        let r2 = rows.drop_last();
        let p2 = ps.drop_last();
        assert forall|k: int| 0 <= k < r2.len() implies conforme(#[trigger] r2[k], p2[k], a, b) by {
            assert(r2[k] == rows[k]);
            assert(p2[k] == ps[k]);
        }
        assert forall|k: int| 0 <= k < p2.len() implies {
            let q = #[trigger] p2[k];
            &&& q.0 is Some ==> 0 <= q.0->0 < a.len()
            &&& q.1 is Some ==> 0 <= q.1->0 < b.len()
            &&& (q.0 is Some || q.1 is Some)
            &&& (q.0 is Some && q.1 is Some) ==> a[q.0->0] == b[q.1->0]
        } by {
            assert(p2[k] == ps[k]);
        }
        lemme_textes(r2, p2, a, b);
        let l = rows.last();
        let q = ps.last();
        assert(conforme(rows[rows.len() - 1], ps[ps.len() - 1], a, b));
        match q.0 {
            Some(i) => {
                assert(cote_avant(ps) == cote_avant(p2).push(i));
                assert(cote_avant(ps).map_values(|i: int| a[i]) =~= cote_avant(p2).map_values(
                    |i: int| a[i],
                ).push(a[i]));
            },
            None => {},
        }
        match q.1 {
            Some(j) => {
                assert(cote_apres(ps) == cote_apres(p2).push(j));
                assert(cote_apres(ps).map_values(|j: int| b[j]) =~= cote_apres(p2).map_values(
                    |j: int| b[j],
                ).push(b[j]));
            },
            None => {},
        }
    } else {
        assert(cote_avant(ps).map_values(|i: int| a[i]) =~= seq![]);
        assert(cote_apres(ps).map_values(|j: int| b[j]) =~= seq![]);
    }
}


/// Les lignes `rows` sont les paires `ps` des lignes `a` et `b`.
pub open spec fn conformes(rows: Seq<Line>, ps: Seq<Paire>, a: Seq<Seq<char>>, b: Seq<Seq<char>>) -> bool {
    &&& rows.len() == ps.len()
    &&& forall|k: int| 0 <= k < rows.len() ==> conforme(#[trigger] rows[k], ps[k], a, b)
}

/// Le nombre de lignes d'un texte ne dépasse pas son nombre de caractères.
proof fn lemme_morceaux_borne(s: Seq<char>)
    ensures
        morceaux(s).len() <= s.len(),
    decreases s.len(),
{
    if s.len() > 0 {
        lemme_morceaux_borne(s.drop_last());
    }
}

fn prefixe_commun(la: &Vec<Vec<char>>, lb: &Vec<Vec<char>>, Ghost(a): Ghost<Seq<Seq<char>>>, Ghost(b): Ghost<Seq<Seq<char>>>) -> (p: usize)
    requires
        lignes_de(la@, a),
        lignes_de(lb@, b),
    ensures
        p == prefixe(a, b),
        p <= la@.len(),
        p <= lb@.len(),
{
    let mut prefix: usize = 0;
    while prefix < la.len() && prefix < lb.len() && egal_car(
        la[prefix].as_slice(),
        lb[prefix].as_slice(),
    )
        invariant
            prefix <= la@.len(),
            prefix <= lb@.len(),
            lignes_de(la@, a),
            lignes_de(lb@, b),
            forall|t: int| 0 <= t < prefix ==> #[trigger] a[t] == b[t],
        decreases la@.len() - prefix,
    {
        prefix = prefix + 1;
    }
    proof {
        lemme_prefixe(a, b, prefix as int);
        if prefix < a.len() && prefix < b.len() {
            assert(a.skip(prefix as int)[0] == a[prefix as int]);
            assert(b.skip(prefix as int)[0] == b[prefix as int]);
        }
        assert(prefixe(a.skip(prefix as int), b.skip(prefix as int)) == 0);
    }
    prefix
}

fn suffixe_commun(
    la: &Vec<Vec<char>>,
    lb: &Vec<Vec<char>>,
    prefix: usize,
    Ghost(a): Ghost<Seq<Seq<char>>>,
    Ghost(b): Ghost<Seq<Seq<char>>>,
) -> (s: usize)
    requires
        lignes_de(la@, a),
        lignes_de(lb@, b),
        prefix <= la@.len(),
        prefix <= lb@.len(),
    ensures
        s == suffixe(a.skip(prefix as int), b.skip(prefix as int)),
        prefix + s <= la@.len(),
        prefix + s <= lb@.len(),
{
    let ghost ap = a.skip(prefix as int);
    let ghost bp = b.skip(prefix as int);
    let mut suffix: usize = 0;
    while suffix < la.len() - prefix && suffix < lb.len() - prefix && egal_car(
        la[la.len() - 1 - suffix].as_slice(),
        lb[lb.len() - 1 - suffix].as_slice(),
    )
        invariant
            prefix <= la@.len(),
            prefix <= lb@.len(),
            suffix <= la@.len() - prefix,
            suffix <= lb@.len() - prefix,
            lignes_de(la@, a),
            lignes_de(lb@, b),
            ap == a.skip(prefix as int),
            bp == b.skip(prefix as int),
            forall|t: int| 0 <= t < suffix ==> #[trigger] ap[ap.len() - 1 - t] == bp[bp.len() - 1 - t],
        decreases la@.len() - suffix,
    {
        assert(ap[ap.len() - 1 - suffix] == a[la.len() - 1 - suffix]);
        assert(bp[bp.len() - 1 - suffix] == b[lb.len() - 1 - suffix]);
        suffix = suffix + 1;
    }
    proof {
        lemme_suffixe(ap, bp, suffix as int);
        let at = ap.take(ap.len() - suffix);
        let bt = bp.take(bp.len() - suffix);
        if at.len() > 0 && bt.len() > 0 {
            assert(at.last() == a[la.len() - 1 - suffix]);
            assert(bt.last() == b[lb.len() - 1 - suffix]);
        }
        assert(suffixe(at, bt) == 0);
    }
    suffix
}

/// Ajoute `n` lignes communes, de `d` et `e` en montant.
fn droites(
    rows: &mut Vec<Line>,
    la: &Vec<Vec<char>>,
    lb: &Vec<Vec<char>>,
    d: usize,
    e: usize,
    n: usize,
    Ghost(a): Ghost<Seq<Seq<char>>>,
    Ghost(b): Ghost<Seq<Seq<char>>>,
    Ghost(base): Ghost<Seq<Paire>>,
)
    requires
        lignes_de(la@, a),
        lignes_de(lb@, b),
        d + n <= la@.len(),
        e + n <= lb@.len(),
        conformes(old(rows)@, base, a, b),
    ensures
        conformes(
            final(rows)@,
            base + Seq::new(n as nat, |k: int| (Some(d + k), Some(e + k))),
            a,
            b,
        ),
{
    let ghost cible = Seq::new(n as nat, |k: int| (Some(d + k), Some(e + k)));
    let mut k: usize = 0;
    while k < n
        invariant
            k <= n,
            d + n <= la@.len(),
            e + n <= lb@.len(),
            lignes_de(la@, a),
            lignes_de(lb@, b),
            cible == Seq::new(n as nat, |k: int| (Some(d + k), Some(e + k))),
            conformes(rows@, base + cible.take(k as int), a, b),
        decreases n - k,
    {
        let l = ligne(la, lb, Some(d + k), Some(e + k));
        rows.push(l);
        assert(base + cible.take(k + 1) =~= (base + cible.take(k as int)).push(
            (Some(d + k), Some(e + k)),
        ));
        k = k + 1;
    }
    assert(cible.take(n as int) =~= cible);
}

/// Ajoute `oc` suppressions depuis `d`, puis `nc` ajouts depuis `d`.
fn en_bloc_exec(
    rows: &mut Vec<Line>,
    la: &Vec<Vec<char>>,
    lb: &Vec<Vec<char>>,
    d: usize,
    oc: usize,
    nc: usize,
    Ghost(a): Ghost<Seq<Seq<char>>>,
    Ghost(b): Ghost<Seq<Seq<char>>>,
    Ghost(base): Ghost<Seq<Paire>>,
)
    requires
        lignes_de(la@, a),
        lignes_de(lb@, b),
        d + oc <= la@.len(),
        d + nc <= lb@.len(),
        conformes(old(rows)@, base, a, b),
    ensures
        conformes(
            final(rows)@,
            base + (Seq::new(oc as nat, |k: int| (Some(d + k), None::<int>)) + Seq::new(
                nc as nat,
                |k: int| (None::<int>, Some(d + k)),
            )),
            a,
            b,
        ),
{
    let ghost g = Seq::new(oc as nat, |k: int| (Some(d + k), None::<int>));
    let ghost h = Seq::new(nc as nat, |k: int| (None::<int>, Some(d + k)));
    let mut k: usize = 0;
    while k < oc
        invariant
            k <= oc,
            d + oc <= la@.len(),
            lignes_de(la@, a),
            lignes_de(lb@, b),
            g == Seq::new(oc as nat, |k: int| (Some(d + k), None::<int>)),
            conformes(rows@, base + g.take(k as int), a, b),
        decreases oc - k,
    {
        let l = ligne(la, lb, Some(d + k), None);
        rows.push(l);
        assert(base + g.take(k + 1) =~= (base + g.take(k as int)).push((Some(d + k), None::<int>)));
        k = k + 1;
    }
    assert(g.take(oc as int) =~= g);
    let mut k: usize = 0;
    while k < nc
        invariant
            k <= nc,
            d + nc <= lb@.len(),
            lignes_de(la@, a),
            lignes_de(lb@, b),
            h == Seq::new(nc as nat, |k: int| (None::<int>, Some(d + k))),
            conformes(rows@, base + g + h.take(k as int), a, b),
        decreases nc - k,
    {
        let l = ligne(la, lb, None, Some(d + k));
        rows.push(l);
        assert(base + g + h.take(k + 1) =~= (base + g + h.take(k as int)).push(
            (None::<int>, Some(d + k)),
        ));
        k = k + 1;
    }
    assert(h.take(nc as int) =~= h);
    assert(base + g + h =~= base + (g + h));
}

/// Ajoute l'alignement du milieu, lu dans la table.
fn aligner(
    rows: &mut Vec<Line>,
    la: &Vec<Vec<char>>,
    lb: &Vec<Vec<char>>,
    prefix: usize,
    oc: usize,
    nc: usize,
    Ghost(a): Ghost<Seq<Seq<char>>>,
    Ghost(b): Ghost<Seq<Seq<char>>>,
    Ghost(base): Ghost<Seq<Paire>>,
)
    requires
        lignes_de(la@, a),
        lignes_de(lb@, b),
        prefix + oc <= la@.len(),
        prefix + nc <= lb@.len(),
        oc <= 1000 || nc <= 1000,
        conformes(old(rows)@, base, a, b),
    ensures
        conformes(
            final(rows)@,
            base + trace(
                a.subrange(prefix as int, prefix + oc),
                b.subrange(prefix as int, prefix + nc),
                0,
                0,
                prefix as int,
            ),
            a,
            b,
        ),
{
    let ghost p = prefix as int;
    let ghost am = a.subrange(p, p + oc);
    let ghost bm = b.subrange(p, p + nc);
    let rev = table(la, lb, prefix, oc, nc, Ghost(am), Ghost(bm));
    let mut i: usize = 0;
    let mut j: usize = 0;
    let ghost mut emis: Seq<Paire> = seq![];
    while i < oc || j < nc
        invariant
            i <= oc,
            j <= nc,
            prefix + oc <= la@.len(),
            prefix + nc <= lb@.len(),
            p == prefix,
            lignes_de(la@, a),
            lignes_de(lb@, b),
            am == a.subrange(p, p + oc),
            bm == b.subrange(p, p + nc),
            rev@.len() == oc + 1,
            forall|t: int| 0 <= t <= oc ==> (#[trigger] rev@[t]@).len() == nc + 1,
            forall|t: int, jj: int|
                0 <= t <= oc && 0 <= jj <= nc ==> #[trigger] rev@[t]@[jj] == lcs(am, bm, oc - t, jj),
            trace(am, bm, 0, 0, p) == emis + trace(am, bm, i as int, j as int, p),
            conformes(rows@, base + emis, a, b),
        decreases oc - i + nc - j,
    {
        let ghost avant = trace(am, bm, i as int, j as int, p);
        let egaux = i < oc && j < nc && egal_car(
            la[prefix + i].as_slice(),
            lb[prefix + j].as_slice(),
        );
        if i < oc {
            assert(am[i as int] == a[p + i]);
        }
        if j < nc {
            assert(bm[j as int] == b[p + j]);
        }
        if egaux {
            let l = ligne(la, lb, Some(prefix + i), Some(prefix + j));
            rows.push(l);
            proof {
                assert(avant == seq![(Some(p + i), Some(p + j))] + trace(am, bm, i + 1, j + 1, p));
                assert(base + emis.push((Some(p + i), Some(p + j))) =~= (base + emis).push(
                    (Some(p + i), Some(p + j)),
                ));
                assert(emis.push((Some(p + i), Some(p + j))) + trace(am, bm, i + 1, j + 1, p)
                    =~= emis + avant);
                emis = emis.push((Some(p + i), Some(p + j)));
            }
            i = i + 1;
            j = j + 1;
        } else {
            let retirer = i < oc && (j == nc || {
                let x = rev[oc - i - 1][j];
                let y = rev[oc - i][j + 1];
                x >= y
            });
            if i < oc && j < nc {
                assert(rev@[oc - i - 1]@[j as int] == lcs(am, bm, i + 1, j as int));
                assert(rev@[oc - i]@[j + 1] == lcs(am, bm, i as int, j + 1));
            }
            if retirer {
                let l = ligne(la, lb, Some(prefix + i), None);
                rows.push(l);
                proof {
                    assert(avant == seq![(Some(p + i), None::<int>)] + trace(am, bm, i + 1, j as int, p));
                    assert(base + emis.push((Some(p + i), None::<int>)) =~= (base + emis).push(
                        (Some(p + i), None::<int>),
                    ));
                    assert(emis.push((Some(p + i), None::<int>)) + trace(am, bm, i + 1, j as int, p)
                        =~= emis + avant);
                    emis = emis.push((Some(p + i), None::<int>));
                }
                i = i + 1;
            } else {
                let l = ligne(la, lb, None, Some(prefix + j));
                rows.push(l);
                proof {
                    assert(avant == seq![(None::<int>, Some(p + j))] + trace(am, bm, i as int, j + 1, p));
                    assert(base + emis.push((None::<int>, Some(p + j))) =~= (base + emis).push(
                        (None::<int>, Some(p + j)),
                    ));
                    assert(emis.push((None::<int>, Some(p + j))) + trace(am, bm, i as int, j + 1, p)
                        =~= emis + avant);
                    emis = emis.push((None::<int>, Some(p + j)));
                }
                j = j + 1;
            }
        }
    }
    assert(trace(am, bm, oc as int, nc as int, p) =~= seq![]);
    assert(emis =~= trace(am, bm, 0, 0, p));
}

/// Les numéros d'avant des lignes, dans l'ordre des lignes.
pub open spec fn numeros_avant(rows: Seq<Line>) -> Seq<usize>
    decreases rows.len(),
{
    if rows.len() == 0 {
        seq![]
    } else if rows.last().before is Some {
        numeros_avant(rows.drop_last()).push(rows.last().before->0)
    } else {
        numeros_avant(rows.drop_last())
    }
}

/// Les numéros d'après des lignes, dans l'ordre des lignes.
pub open spec fn numeros_apres(rows: Seq<Line>) -> Seq<usize>
    decreases rows.len(),
{
    if rows.len() == 0 {
        seq![]
    } else if rows.last().after is Some {
        numeros_apres(rows.drop_last()).push(rows.last().after->0)
    } else {
        numeros_apres(rows.drop_last())
    }
}

/// Les numéros `1`, `2`, …, `n`.
pub open spec fn de_un_a(n: int) -> Seq<usize> {
    Seq::new(n as nat, |k: int| (k + 1) as usize)
}

proof fn lemme_numeros(rows: Seq<Line>, ps: Seq<Paire>, a: Seq<Seq<char>>, b: Seq<Seq<char>>)
    requires
        conformes(rows, ps, a, b),
    ensures
        numeros_avant(rows) == cote_avant(ps).map_values(|i: int| (i + 1) as usize),
        numeros_apres(rows) == cote_apres(ps).map_values(|j: int| (j + 1) as usize),
    decreases rows.len(),
{
    if rows.len() > 0 {
        let r2 = rows.drop_last();
        let p2 = ps.drop_last();
        assert forall|k: int| 0 <= k < r2.len() implies conforme(#[trigger] r2[k], p2[k], a, b) by {
            assert(r2[k] == rows[k] && p2[k] == ps[k]);
        }
        lemme_numeros(r2, p2, a, b);
        assert(conforme(rows[rows.len() - 1], ps[ps.len() - 1], a, b));
        assert(numeros_avant(rows) =~= cote_avant(ps).map_values(|i: int| (i + 1) as usize));
        assert(numeros_apres(rows) =~= cote_apres(ps).map_values(|j: int| (j + 1) as usize));
    } else {
        assert(numeros_avant(rows) =~= cote_avant(ps).map_values(|i: int| (i + 1) as usize));
        assert(numeros_apres(rows) =~= cote_apres(ps).map_values(|j: int| (j + 1) as usize));
    }
}

/// Les lignes d'une comparaison numérotent chaque texte en entier : les lignes présentes avant
/// portent les numéros 1 à n dans l'ordre, celles présentes après 1 à m ; aucune ligne n'est
/// absente des deux côtés ; une ligne est commune exactement quand elle est des deux côtés,
/// et son texte est alors celui des deux lignes qu'elle relie ; supprimée quand elle n'est
/// qu'avant, ajoutée quand elle n'est qu'après.
pub proof fn loi_numeros_des_lignes(before: Seq<char>, after: Seq<char>, rows: Seq<Line>)
    requires
        before.len() <= isize::MAX,
        after.len() <= isize::MAX,
        conformes(
            rows,
            comparaison(morceaux(before), morceaux(after)),
            morceaux(before),
            morceaux(after),
        ),
    ensures
        numeros_avant(rows) == de_un_a(morceaux(before).len() as int),
        numeros_apres(rows) == de_un_a(morceaux(after).len() as int),
        forall|k: int|
            0 <= k < rows.len() ==> {
                let l = #[trigger] rows[k];
                &&& (l.before is Some || l.after is Some)
                &&& (l.kind == Kind::Equal) == (l.before is Some && l.after is Some)
                &&& (l.kind == Kind::Removed) == (l.before is Some && l.after is None)
                &&& (l.kind == Kind::Added) == (l.before is None && l.after is Some)
                &&& l.kind == Kind::Equal ==> l.text@ == morceaux(before)[l.before->0 - 1]
                    && l.text@ == morceaux(after)[l.after->0 - 1]
            },
{
    let a = morceaux(before);
    let b = morceaux(after);
    let ps = comparaison(a, b);
    loi_comparaison(a, b);
    lemme_morceaux_borne(before);
    lemme_morceaux_borne(after);
    lemme_numeros(rows, ps, a, b);
    assert(suite(0, a.len() as int).map_values(|i: int| (i + 1) as usize) =~= de_un_a(
        a.len() as int,
    ));
    assert(suite(0, b.len() as int).map_values(|j: int| (j + 1) as usize) =~= de_un_a(
        b.len() as int,
    ));
    assert forall|k: int| 0 <= k < rows.len() implies {
        let l = #[trigger] rows[k];
        &&& (l.before is Some || l.after is Some)
        &&& (l.kind == Kind::Equal) == (l.before is Some && l.after is Some)
        &&& (l.kind == Kind::Removed) == (l.before is Some && l.after is None)
        &&& (l.kind == Kind::Added) == (l.before is None && l.after is Some)
        &&& l.kind == Kind::Equal ==> l.text@ == a[l.before->0 - 1] && l.text@ == b[l.after->0
            - 1]
    } by {
        let q = ps[k];
        assert(conforme(rows[k], q, a, b));
        assert(q.0 is Some ==> 0 <= q.0->0 < a.len());
        assert(q.1 is Some ==> 0 <= q.1->0 < b.len());
        if q.0 is Some {
            assert(((q.0->0 + 1) as usize) as int == q.0->0 + 1);
        }
        if q.1 is Some {
            assert(((q.1->0 + 1) as usize) as int == q.1->0 + 1);
        }
    }
}

/// Compare deux versions d'un texte, ligne à ligne.
pub fn lines(before: &str, after: &str) -> (c: Comparison)
    requires
        before@.len() <= isize::MAX,
        after@.len() <= isize::MAX,
    ensures
        conformes(c.rows@, comparaison(morceaux(before@), morceaux(after@)), morceaux(before@), morceaux(after@)),
        c.grouped == en_bloc(morceaux(before@), morceaux(after@)),
        joindre(textes_avant(c.rows@)) == before@,
        joindre(textes_apres(c.rows@)) == after@,
{
    let bv = caracteres(before);
    let av = caracteres(after);
    let la = couper(bv.as_slice());
    let lb = couper(av.as_slice());
    let ghost a = morceaux(before@);
    let ghost b = morceaux(after@);
    proof {
        lemme_morceaux_borne(before@);
        lemme_morceaux_borne(after@);
    }
    let prefix = prefixe_commun(&la, &lb, Ghost(a), Ghost(b));
    let suffix = suffixe_commun(&la, &lb, prefix, Ghost(a), Ghost(b));
    let old_end = la.len() - suffix;
    let new_end = lb.len() - suffix;
    let oc = old_end - prefix;
    let nc = new_end - prefix;
    let grouped = match oc.checked_mul(nc) {
        Some(m) => m > 1_000_000,
        None => true,
    };
    assert(grouped == en_bloc(a, b));
    let mut rows: Vec<Line> = Vec::new();
    let ghost vide: Seq<Paire> = seq![];
    droites(&mut rows, &la, &lb, 0, 0, prefix, Ghost(a), Ghost(b), Ghost(vide));
    let ghost tete = Seq::new(prefix as nat, |k: int| (Some(0 + k), Some(0 + k)));
    assert(vide + tete =~= Seq::new(prefix as nat, |k: int| (Some(k), Some(k))));
    let ghost base = Seq::new(prefix as nat, |k: int| (Some(k), Some(k)));
    let ghost p = prefix as int;
    let ghost milieu = if trop_grand(oc as int, nc as int) {
        Seq::new(oc as nat, |k: int| (Some(p + k), None::<int>)) + Seq::new(
            nc as nat,
            |k: int| (None::<int>, Some(p + k)),
        )
    } else {
        trace(a.subrange(p, p + oc), b.subrange(p, p + nc), 0, 0, p)
    };
    if grouped {
        en_bloc_exec(&mut rows, &la, &lb, prefix, oc, nc, Ghost(a), Ghost(b), Ghost(base));
    } else {
        proof {
            assert(oc <= 1000 || nc <= 1000) by (nonlinear_arith)
                requires
                    oc * nc <= 1_000_000,
            ;
        }
        aligner(&mut rows, &la, &lb, prefix, oc, nc, Ghost(a), Ghost(b), Ghost(base));
    }
    droites(
        &mut rows,
        &la,
        &lb,
        old_end,
        new_end,
        suffix,
        Ghost(a),
        Ghost(b),
        Ghost(base + milieu),
    );
    proof {
        let s = suffix as int;
        assert(base + milieu + Seq::new(s as nat, |k: int| (Some(old_end + k), Some(new_end + k)))
            =~= comparaison(a, b));
        let out = comparaison(a, b);
        loi_comparaison(a, b);
        lemme_textes(rows@, out, a, b);
        assert(cote_avant(out).map_values(|i: int| a[i]) =~= a);
        assert(cote_apres(out).map_values(|j: int| b[j]) =~= b);
        lemme_morceaux(before@);
        lemme_morceaux(after@);
    }
    Comparison { rows, grouped }
}

/// La table de la plus longue sous-suite commune du milieu, lue de bas en haut : `rev[t][j]`
/// vaut `lcs(oc - t, j)`.
fn table(
    la: &Vec<Vec<char>>,
    lb: &Vec<Vec<char>>,
    prefix: usize,
    oc: usize,
    nc: usize,
    Ghost(am): Ghost<Seq<Seq<char>>>,
    Ghost(bm): Ghost<Seq<Seq<char>>>,
) -> (rev: Vec<Vec<u32>>)
    requires
        prefix + oc <= la@.len(),
        prefix + nc <= lb@.len(),
        la@.len() <= isize::MAX,
        lb@.len() <= isize::MAX,
        oc <= 1000 || nc <= 1000,
        am.len() == oc,
        bm.len() == nc,
        forall|t: int| 0 <= t < oc ==> (#[trigger] am[t]) == la@[prefix + t]@,
        forall|t: int| 0 <= t < nc ==> (#[trigger] bm[t]) == lb@[prefix + t]@,
    ensures
        rev@.len() == oc + 1,
        forall|t: int| 0 <= t <= oc ==> (#[trigger] rev@[t]@).len() == nc + 1,
            forall|t: int, jj: int|
                0 <= t <= oc && 0 <= jj <= nc ==> #[trigger] rev@[t]@[jj] == lcs(am, bm, oc - t, jj),
{
    let mut rev: Vec<Vec<u32>> = Vec::new();
    let derniere: Vec<u32> = vec![0u32; nc + 1];
    rev.push(derniere);
    let mut t: usize = 1;
    while t <= oc
        invariant
            1 <= t <= oc + 1,
            prefix + oc <= la@.len(),
            prefix + nc <= lb@.len(),
            la@.len() <= isize::MAX,
            lb@.len() <= isize::MAX,
            oc <= 1000 || nc <= 1000,
            am.len() == oc,
            bm.len() == nc,
            forall|t: int| 0 <= t < oc ==> (#[trigger] am[t]) == la@[prefix + t]@,
            forall|t: int| 0 <= t < nc ==> (#[trigger] bm[t]) == lb@[prefix + t]@,
            rev@.len() == t,
            forall|tt: int| 0 <= tt < t ==> (#[trigger] rev@[tt]@).len() == nc + 1,
            forall|tt: int, jj: int|
                0 <= tt < t && 0 <= jj <= nc ==> #[trigger] rev@[tt]@[jj] == lcs(am, bm, oc - tt, jj),
        decreases oc + 1 - t,
    {
        let i = oc - t;
        let mut row: Vec<u32> = vec![0u32; nc + 1];
        let mut j: usize = nc;
        while j > 0
            invariant
                j <= nc,
                i < oc,
                i == oc - t,
                prefix + oc <= la@.len(),
                prefix + nc <= lb@.len(),
                la@.len() <= isize::MAX,
                lb@.len() <= isize::MAX,
                oc <= 1000 || nc <= 1000,
                am.len() == oc,
                bm.len() == nc,
                forall|t: int| 0 <= t < oc ==> (#[trigger] am[t]) == la@[prefix + t]@,
                forall|t: int| 0 <= t < nc ==> (#[trigger] bm[t]) == lb@[prefix + t]@,
                rev@.len() == t,
                forall|tt: int| 0 <= tt < t ==> (#[trigger] rev@[tt]@).len() == nc + 1,
            forall|tt: int, jj: int|
                0 <= tt < t && 0 <= jj <= nc ==> #[trigger] rev@[tt]@[jj] == lcs(am, bm, oc - tt, jj),
                row@.len() == nc + 1,
                forall|jj: int| j <= jj <= nc ==> #[trigger] row@[jj] == lcs(am, bm, i as int, jj),
            decreases j,
        {
            let jj = j - 1;
            assert(rev@[t - 1]@.len() == nc + 1);
            let v: u32 = if egal_car(la[prefix + i].as_slice(), lb[prefix + jj].as_slice()) {
                proof {
                    lemme_lcs_borne(am, bm, i + 1, jj + 1);
                }
                assert(rev@[t - 1]@[jj + 1] == lcs(am, bm, i + 1, jj + 1));
                rev[t - 1][jj + 1] + 1
            } else {
                let x = rev[t - 1][jj];
                let y = row[jj + 1];
                assert(x == lcs(am, bm, i + 1, jj as int));
                if x >= y { x } else { y }
            };
            row.set(jj, v);
            j = jj;
        }
        assert(row@[nc as int] == 0);
        rev.push(row);
        t = t + 1;
    }
    rev
}

/// Ce qui a changé pour un fichier.
#[derive(Clone, Copy, Debug, PartialEq, Eq, Structural)]
pub enum ChangeKind {
    /// Le fichier est apparu.
    Added,
    /// Le fichier a disparu.
    Deleted,
    /// Le fichier a changé.
    Modified,
}

/// Le contenu d'une version conservée, tel que le service le montre.
#[derive(Clone, Debug, PartialEq, Eq)]
pub enum PreviewContent {
    /// Un texte, en entier.
    Text {
        /// Le texte.
        text: String,
    },
    /// Un contenu qui ne se lit pas comme du texte.
    Binary,
}

/// Une version conservée d'un fichier.
#[derive(Clone, Debug, PartialEq, Eq)]
pub struct FilePreview {
    /// Empreinte du contenu.
    pub hash: String,
    /// Taille annoncée, en octets.
    pub size: u64,
    /// Droits du fichier.
    pub mode: u32,
    /// Ce qu'elle contient.
    pub content: PreviewContent,
}

/// Le changement d'un fichier : ses versions d'avant et d'après.
#[derive(Clone, Debug, PartialEq, Eq)]
pub struct FileChange {
    /// Chemin du fichier.
    pub path: String,
    /// Ce qui a changé.
    pub kind: ChangeKind,
    /// La version d'avant, s'il y en avait une.
    pub before: Option<FilePreview>,
    /// La version d'après, s'il y en a une.
    pub after: Option<FilePreview>,
}

/// La réponse du service à la lecture d'un changement.
#[derive(Clone, Debug, PartialEq, Eq)]
pub struct ChangeReview {
    /// La mission qui a fait le changement.
    pub task: String,
    /// Le fichier.
    pub file: FileChange,
}

/// Un changement reçu et vérifié, avec sa comparaison quand les deux côtés sont du texte.
pub struct Document {
    /// Le changement tel que reçu.
    pub review: ChangeReview,
    /// La comparaison ligne à ligne.
    pub lines: Option<Comparison>,
}

/// Deux chemins désignent le même fichier au sens de `std::path::Path` : même suite de
/// composants.
pub uninterp spec fn memes_chemins(a: Seq<char>, b: Seq<char>) -> bool;

/// Compare deux chemins par `std::path::Path::eq`, composant par composant ; `Path` est `Eq`,
/// donc un chemin est toujours le même que lui-même.
#[verifier::external_body]
fn meme_chemin(a: &str, b: &str) -> (r: bool)
    ensures
        r == memes_chemins(a@, b@),
        a@ == b@ ==> r,
{
    std::path::Path::new(a) == std::path::Path::new(b)
}

/// Les versions présentes sont celles que le genre de changement annonce.
pub open spec fn versions_coherentes(f: FileChange) -> bool {
    match (f.kind, f.before, f.after) {
        (ChangeKind::Added, None, Some(_)) => true,
        (ChangeKind::Deleted, Some(_), None) => true,
        (ChangeKind::Modified, Some(_), Some(_)) => true,
        _ => false,
    }
}

/// Un aperçu texte tient en 64 Kio, a la taille annoncée et ne contient pas d'octet nul.
pub open spec fn apercu_coherent(v: FilePreview) -> bool {
    match v.content {
        PreviewContent::Text { text } => !(taille(text@) > 65536 || taille(text@) != v.size
            || text@.contains('\0')),
        PreviewContent::Binary => true,
    }
}

/// Une version absente est coherente ; une présente l'est si son aperçu l'est.
pub open spec fn version_coherente(v: Option<FilePreview>) -> bool {
    match v {
        None => true,
        Some(p) => apercu_coherent(p),
    }
}

/// Le texte d'un côté du changement : vide quand la version manque, absent quand elle ne se
/// lit pas comme du texte.
pub open spec fn texte_de_version(v: Option<FilePreview>) -> Option<Seq<char>> {
    match v {
        None => Some(Seq::empty()),
        Some(p) => match p.content {
            PreviewContent::Text { text } => Some(text@),
            PreviewContent::Binary => None,
        },
    }
}

/// Un texte qu'une comparaison peut indexer ; c'est le cas de tout texte tenu en mémoire.
pub open spec fn comparable(s: Seq<char>) -> bool {
    s.len() <= isize::MAX
}

/// La comparaison d'un document : celle des lignes des deux textes.
pub open spec fn comparaison_de(c: Comparison, avant: Seq<char>, apres: Seq<char>) -> bool {
    &&& conformes(c.rows@, comparaison(morceaux(avant), morceaux(apres)), morceaux(avant), morceaux(apres))
    &&& c.grouped == en_bloc(morceaux(avant), morceaux(apres))
    &&& joindre(textes_avant(c.rows@)) == avant
    &&& joindre(textes_apres(c.rows@)) == apres
}

fn version_valide(v: &Option<FilePreview>) -> (r: bool)
    ensures
        r == version_coherente(*v),
{
    match v {
        None => true,
        Some(p) => match &p.content {
            PreviewContent::Text { text } => {
                let n = taille_de(text.as_str());
                !(n > 65536 || n as u64 != p.size || contient_car(text.as_str(), '\0'))
            },
            PreviewContent::Binary => true,
        },
    }
}

fn texte_d_une_version(v: &Option<FilePreview>) -> (r: Option<String>)
    ensures
        match (r, texte_de_version(*v)) {
            (Some(t), Some(s)) => t@ == s,
            (None, None) => true,
            _ => false,
        },
{
    match v {
        None => Some(String::new()),
        Some(p) => match &p.content {
            PreviewContent::Text { text } => Some(text.clone()),
            PreviewContent::Binary => None,
        },
    }
}

/// Vérifie qu'une réponse porte bien sur la mission et le fichier demandés, avec des versions
/// cohérentes, et compare ses deux textes.
///
/// # Errors
/// Mission ou fichier différents ; versions absentes ou présentes à tort ; aperçu trop grand, de
/// taille inexacte ou contenant un octet nul.
pub fn document(review: ChangeReview, task: &str, path: &str) -> (r: Result<Document, String>)
    ensures
        review.task@ != task@ || !memes_chemins(review.file.path@, path@) ==> (r matches Err(e)
            && e@ == "La réponse ne correspond pas au fichier demandé."@),
        review.task@ == task@ && memes_chemins(review.file.path@, path@) && !versions_coherentes(
            review.file,
        ) ==> (r matches Err(e) && e@ == "Versions incohérentes avec le changement annoncé."@),
        review.task@ == task@ && memes_chemins(review.file.path@, path@) && versions_coherentes(
            review.file,
        ) && !(version_coherente(review.file.before) && version_coherente(review.file.after))
            ==> (r matches Err(e) && e@ == "Taille ou contenu incohérent dans l'aperçu."@),
        review.file.path@ == path@ ==> memes_chemins(review.file.path@, path@),
        r is Ok <==> review.task@ == task@ && memes_chemins(review.file.path@, path@)
            && versions_coherentes(review.file) && version_coherente(review.file.before)
            && version_coherente(review.file.after),
        r matches Ok(d) ==> d.review == review && match (
            texte_de_version(review.file.before),
            texte_de_version(review.file.after),
        ) {
            (Some(a), Some(b)) => if comparable(a) && comparable(b) {
                d.lines matches Some(c) && comparaison_de(c, a, b)
            } else {
                d.lines is None
            },
            _ => d.lines is None,
        },
{
    let meme = meme_chemin(review.file.path.as_str(), path);
    if !egal(review.task.as_str(), task) || !meme {
        return Err("La réponse ne correspond pas au fichier demandé.".to_owned());
    }
    let coherentes = match (&review.file.kind, &review.file.before, &review.file.after) {
        (ChangeKind::Added, None, Some(_)) => true,
        (ChangeKind::Deleted, Some(_), None) => true,
        (ChangeKind::Modified, Some(_), Some(_)) => true,
        _ => false,
    };
    if !coherentes {
        return Err("Versions incohérentes avec le changement annoncé.".to_owned());
    }
    if !version_valide(&review.file.before) || !version_valide(&review.file.after) {
        return Err("Taille ou contenu incohérent dans l'aperçu.".to_owned());
    }
    let avant = texte_d_une_version(&review.file.before);
    let apres = texte_d_une_version(&review.file.after);
    let rows = match (avant, apres) {
        (Some(a), Some(b)) => {
            let va = caracteres(a.as_str());
            let vb = caracteres(b.as_str());
            if va.len() <= isize::MAX as usize && vb.len() <= isize::MAX as usize {
                Some(lines(a.as_str(), b.as_str()))
            } else {
                None
            }
        },
        _ => None,
    };
    Ok(Document { review, lines: rows })
}

/// La lecture à la demande d'un fichier changé par la mission sélectionnée.
///
/// Chaque sélection ou ouverture change la révision : une réponse d'une révision passée ne
/// remplace jamais ce qui est montré.
pub struct Review {
    /// La mission sélectionnée.
    pub task: Option<String>,
    /// Le fichier ouvert.
    pub path: Option<String>,
    /// Le document reçu pour la révision courante.
    pub document: Option<Document>,
    /// La panne de la lecture courante.
    pub error: Option<String>,
    /// La révision courante.
    pub revision: u64,
    /// La révision dont une lecture est en vol.
    pub flight: Option<u64>,
    /// Une lecture est à lancer.
    pub needed: bool,
}

/// La révision qui suit, en tournant au bout de l'entier.
pub open spec fn revision_suivante(n: u64) -> u64 {
    if n == u64::MAX {
        0
    } else {
        (n + 1) as u64
    }
}

/// Les deux sélections désignent la même mission (ou aucune des deux).
pub open spec fn meme_selection(a: Option<String>, b: Option<Seq<char>>) -> bool {
    match (a, b) {
        (None, None) => true,
        (Some(x), Some(y)) => x@ == y,
        _ => false,
    }
}

/// La vue d'une sélection.
pub open spec fn vue_de_selection(t: Option<&str>) -> Option<Seq<char>> {
    match t {
        Some(s) => Some(s@),
        None => None,
    }
}

pub(crate) fn meme_mission(a: &Option<String>, b: Option<&str>) -> (r: bool)
    ensures
        r == meme_selection(*a, vue_de_selection(b)),
{
    match (a, b) {
        (None, None) => true,
        (Some(x), Some(y)) => egal(x.as_str(), y),
        _ => false,
    }
}

pub(crate) fn selection_de(t: Option<&str>) -> (r: Option<String>)
    ensures
        meme_selection(r, vue_de_selection(t)),
{
    match t {
        Some(s) => Some(s.to_owned()),
        None => None,
    }
}

pub(crate) fn revision_apres(n: u64) -> (r: u64)
    ensures
        r == revision_suivante(n),
{
    if n == u64::MAX {
        0
    } else {
        n + 1
    }
}

/// Ce que devient la lecture quand la sélection passe à `t` : rien ne change pour la même
/// mission ; une autre efface le fichier ouvert et ce qui en était montré.
pub open spec fn selection_suivie(avant: Review, apres: Review, t: Option<Seq<char>>) -> bool {
    if meme_selection(avant.task, t) {
        apres == avant
    } else {
        &&& meme_selection(apres.task, t)
        &&& apres.revision == revision_suivante(avant.revision)
        &&& apres.path is None
        &&& apres.document is None
        &&& apres.error is None
        &&& !apres.needed
        &&& apres.flight == avant.flight
    }
}

/// Ce que devient la lecture quand le fichier `p` est ouvert.
pub open spec fn ouverture_suivie(avant: Review, apres: Review, p: Seq<char>) -> bool {
    &&& apres.task == avant.task
    &&& apres.revision == revision_suivante(avant.revision)
    &&& apres.path matches Some(q) && q@ == p
    &&& apres.document is None
    &&& apres.error is None
    &&& apres.needed
    &&& apres.flight == avant.flight
}

impl Default for Review {
    fn default() -> (r: Self)
        ensures
            r.task is None,
            r.path is None,
            r.document is None,
            r.error is None,
            r.revision == 0,
            r.flight is None,
            !r.needed,
    {
        Review {
            task: None,
            path: None,
            document: None,
            error: None,
            revision: 0,
            flight: None,
            needed: false,
        }
    }
}

impl Review {
    /// Observe une sélection ; une autre mission efface le fichier ouvert et ce qui en était
    /// montré.
    pub fn select(&mut self, task: Option<&str>)
        ensures
            selection_suivie(*old(self), *final(self), vue_de_selection(task)),
    {
        if !meme_mission(&self.task, task) {
            self.task = selection_de(task);
            self.revision = revision_apres(self.revision);
            self.path = None;
            self.document = None;
            self.error = None;
            self.needed = false;
        }
    }

    /// Ouvre un fichier : la lecture est à lancer, rien de l'ancien n'est montré.
    pub fn open(&mut self, path: String)
        ensures
            final(self).path == Some(path),
            ouverture_suivie(*old(self), *final(self), path@),
    {
        self.revision = revision_apres(self.revision);
        self.path = Some(path);
        self.document = None;
        self.error = None;
        self.needed = true;
    }

    /// Un fichier est ouvert et sa lecture n'a pas encore répondu.
    pub fn loading(&self) -> (r: bool)
        ensures
            r == (self.path is Some && (self.flight is Some || self.needed)),
    {
        self.path.is_some() && (self.flight.is_some() || self.needed)
    }

    /// Prend la réponse d'une lecture lancée à la révision `revision`. Seule une réponse de la
    /// révision courante change ce qui est montré.
    pub fn recevoir(&mut self, revision: u64, reply: Result<Document, String>)
        ensures
            final(self).task == old(self).task,
            final(self).path == old(self).path,
            final(self).revision == old(self).revision,
            final(self).needed == old(self).needed,
            final(self).flight == if old(self).flight == Some(revision) {
                None
            } else {
                old(self).flight
            },
            revision != old(self).revision ==> final(self).document == old(self).document
                && final(self).error == old(self).error,
            revision == old(self).revision ==> match reply {
                Ok(d) => final(self).document == Some(d) && final(self).error is None,
                Err(e) => final(self).document is None && final(self).error == Some(e),
            },
    {
        if self.flight == Some(revision) {
            self.flight = None;
        }
        if revision == self.revision {
            match reply {
                Ok(document) => {
                    self.document = Some(document);
                    self.error = None;
                },
                Err(error) => {
                    self.document = None;
                    self.error = Some(error);
                },
            }
        }
    }

    /// La lecture à lancer maintenant, s'il y en a une : aucune n'est en vol, une est attendue,
    /// le service est joignable et une mission et un fichier sont choisis. Rend la mission, le
    /// fichier et la révision que la réponse portera.
    pub fn a_lire(&mut self, connecte: bool) -> (r: Option<(String, String, u64)>)
        ensures
            (old(self).flight is None && old(self).needed && connecte && old(self).task is Some
                && old(self).path is Some) ==> (r matches Some(l) && {
                &&& old(self).task matches Some(t) && l.0@ == t@
                &&& old(self).path matches Some(p) && l.1@ == p@
                &&& l.2 == old(self).revision
                &&& !final(self).needed
                &&& final(self).flight == Some(old(self).revision)
                &&& final(self).task == old(self).task
                &&& final(self).path == old(self).path
                &&& final(self).revision == old(self).revision
                &&& final(self).document == old(self).document
                &&& final(self).error == old(self).error
            }),
            !(old(self).flight is None && old(self).needed && connecte && old(self).task is Some
                && old(self).path is Some) ==> r is None && *final(self) == *old(self),
    {
        if self.flight.is_none() && self.needed && connecte {
            match (&self.task, &self.path) {
                (Some(t), Some(p)) => {
                    let l = (t.clone(), p.clone(), self.revision);
                    self.needed = false;
                    self.flight = Some(self.revision);
                    return Some(l);
                },
                _ => {},
            }
        }
        None
    }
}

/// Une ancienne lecture ne remplace pas la nouvelle sélection : choisir une autre mission, ou
/// ouvrir un fichier, change la révision, et une réponse d'une autre révision laisse ce qui est
/// montré tel quel.
pub proof fn loi_une_ancienne_lecture_ne_remplace_rien(
    avant: Review,
    apres: Review,
    t: Option<Seq<char>>,
    p: Seq<char>,
)
    ensures
        selection_suivie(avant, apres, t) && !meme_selection(avant.task, t) ==> apres.revision
            != avant.revision,
        ouverture_suivie(avant, apres, p) ==> apres.revision != avant.revision,
{
}

} // verus!
