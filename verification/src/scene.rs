//! Ce qu'il y a à voir, avant qu'on sache comment le dessiner.
//!
//! La personne définit les objectifs, examine les accès et supervise les missions. La scène
//! transporte leur état vers l'interface sans dépendre du GPU : les tâches et leur état exact,
//! la décision qui attend, l'isolation de la machine.
//!
//! **Une seule décision est montrée à la fois.** S'il y en a plusieurs, c'est la plus ancienne :
//! faire patienter quelqu'un est déjà désagréable, le faire patienter en changeant d'avis sur ce
//! qu'on lui demande serait pire.

use vstd::prelude::*;
use crate::texte::{ajouter, avant_ou_egal, avant_ou_egal_texte, lemme_ordre_des_textes};

verus! {

/// L'état exact d'une tâche, tel que le runtime d'agents le tient.
#[derive(Debug, Clone, Copy, PartialEq, Eq, Structural)]
pub enum State {
    /// À préparer.
    Pending,
    /// Plan prêt, à examiner.
    Planned,
    /// En cours.
    Running,
    /// Attend une décision humaine.
    WaitingApproval,
    /// En pause.
    Paused,
    /// Terminée.
    Done,
    /// Échouée.
    Failed,
    /// Annulée.
    Cancelled,
    /// Ses changements ont été défaits.
    RolledBack,
}

/// Une tâche dans cet état ne changera plus.
pub open spec fn terminal(s: State) -> bool {
    s == State::Done || s == State::Failed || s == State::Cancelled || s == State::RolledBack
}

impl State {
    /// Une tâche dans cet état ne changera plus.
    pub fn is_terminal(&self) -> (r: bool)
        ensures
            r == terminal(*self),
    {
        match self {
            State::Done | State::Failed | State::Cancelled | State::RolledBack => true,
            _ => false,
        }
    }
}

/// L'état de publication d'un espace de travail de mission.
#[derive(Debug, Clone, Copy, PartialEq, Eq, Structural)]
pub enum WorkspaceState {
    /// Versions examinables.
    Open,
    /// Publication en cours.
    Applying,
    /// Annulation en cours.
    Undoing,
    /// Publication arrêtée sur un conflit.
    Conflict,
    /// Publié.
    Committed,
    /// Publication annulée.
    RolledBack,
    /// Abandonné sans publication.
    Abandoned,
}

/// Où en est une tâche, dans le langage du champ.
#[derive(Debug, Clone, Copy, PartialEq, Eq, Structural)]
pub enum Etat {
    /// Elle avance.
    Court,
    /// Elle attend une décision humaine.
    Attend,
    /// Elle est empêchée, et personne n'a encore agi.
    Bloque,
    /// Elle est terminée ; son courant s'efface.
    Fini,
}

/// L'état d'une tâche, traduit en ce que le champ sait montrer.
pub open spec fn etat_de(state: State) -> Etat {
    match state {
        State::Running => Etat::Court,
        State::WaitingApproval => Etat::Attend,
        State::Paused | State::Pending | State::Planned | State::Failed => Etat::Bloque,
        State::Done | State::Cancelled | State::RolledBack => Etat::Fini,
    }
}

/// L'état d'une tâche, traduit en ce que le champ sait montrer.
///
/// Une tâche en pause ou planifiée n'avance pas davantage qu'une tâche empêchée ; le champ la
/// fige pareillement. Une tâche annulée après coup est finie, elle aussi.
pub fn etat(state: State) -> (e: Etat)
    ensures
        e == etat_de(state),
{
    match state {
        State::Running => Etat::Court,
        State::WaitingApproval => Etat::Attend,
        State::Paused | State::Pending | State::Planned | State::Failed => Etat::Bloque,
        State::Done | State::Cancelled | State::RolledBack => Etat::Fini,
    }
}

/// Une tâche, vue comme un courant dans le champ.
///
/// Son débit se déduit de ses étapes et du temps écoulé ; la part de budget consommée, une
/// mesure en nombre flottant, se calcule à l'affichage.
#[derive(Debug, Clone)]
pub struct Courant {
    /// Identifiant de la tâche.
    pub tache: String,
    /// Ce qu'elle fait, en une phrase d'humain.
    pub intitule: String,
    /// Le pilote qui la mène.
    pub agent: String,
    /// Son état.
    pub etat: Etat,
    /// Nombre d'étapes franchies.
    pub etapes: u32,
    /// Temps écoulé depuis son départ, en secondes.
    pub secondes: u64,
    /// État exact reçu du runtime, absent dans les anciennes scènes de démonstration.
    pub task_state: Option<State>,
    /// Longueur de l'historique reçu ; distingue notamment une reprise d'une ancienne exécution.
    pub task_revision: usize,
}

/// Vrai si ce courant réclame le regard : sa tâche est empêchée, ou attend une décision.
pub open spec fn reclame_le_regard(c: Courant) -> bool {
    c.etat == Etat::Bloque || c.etat == Etat::Attend
}

/// Le débit d'un courant, en étapes par minute, comme fraction `(numérateur, dénominateur)` :
/// ses étapes, comptées jusqu'à 65 535, rapportées au temps écoulé. Une tâche de moins de cinq
/// secondes n'a pas encore de débit mesurable ; on lui en prête six étapes par minute plutôt que
/// zéro, qui la figerait, et figer veut dire « empêchée ».
pub open spec fn debit_de(c: Courant) -> (int, int) {
    if c.secondes < 5 {
        (6, 1)
    } else {
        (
            (if c.etapes > 65535 {
                65535
            } else {
                c.etapes as int
            }) * 60,
            c.secondes as int,
        )
    }
}

/// La vitesse d'un courant, en part de la vitesse maximale du champ, comme fraction : nulle s'il
/// est empêché ou fini, 8 % s'il attend une décision (il respire encore), sinon son débit
/// rapporté aux 40 étapes par minute qui saturent l'œil, sans descendre sous 5 %.
pub open spec fn vitesse_de(c: Courant) -> (int, int) {
    match c.etat {
        Etat::Bloque | Etat::Fini => (0, 1),
        Etat::Attend => (2, 25),
        Etat::Court => {
            let (p, q) = debit_de(c);
            if p < 2 * q {
                (1, 20)
            } else if p > 40 * q {
                (1, 1)
            } else {
                (p, 40 * q)
            }
        },
    }
}

/// La fraction `a` dépasse la fraction `b` (dénominateurs positifs).
pub open spec fn depasse(a: (int, int), b: (int, int)) -> bool {
    a.0 * b.1 > b.0 * a.1
}

/// Les fractions `a` et `b` sont égales (dénominateurs positifs).
pub open spec fn egale(a: (int, int), b: (int, int)) -> bool {
    a.0 * b.1 == b.0 * a.1
}

/// `a` peut être dessiné avant `b` : ce qui réclame le regard d'abord, puis le plus vif, puis
/// l'identifiant de tâche dans l'ordre des textes, pour qu'à activité égale rien ne change de
/// place d'une image à l'autre.
pub open spec fn passe_avant(a: Courant, b: Courant) -> bool {
    if reclame_le_regard(a) != reclame_le_regard(b) {
        reclame_le_regard(a)
    } else if !egale(vitesse_de(a), vitesse_de(b)) {
        depasse(vitesse_de(a), vitesse_de(b))
    } else {
        avant_ou_egal(a.tache@, b.tache@)
    }
}

/// Des courants dans l'ordre où ils se dessinent.
pub open spec fn dans_l_ordre(c: Seq<Courant>) -> bool {
    forall|i: int, j: int| 0 <= i < j < c.len() ==> passe_avant(#[trigger] c[i], #[trigger] c[j])
}

proof fn lemme_bornes_de_vitesse(c: Courant)
    ensures
        0 <= vitesse_de(c).0 <= 3932100,
        0 < vitesse_de(c).1 <= 40 * 18446744073709551615,
{
}

proof fn lemme_fractions(a0: int, a1: int, b0: int, b1: int, c0: int, c1: int)
    requires
        a1 > 0,
        b1 > 0,
        c1 > 0,
    ensures
        a0 * b1 > b0 * a1 && b0 * c1 >= c0 * b1 ==> a0 * c1 > c0 * a1,
        a0 * b1 >= b0 * a1 && b0 * c1 > c0 * b1 ==> a0 * c1 > c0 * a1,
        a0 * b1 == b0 * a1 && b0 * c1 == c0 * b1 ==> a0 * c1 == c0 * a1,
{
    if a0 * b1 >= b0 * a1 && b0 * c1 >= c0 * b1 {
        assert(a0 * b1 * c1 >= b0 * a1 * c1) by (nonlinear_arith)
            requires
                a0 * b1 >= b0 * a1,
                c1 > 0,
        ;
        assert(b0 * c1 * a1 >= c0 * b1 * a1) by (nonlinear_arith)
            requires
                b0 * c1 >= c0 * b1,
                a1 > 0,
        ;
        assert(b1 * (a0 * c1) >= b1 * (c0 * a1)) by (nonlinear_arith)
            requires
                a0 * b1 * c1 >= b0 * a1 * c1,
                b0 * c1 * a1 >= c0 * b1 * a1,
        ;
        assert(a0 * c1 >= c0 * a1) by (nonlinear_arith)
            requires
                b1 * (a0 * c1) >= b1 * (c0 * a1),
                b1 > 0,
        ;
        if a0 * b1 > b0 * a1 || b0 * c1 > c0 * b1 {
            assert(a0 * b1 * c1 + b0 * c1 * a1 > b0 * a1 * c1 + c0 * b1 * a1) by (nonlinear_arith)
                requires
                    a0 * b1 >= b0 * a1,
                    b0 * c1 >= c0 * b1,
                    a0 * b1 > b0 * a1 || b0 * c1 > c0 * b1,
                    a1 > 0,
                    c1 > 0,
            ;
            assert(a0 * c1 > c0 * a1) by (nonlinear_arith)
                requires
                    a0 * b1 * c1 + b0 * c1 * a1 > b0 * a1 * c1 + c0 * b1 * a1,
                    b1 > 0,
            ;
        }
    }
    if a0 * b1 == b0 * a1 && b0 * c1 == c0 * b1 {
        assert(b1 * (a0 * c1) == b1 * (c0 * a1)) by (nonlinear_arith)
            requires
                a0 * b1 == b0 * a1,
                b0 * c1 == c0 * b1,
        ;
        assert(a0 * c1 == c0 * a1) by (nonlinear_arith)
            requires
                b1 * (a0 * c1) == b1 * (c0 * a1),
                b1 > 0,
        ;
    }
}

/// L'ordre des courants est total et transitif : il se trie.
pub proof fn lemme_ordre_des_courants(a: Courant, b: Courant, c: Courant)
    ensures
        passe_avant(a, b) || passe_avant(b, a),
        passe_avant(a, b) && passe_avant(b, c) ==> passe_avant(a, c),
{
    lemme_bornes_de_vitesse(a);
    lemme_bornes_de_vitesse(b);
    lemme_bornes_de_vitesse(c);
    lemme_ordre_des_textes(a.tache@, b.tache@, c.tache@);
    let (va, vb, vc) = (vitesse_de(a), vitesse_de(b), vitesse_de(c));
    lemme_fractions(va.0, va.1, vb.0, vb.1, vc.0, vc.1);
}

/// Seule une tâche en cours avance dans le champ. Une tâche qui attend une décision attend ;
/// une tâche terminée, annulée ou défaite s'efface ; toutes les autres (à préparer, dont le plan
/// attend son examen, en pause, échouée) sont figées : leur courant ne bouge pas et réclame le
/// regard.
pub proof fn loi_seule_une_tache_en_cours_avance(t: Tache)
    ensures
        (etat_de(t.state) == Etat::Court) <==> t.state == State::Running,
        (etat_de(t.state) == Etat::Attend) <==> t.state == State::WaitingApproval,
        (etat_de(t.state) == Etat::Fini) <==> (t.state == State::Done || t.state
            == State::Cancelled || t.state == State::RolledBack),
        (etat_de(t.state) == Etat::Bloque) <==> (t.state == State::Pending || t.state
            == State::Planned || t.state == State::Paused || t.state == State::Failed),
        t.state == State::Planned ==> reclame_le_regard(courant_de(t)) && vitesse_de(
            courant_de(t),
        ).0 == 0,
        reclame_le_regard(courant_de(t)) <==> !(t.state == State::Running || t.state == State::Done
            || t.state == State::Cancelled || t.state == State::RolledBack),
{
}

/// Un courant ne s'immobilise que si sa tâche est empêchée ou finie : l'arrêt se voit sans se
/// lire. Une tâche qui attend une décision respire encore, et celle qui avance, même à peine
/// née, ne descend jamais sous 5 % de la vitesse maximale.
pub proof fn loi_seul_l_arret_fige(c: Courant)
    ensures
        vitesse_de(c).1 > 0,
        vitesse_de(c).0 == 0 <==> (c.etat == Etat::Bloque || c.etat == Etat::Fini),
        c.etat == Etat::Court ==> vitesse_de(c).0 * 20 >= vitesse_de(c).1,
{
}

/// Dans des courants ordonnés, ce qui réclame le regard passe devant tout ce qui ne le réclame
/// pas.
pub proof fn loi_ce_qui_reclame_passe_devant(c: Seq<Courant>)
    requires
        dans_l_ordre(c),
    ensures
        forall|i: int, j: int|
            0 <= i < j < c.len() && reclame_le_regard(#[trigger] c[j]) ==> reclame_le_regard(
                #[trigger] c[i],
            ),
{
    assert forall|i: int, j: int|
        0 <= i < j < c.len() && reclame_le_regard(#[trigger] c[j]) implies reclame_le_regard(
        #[trigger] c[i],
    ) by {
        assert(passe_avant(c[i], c[j]));
    }
}

impl Courant {
    /// Vrai si ce courant réclame le regard.
    pub fn reclame(&self) -> (r: bool)
        ensures
            r == reclame_le_regard(*self),
    {
        match self.etat {
            Etat::Bloque | Etat::Attend => true,
            _ => false,
        }
    }

    /// La vitesse du courant, en part de la vitesse maximale du champ, comme fraction
    /// `(numérateur, dénominateur)`.
    pub fn vitesse(&self) -> (r: (u128, u128))
        ensures
            r.0 == vitesse_de(*self).0,
            r.1 == vitesse_de(*self).1,
    {
        match self.etat {
            Etat::Bloque | Etat::Fini => (0, 1),
            Etat::Attend => (2, 25),
            Etat::Court => {
                let (p, q): (u128, u128) = if self.secondes < 5 {
                    (6, 1)
                } else {
                    let e: u128 = if self.etapes > 65535 {
                        65535
                    } else {
                        self.etapes as u128
                    };
                    (e * 60, self.secondes as u128)
                };
                if p < 2 * q {
                    (1, 20)
                } else if p > 40 * q {
                    (1, 1)
                } else {
                    (p, 40 * q)
                }
            },
        }
    }

    /// Vrai si ce courant peut être dessiné avant `autre`.
    pub fn passe_avant(&self, autre: &Courant) -> (r: bool)
        ensures
            r == passe_avant(*self, *autre),
    {
        let ra = self.reclame();
        let rb = autre.reclame();
        if ra != rb {
            return ra;
        }
        let va = self.vitesse();
        let vb = autre.vitesse();
        proof {
            lemme_bornes_de_vitesse(*self);
            lemme_bornes_de_vitesse(*autre);
            assert(va.0 * vb.1 <= 3932100 * (40 * 18446744073709551615)) by (nonlinear_arith)
                requires
                    va.0 <= 3932100,
                    vb.1 <= 40 * 18446744073709551615,
            ;
            assert(vb.0 * va.1 <= 3932100 * (40 * 18446744073709551615)) by (nonlinear_arith)
                requires
                    vb.0 <= 3932100,
                    va.1 <= 40 * 18446744073709551615,
            ;
        }
        let x = va.0 * vb.1;
        let y = vb.0 * va.1;
        if x != y {
            x > y
        } else {
            avant_ou_egal_texte(self.tache.as_str(), autre.tache.as_str())
        }
    }
}

/// Le premier des courants qui passent avant tous les autres.
fn le_premier(v: &Vec<Courant>) -> (m: usize)
    requires
        v@.len() > 0,
    ensures
        m < v@.len(),
        forall|j: int| 0 <= j < v@.len() ==> passe_avant(v@[m as int], #[trigger] v@[j]),
        forall|j: int| 0 <= j < m ==> !passe_avant(#[trigger] v@[j], v@[m as int]),
{
    let mut m: usize = 0;
    let mut k: usize = 1;
    proof {
        lemme_ordre_des_courants(v@[0], v@[0], v@[0]);
        assert(passe_avant(v@[0], v@[0]));
    }
    while k < v.len()
        invariant
            0 < k <= v@.len(),
            m < k,
            forall|j: int| 0 <= j < k ==> passe_avant(v@[m as int], #[trigger] v@[j]),
            forall|j: int| 0 <= j < m ==> !passe_avant(#[trigger] v@[j], v@[m as int]),
        decreases v@.len() - k,
    {
        if !v[m].passe_avant(&v[k]) {
            proof {
                let (a, b) = (v@[k as int], v@[m as int]);
                assert(!passe_avant(b, a));
                lemme_ordre_des_courants(a, b, a);
                lemme_ordre_des_courants(a, a, a);
                assert(passe_avant(a, b));
                assert(passe_avant(a, a));
                assert forall|j: int| 0 <= j <= k implies passe_avant(a, #[trigger] v@[j]) by {
                    if j < k {
                        assert(passe_avant(b, v@[j]));
                        lemme_ordre_des_courants(a, b, v@[j]);
                    }
                }
                assert forall|j: int| 0 <= j < k implies !passe_avant(#[trigger] v@[j], a) by {
                    assert(passe_avant(b, v@[j]));
                    lemme_ordre_des_courants(b, v@[j], a);
                }
            }
            m = k;
        }
        k = k + 1;
    }
    m
}

/// `a` et `b` se valent dans l'ordre des courants : chacun peut passer avant l'autre.
pub open spec fn se_valent(a: Courant, b: Courant) -> bool {
    passe_avant(a, b) && passe_avant(b, a)
}

/// `r` range les courants `c` : chacun de ses courants est celui que `c` tenait à la place
/// `p[k]`, aucune place n'est prise deux fois, et deux courants qui se valent gardent leur ordre
/// de départ.
pub open spec fn rangement_stable(c: Seq<Courant>, r: Seq<Courant>, p: Seq<int>) -> bool {
    &&& p.len() == c.len()
    &&& r.len() == c.len()
    &&& forall|k: int| 0 <= k < r.len() ==> 0 <= #[trigger] p[k] < c.len() && r[k] == c[p[k]]
    &&& forall|k: int, l: int| 0 <= k < l < p.len() ==> #[trigger] p[k] != #[trigger] p[l]
    &&& forall|k: int, l: int|
        0 <= k < l < r.len() && se_valent(#[trigger] r[k], #[trigger] r[l]) ==> p[k] < p[l]
}

/// Les mêmes courants, dans l'ordre où ils se dessinent ; à égalité, dans leur ordre de départ.
pub fn ordonnes(courants: Vec<Courant>) -> (r: Vec<Courant>)
    ensures
        dans_l_ordre(r@),
        r@.to_multiset() == courants@.to_multiset(),
        exists|p: Seq<int>| rangement_stable(courants@, r@, p),
{
    let ghost depart = courants@;
    let ghost n = depart.len() as int;
    let mut reste = courants;
    let mut rang: Vec<Courant> = Vec::new();
    let ghost mut ori_rang: Seq<int> = Seq::empty();
    let ghost mut ori_reste: Seq<int> = Seq::new(n as nat, |i: int| i);
    proof {
        broadcast use {vstd::seq_lib::group_to_multiset_ensures, vstd::multiset::group_multiset_axioms};

        assert(rang@.to_multiset() =~= vstd::multiset::Multiset::empty());
        assert(rang@.to_multiset().add(reste@.to_multiset()) =~= depart.to_multiset());
    }
    while reste.len() > 0
        invariant
            rang@.to_multiset().add(reste@.to_multiset()) == depart.to_multiset(),
            n == depart.len(),
            rang@.len() + reste@.len() == n,
            ori_rang.len() == rang@.len(),
            ori_reste.len() == reste@.len(),
            forall|k: int|
                0 <= k < rang@.len() ==> 0 <= #[trigger] ori_rang[k] < n && rang@[k]
                    == depart[ori_rang[k]],
            forall|i: int|
                0 <= i < reste@.len() ==> 0 <= #[trigger] ori_reste[i] < n && reste@[i]
                    == depart[ori_reste[i]],
            forall|i: int, l: int|
                0 <= i < l < ori_reste.len() ==> #[trigger] ori_reste[i] < #[trigger] ori_reste[l],
            forall|k: int, l: int|
                0 <= k < l < ori_rang.len() ==> #[trigger] ori_rang[k] != #[trigger] ori_rang[l],
            forall|k: int, i: int|
                0 <= k < ori_rang.len() && 0 <= i < ori_reste.len() ==> #[trigger] ori_rang[k]
                    != #[trigger] ori_reste[i],
            forall|k: int, l: int|
                0 <= k < l < rang@.len() && se_valent(#[trigger] rang@[k], #[trigger] rang@[l])
                    ==> ori_rang[k] < ori_rang[l],
            forall|k: int, i: int|
                0 <= k < rang@.len() && 0 <= i < reste@.len() && se_valent(
                    #[trigger] rang@[k],
                    #[trigger] reste@[i],
                ) ==> ori_rang[k] < ori_reste[i],
            dans_l_ordre(rang@),
            forall|i: int, j: int|
                0 <= i < rang@.len() && 0 <= j < reste@.len() ==> passe_avant(
                    #[trigger] rang@[i],
                    #[trigger] reste@[j],
                ),
        decreases reste@.len(),
    {
        let m = le_premier(&reste);
        let ghost avant = reste@;
        let ghost deja = rang@;
        let ghost ori_avant = ori_reste;
        let ghost ori_deja = ori_rang;
        let c = reste.remove(m);
        rang.push(c);
        proof {
            broadcast use {vstd::seq_lib::group_to_multiset_ensures, vstd::multiset::group_multiset_axioms};

            let mi = m as int;
            ori_rang = ori_deja.push(ori_avant[mi]);
            ori_reste = ori_avant.remove(mi);
            assert(avant[mi] == c);
            assert(avant.contains(c));
            assert(avant.to_multiset().count(c) > 0);
            assert(rang@ == deja.push(c));
            assert(reste@ == avant.remove(mi));
            assert(deja.push(c).to_multiset() =~= deja.to_multiset().insert(c));
            assert(avant.remove(mi).to_multiset() =~= avant.to_multiset().remove(c));
            assert(rang@.to_multiset().add(reste@.to_multiset()) =~= deja.to_multiset().add(
                avant.to_multiset(),
            ));
            assert forall|k: int|
                0 <= k < rang@.len() implies 0 <= #[trigger] ori_rang[k] < n && rang@[k]
                == depart[ori_rang[k]] by {
                if k < deja.len() {
                    assert(ori_rang[k] == ori_deja[k] && rang@[k] == deja[k]);
                } else {
                    assert(ori_rang[k] == ori_avant[mi] && rang@[k] == avant[mi]);
                }
            }
            assert forall|i: int|
                0 <= i < reste@.len() implies 0 <= #[trigger] ori_reste[i] < n && reste@[i]
                == depart[ori_reste[i]] by {
                let ii = if i < mi {
                    i
                } else {
                    i + 1
                };
                assert(ori_reste[i] == ori_avant[ii] && reste@[i] == avant[ii]);
            }
            assert forall|i: int, l: int|
                0 <= i < l < ori_reste.len() implies #[trigger] ori_reste[i]
                < #[trigger] ori_reste[l] by {
                let ii = if i < mi {
                    i
                } else {
                    i + 1
                };
                let ll = if l < mi {
                    l
                } else {
                    l + 1
                };
                assert(ori_reste[i] == ori_avant[ii] && ori_reste[l] == ori_avant[ll]);
            }
            assert forall|k: int, l: int|
                0 <= k < l < ori_rang.len() implies #[trigger] ori_rang[k]
                != #[trigger] ori_rang[l] by {
                if l < ori_deja.len() {
                    assert(ori_rang[k] == ori_deja[k] && ori_rang[l] == ori_deja[l]);
                } else {
                    assert(ori_rang[k] == ori_deja[k] && ori_rang[l] == ori_avant[mi]);
                }
            }
            assert forall|k: int, i: int|
                0 <= k < ori_rang.len() && 0 <= i < ori_reste.len() implies #[trigger] ori_rang[k]
                != #[trigger] ori_reste[i] by {
                let ii = if i < mi {
                    i
                } else {
                    i + 1
                };
                assert(ori_reste[i] == ori_avant[ii]);
                if k < ori_deja.len() {
                    assert(ori_rang[k] == ori_deja[k]);
                } else {
                    assert(ori_rang[k] == ori_avant[mi]);
                }
            }
            assert forall|k: int, l: int|
                0 <= k < l < rang@.len() && se_valent(
                    #[trigger] rang@[k],
                    #[trigger] rang@[l],
                ) implies ori_rang[k] < ori_rang[l] by {
                if l < deja.len() {
                    assert(rang@[k] == deja[k] && rang@[l] == deja[l]);
                    assert(ori_rang[k] == ori_deja[k] && ori_rang[l] == ori_deja[l]);
                } else {
                    assert(rang@[k] == deja[k] && rang@[l] == avant[mi]);
                    assert(ori_rang[k] == ori_deja[k] && ori_rang[l] == ori_avant[mi]);
                }
            }
            assert forall|k: int, i: int|
                0 <= k < rang@.len() && 0 <= i < reste@.len() && se_valent(
                    #[trigger] rang@[k],
                    #[trigger] reste@[i],
                ) implies ori_rang[k] < ori_reste[i] by {
                let ii = if i < mi {
                    i
                } else {
                    i + 1
                };
                assert(reste@[i] == avant[ii] && ori_reste[i] == ori_avant[ii]);
                if k < deja.len() {
                    assert(rang@[k] == deja[k] && ori_rang[k] == ori_deja[k]);
                } else {
                    assert(rang@[k] == avant[mi] && ori_rang[k] == ori_avant[mi]);
                    if ii < mi {
                        assert(!passe_avant(avant[ii], avant[mi]));
                    }
                }
            }
            assert forall|i: int, j: int| 0 <= i < j < rang@.len() implies passe_avant(
                #[trigger] rang@[i],
                #[trigger] rang@[j],
            ) by {
                if j < deja.len() {
                    assert(rang@[i] == deja[i] && rang@[j] == deja[j]);
                } else {
                    assert(rang@[i] == deja[i] && rang@[j] == avant[mi]);
                }
            }
            assert forall|i: int, j: int|
                0 <= i < rang@.len() && 0 <= j < reste@.len() implies passe_avant(
                #[trigger] rang@[i],
                #[trigger] reste@[j],
            ) by {
                let jj = if j < mi {
                    j
                } else {
                    j + 1
                };
                assert(reste@[j] == avant[jj]);
                if i < deja.len() {
                    assert(rang@[i] == deja[i]);
                } else {
                    assert(rang@[i] == avant[mi]);
                }
            }
        }
    }
    proof {
        broadcast use {vstd::seq_lib::group_to_multiset_ensures, vstd::multiset::group_multiset_axioms};

        assert(reste@.to_multiset() =~= vstd::multiset::Multiset::empty());
        assert(rang@.to_multiset() =~= rang@.to_multiset().add(reste@.to_multiset()));
        assert(rangement_stable(depart, rang@, ori_rang));
    }
    rang
}

/// La décision qu'on attend d'un humain.
#[derive(Debug, Clone)]
pub struct Decision {
    /// La question, formulée en conséquence et non en mécanisme.
    pub question: String,
    /// Ce qui arrivera si l'on accepte. Dit avant, jamais après.
    pub consequence: String,
    /// Le motif que le modèle a donné, s'il en a donné un.
    pub motif: Option<String>,
    /// La tâche qui demande.
    pub tache: String,
    /// Depuis combien de secondes elle attend.
    pub depuis_secondes: u64,
    /// Vrai si l'action est irréversible.
    pub irreversible: bool,
}

/// La réserve de microVM prêtes à démarrer.
#[derive(Debug, Clone)]
pub struct Reserve {
    /// MicroVM prêtes.
    pub pretes: u64,
    /// MicroVM visées.
    pub cible: u64,
    /// Ce qui a empêché de la remplir.
    pub erreur: Option<String>,
}

/// L'isolation réellement disponible, telle que `sandboxd` la sonde.
#[derive(Debug, Clone)]
pub struct Isolation {
    /// Niveau maximal atteignable.
    pub niveau_max: u8,
    /// Ce qui manque pour aller plus haut, si quelque chose manque.
    pub manque: Option<String>,
    /// La réserve de microVM, quand le niveau 2 en tient une.
    pub reserve: Option<Reserve>,
}

/// Ce qu'il y a à voir, à un instant.
#[derive(Debug, Clone)]
pub struct Scene {
    /// L'heure, telle qu'on l'affiche.
    pub heure: String,
    /// La date, telle qu'on l'affiche.
    pub date: String,
    /// Les courants, dans l'ordre où ils seront dessinés.
    pub courants: Vec<Courant>,
    /// La décision en attente, s'il y en a une.
    pub decision: Option<Decision>,
    /// L'isolation de cette machine.
    pub isolation: Isolation,
}

/// Le nombre de courants qui avancent réellement, parmi les `n` premiers.
pub open spec fn nombre_actifs(c: Seq<Courant>, n: int) -> nat
    decreases n,
{
    if n <= 0 || n > c.len() {
        0
    } else {
        nombre_actifs(c, n - 1) + if c[n - 1].etat == Etat::Court {
            1nat
        } else {
            0nat
        }
    }
}

impl Scene {
    /// Nombre de tâches qui avancent réellement.
    pub fn actives(&self) -> (r: usize)
        ensures
            r == nombre_actifs(self.courants@, self.courants@.len() as int),
    {
        let mut n: usize = 0;
        let mut i: usize = 0;
        while i < self.courants.len()
            invariant
                i <= self.courants@.len(),
                n == nombre_actifs(self.courants@, i as int),
                n <= i,
            decreases self.courants@.len() - i,
        {
            if self.courants[i].etat == Etat::Court {
                n = n + 1;
            }
            i = i + 1;
        }
        n
    }

    /// Ordonne les courants : ce qui réclame le regard d'abord, puis le plus vif, puis le reste.
    ///
    /// L'ordre n'est pas cosmétique. Le premier courant occupe la place la plus lisible ; s'il
    /// était choisi au hasard, il faudrait chercher, et chercher est déjà une interaction.
    pub fn ordonner(&mut self)
        ensures
            dans_l_ordre(final(self).courants@),
            final(self).courants@.to_multiset() == old(self).courants@.to_multiset(),
            exists|p: Seq<int>| rangement_stable(old(self).courants@, final(self).courants@, p),
            *final(self) == (Scene { courants: final(self).courants, ..*old(self) }),
    {
        let mut courants: Vec<Courant> = Vec::new();
        std::mem::swap(&mut courants, &mut self.courants);
        self.courants = ordonnes(courants);
    }
}

/// Une demande d'approbation en attente, telle que le broker la rend.
#[derive(Debug, Clone)]
pub struct Approbation {
    /// Identifiant de la demande.
    pub id: String,
    /// La tâche qui demande.
    pub task: String,
    /// L'agent qui la mène.
    pub agent: String,
    /// L'action demandée, dans le vocabulaire du système.
    pub action: String,
    /// Sa cible.
    pub target: String,
    /// La question posée à l'humain.
    pub summary: String,
    /// Le motif que le modèle a donné.
    pub motif: Option<String>,
    /// L'action est irréversible.
    pub irreversible: bool,
    /// L'instant de la demande, en nanosecondes depuis l'époque Unix.
    pub created: i128,
}

/// La première des demandes les plus anciennes, parmi les `n` premières.
pub open spec fn plus_ancienne(a: Seq<Approbation>, n: int) -> Option<int>
    decreases n,
{
    if n <= 0 || n > a.len() {
        None
    } else {
        match plus_ancienne(a, n - 1) {
            Some(k) => if a[n - 1].created < a[k].created {
                Some(n - 1)
            } else {
                Some(k)
            },
            None => Some(n - 1),
        }
    }
}

proof fn lemme_plus_ancienne(a: Seq<Approbation>, n: int)
    requires
        0 <= n <= a.len(),
    ensures
        n == 0 <==> plus_ancienne(a, n) is None,
        plus_ancienne(a, n) matches Some(k) ==> {
            &&& 0 <= k < n
            &&& forall|j: int| 0 <= j < n ==> a[k].created <= #[trigger] a[j].created
            &&& forall|j: int| 0 <= j < k ==> a[k].created < #[trigger] a[j].created
        },
    decreases n,
{
    if n > 0 {
        lemme_plus_ancienne(a, n - 1);
    }
}

/// L'attente d'une demande, en secondes entières, jamais négative.
pub open spec fn attente(maintenant: i128, created: i128) -> int {
    let d = maintenant - created;
    let s = if d > 0 {
        d / 1_000_000_000
    } else {
        0
    };
    if s > u64::MAX {
        u64::MAX as int
    } else {
        s
    }
}

/// L'attente d'une demande, en secondes entières, jamais négative.
pub fn attente_exec(maintenant: i128, created: i128) -> (r: u64)
    ensures
        r == attente(maintenant, created),
{
    match maintenant.checked_sub(created) {
        Some(d) => {
            if d <= 0 {
                0
            } else {
                let s = d / 1_000_000_000;
                if s > 18446744073709551615 {
                    18446744073709551615
                } else {
                    s as u64
                }
            }
        },
        None => {
            if maintenant > created {
                assert((maintenant - created) / 1_000_000_000 > u64::MAX) by (nonlinear_arith)
                    requires
                        maintenant - created > i128::MAX,
                ;
                18446744073709551615
            } else {
                0
            }
        },
    }
}

/// Ce qui arrivera si l'on accepte, dit en conséquence et non en mécanisme.
pub open spec fn consequence_de(a: Approbation) -> Seq<char> {
    if a.irreversible {
        a.action@ + " sur "@ + a.target@ + ". Cette action ne peut pas être annulée."@
    } else {
        a.action@ + " sur "@ + a.target@ + ". Réversible depuis l'historique de la tâche."@
    }
}

/// Ce qui arrivera si l'on accepte une demande.
pub fn consequence(a: &Approbation) -> (r: String)
    ensures
        r@ == consequence_de(*a),
{
    let mut r = a.action.clone();
    ajouter(&mut r, " sur ");
    ajouter(&mut r, a.target.as_str());
    if a.irreversible {
        ajouter(&mut r, ". Cette action ne peut pas être annulée.");
    } else {
        ajouter(&mut r, ". Réversible depuis l'historique de la tâche.");
    }
    r
}

/// La demande montrée : la plus ancienne, la première d'entre elles à égalité.
pub fn la_plus_ancienne(approbations: &[Approbation]) -> (r: Option<usize>)
    ensures
        match r {
            Some(k) => plus_ancienne(approbations@, approbations@.len() as int) == Some(k as int),
            None => plus_ancienne(approbations@, approbations@.len() as int) is None,
        },
        r matches Some(k) ==> k < approbations@.len() && forall|j: int|
            0 <= j < approbations@.len() ==> approbations@[k as int].created
                <= #[trigger] approbations@[j].created,
        r is None <==> approbations@.len() == 0,
{
    let mut meilleure: Option<usize> = None;
    let mut i: usize = 0;
    while i < approbations.len()
        invariant
            i <= approbations@.len(),
            match meilleure {
                Some(k) => plus_ancienne(approbations@, i as int) == Some(k as int),
                None => plus_ancienne(approbations@, i as int) is None,
            },
            meilleure matches Some(k) ==> k < i,
        decreases approbations@.len() - i,
    {
        match meilleure {
            Some(k) => {
                if approbations[i].created < approbations[k].created {
                    meilleure = Some(i);
                }
            },
            None => {
                meilleure = Some(i);
            },
        }
        i = i + 1;
    }
    proof {
        lemme_plus_ancienne(approbations@, approbations@.len() as int);
    }
    meilleure
}

/// La décision montrée pour ces demandes : aucune s'il n'y en a pas ; sinon la plus ancienne (la
/// première à égalité), dite en conséquence, avec son attente et le motif du modèle.
pub open spec fn decision_conforme(d: Option<Decision>, a: Seq<Approbation>, maintenant: i128) -> bool {
    &&& d is None <==> a.len() == 0
    &&& d matches Some(d) ==> {
        let k = plus_ancienne(a, a.len() as int)->0;
        let x = a[k];
        &&& d.question@ == x.summary@
        &&& d.consequence@ == consequence_de(x)
        &&& d.tache@ == x.task@
        &&& d.depuis_secondes == attente(maintenant, x.created)
        &&& d.irreversible == x.irreversible
        &&& d.motif matches Some(m) ==> x.motif matches Some(am) && m@ == am@
        &&& d.motif is None ==> x.motif is None
    }
}

/// La décision à montrer : la demande la plus ancienne, dite en conséquence, avec son attente.
pub fn decision_montree(approbations: &[Approbation], maintenant: i128) -> (d: Option<Decision>)
    ensures
        decision_conforme(d, approbations@, maintenant),
{
    match la_plus_ancienne(approbations) {
        None => None,
        Some(k) => {
            let a = &approbations[k];
            let depuis = attente_exec(maintenant, a.created);
            Some(Decision {
                question: a.summary.clone(),
                consequence: consequence(a),
                motif: match &a.motif {
                    Some(m) => Some(m.clone()),
                    None => None,
                },
                tache: a.task.clone(),
                depuis_secondes: depuis,
                irreversible: a.irreversible,
            })
        },
    }
}

/// Une tâche, telle que le runtime d'agents la rend, réduite à ce que la scène en montre.
#[derive(Debug, Clone)]
pub struct Tache {
    /// Identifiant.
    pub id: String,
    /// Ce qu'elle fait, en une phrase d'humain.
    pub intent: String,
    /// Le client officiel qui la mène, s'il y en a un.
    pub driver: Option<String>,
    /// L'agent qui la mène.
    pub agent: String,
    /// Son état exact.
    pub state: State,
    /// Étapes franchies.
    pub etapes: u32,
    /// Temps écoulé depuis son départ, en secondes.
    pub secondes: u64,
    /// Longueur de son historique d'états.
    pub historique: usize,
}

/// Le courant d'une tâche : son client officiel s'il y en a un, sinon son agent.
pub open spec fn courant_de(t: Tache) -> Courant {
    Courant {
        tache: t.id,
        intitule: t.intent,
        agent: match t.driver {
            Some(d) => d,
            None => t.agent,
        },
        etat: etat_de(t.state),
        etapes: t.etapes,
        secondes: t.secondes,
        task_state: Some(t.state),
        task_revision: t.historique,
    }
}

/// Les courants d'une liste de tâches : les tâches finies sont écartées, les autres gardent leur
/// ordre.
pub open spec fn courants_des_taches(t: Seq<Tache>) -> Seq<Courant>
    decreases t.len(),
{
    if t.len() == 0 {
        Seq::empty()
    } else if etat_de(t.last().state) == Etat::Fini {
        courants_des_taches(t.drop_last())
    } else {
        courants_des_taches(t.drop_last()).push(courant_de(t.last()))
    }
}

fn courant_exec(t: &Tache) -> (c: Courant)
    ensures
        c == courant_de(*t),
{
    Courant {
        tache: t.id.clone(),
        intitule: t.intent.clone(),
        agent: match &t.driver {
            Some(d) => d.clone(),
            None => t.agent.clone(),
        },
        etat: etat(t.state),
        etapes: t.etapes,
        secondes: t.secondes,
        task_state: Some(t.state),
        task_revision: t.historique,
    }
}

/// Les courants à montrer : ce qui est fini n'a plus besoin d'être surveillé, et prendrait la
/// place de ce qui travaille.
pub fn courants_de(taches: &[Tache]) -> (r: Vec<Courant>)
    ensures
        r@ == courants_des_taches(taches@),
{
    let mut r: Vec<Courant> = Vec::new();
    for i in 0..taches.len()
        invariant
            r@ == courants_des_taches(taches@.take(i as int)),
    {
        assert(taches@.take(i + 1).drop_last() == taches@.take(i as int));
        assert(taches@.take(i + 1).last() == taches@[i as int]);
        if etat(taches[i].state) != Etat::Fini {
            r.push(courant_exec(&taches[i]));
        }
    }
    assert(taches@.take(taches@.len() as int) == taches@);
    r
}

/// Construit la scène à montrer : les courants des tâches qui ne sont pas finies, dans l'ordre où
/// ils se dessinent, la plus ancienne des décisions en attente, l'isolation de la machine, l'heure
/// et la date.
pub fn scene_de(
    taches: &[Tache],
    approbations: &[Approbation],
    niveau_max: u8,
    manque: Option<String>,
    heure: String,
    date: String,
    maintenant: i128,
) -> (s: Scene)
    ensures
        s.heure == heure,
        s.date == date,
        s.courants@.to_multiset() == courants_des_taches(taches@).to_multiset(),
        dans_l_ordre(s.courants@),
        exists|p: Seq<int>| rangement_stable(courants_des_taches(taches@), s.courants@, p),
        decision_conforme(s.decision, approbations@, maintenant),
        s.isolation == (Isolation { niveau_max, manque, reserve: None }),
{
    Scene {
        heure,
        date,
        courants: ordonnes(courants_de(taches)),
        decision: decision_montree(approbations, maintenant),
        isolation: Isolation { niveau_max, manque, reserve: None },
    }
}

/// Ce qui est fini n'est plus surveillé : aucun courant de la scène n'est celui d'une tâche
/// finie, et chaque tâche qui n'est pas finie a le sien.
pub proof fn loi_rien_de_fini_n_est_surveille(t: Seq<Tache>)
    ensures
        forall|i: int|
            0 <= i < courants_des_taches(t).len() ==> (#[trigger] courants_des_taches(t)[i]).etat
                != Etat::Fini,
        courants_des_taches(t).len() <= t.len(),
    decreases t.len(),
{
    if t.len() > 0 {
        loi_rien_de_fini_n_est_surveille(t.drop_last());
        let p = courants_des_taches(t.drop_last());
        if etat_de(t.last().state) != Etat::Fini {
            assert forall|i: int| 0 <= i < p.len() + 1 implies (#[trigger] p.push(
                courant_de(t.last()),
            )[i]).etat != Etat::Fini by {
                if i < p.len() {
                    assert(p.push(courant_de(t.last()))[i] == p[i]);
                }
            }
        }
    }
}

} // verus!
