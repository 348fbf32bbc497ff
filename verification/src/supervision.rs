//! Espace de supervision : ce qu'il montre des missions, de la machine et de la conversation,
//! en mots et en comptes.

use vstd::prelude::*;
use crate::arret::Arret;
use crate::fenetre::Reponse;
use crate::atelier::ClientCard;
use crate::mission_details::{libelle_statut, status};
use crate::scene::{reclame_le_regard, Courant, Etat, Reserve, Scene, State, terminal};
use crate::texte::{
    ajouter, ajouter_car, ajouter_decimal, bornes_sans_blancs, caracteres, contient_sous,
    contient_sous_texte, decimal, egal, en_minuscules_unicode, minuscules_unicode, pousser,
    rogner, sans_blancs, texte_de, tranche,
};

verus! {

/// L'espace fine qui sépare les groupes de chiffres.
pub open spec fn espace_fine() -> char {
    '\u{202f}'
}

/// Les `i` premiers chiffres de `d`, groupés par trois à partir de la droite.
pub open spec fn groupe(d: Seq<char>, i: int) -> Seq<char>
    decreases i,
{
    if i <= 0 || i > d.len() {
        seq![]
    } else {
        let avant = groupe(d, i - 1);
        let k = i - 1;
        if k > 0 && (d.len() - k) % 3 == 0 {
            avant.push(espace_fine()).push(d[k])
        } else {
            avant.push(d[k])
        }
    }
}

/// Les chiffres d'un texte, sans les espaces fines.
pub open spec fn sans_espaces_fines(s: Seq<char>) -> Seq<char>
    decreases s.len(),
{
    if s.len() == 0 {
        seq![]
    } else if s.last() == espace_fine() {
        sans_espaces_fines(s.drop_last())
    } else {
        sans_espaces_fines(s.drop_last()).push(s.last())
    }
}

proof fn lemme_decimal_chiffres(n: nat)
    ensures
        forall|k: int| 0 <= k < decimal(n).len() ==> #[trigger] decimal(n)[k] != espace_fine(),
        decimal(n).len() > 0,
    decreases n,
{
    if n >= 10 {
        lemme_decimal_chiffres(n / 10);
    }
}

proof fn lemme_groupe(d: Seq<char>, i: int)
    requires
        0 <= i <= d.len(),
        forall|k: int| 0 <= k < d.len() ==> #[trigger] d[k] != espace_fine(),
    ensures
        sans_espaces_fines(groupe(d, i)) == d.take(i),
    decreases i,
{
    if i > 0 {
        lemme_groupe(d, i - 1);
        let avant = groupe(d, i - 1);
        let k = i - 1;
        assert(d.take(i) =~= d.take(i - 1).push(d[k]));
        assert(d[k] != espace_fine());
        if k > 0 && (d.len() - k) % 3 == 0 {
            let x = avant.push(espace_fine());
            let y = x.push(d[k]);
            assert(groupe(d, i) == y);
            assert(y.drop_last() == x);
            assert(x.drop_last() == avant);
            assert(sans_espaces_fines(x) == sans_espaces_fines(avant));
            assert(sans_espaces_fines(y) == sans_espaces_fines(x).push(d[k]));
        } else {
            let y = avant.push(d[k]);
            assert(groupe(d, i) == y);
            assert(y.drop_last() == avant);
            assert(sans_espaces_fines(y) == sans_espaces_fines(avant).push(d[k]));
        }
    } else {
        assert(d.take(0) =~= seq![]);
    }
}

/// La distance à la fin du texte groupé d'un chiffre suivi de `t - 1` autres : ces chiffres
/// et les espaces fines entre eux.
pub open spec fn reste_groupe(t: int) -> int {
    if t <= 0 {
        0
    } else {
        t + (t - 1) / 3
    }
}

/// La distance à la fin du texte groupé de la place où s'écrit le chiffre `i` (ou l'espace
/// fine qui le précède), pour `l` chiffres.
pub open spec fn avant_chiffre(l: int, i: int) -> int {
    reste_groupe(l - i) + if i > 0 && i < l && (l - i) % 3 == 0 {
        1int
    } else {
        0int
    }
}

#[verifier::spinoff_prover]
#[verifier::rlimit(40)]
proof fn lemme_places_des_espaces(d: Seq<char>, i: int)
    requires
        0 <= i <= d.len(),
        d.len() > 0,
        forall|k: int| 0 <= k < d.len() ==> #[trigger] d[k] != espace_fine(),
    ensures
        groupe(d, i).len() == reste_groupe(d.len() as int) - avant_chiffre(d.len() as int, i),
        forall|q: int|
            0 <= q < groupe(d, i).len() ==> ((#[trigger] groupe(d, i)[q] == espace_fine()) <==> (
            q > 0 && (reste_groupe(d.len() as int) - q) % 4 == 0)),
    decreases i,
{
    let l = d.len() as int;
    let n = reste_groupe(l);
    if i > 0 {
        lemme_places_des_espaces(d, i - 1);
        let k = i - 1;
        let t = l - k;
        let avant = groupe(d, k);
        assert(avant.len() == n - avant_chiffre(l, k));
        if k > 0 && t % 3 == 0 {
            let x = avant.push(espace_fine());
            let y = x.push(d[k]);
            assert(groupe(d, i) == y);
            assert(reste_groupe(l) >= reste_groupe(t + 1) + (k - 1));
            assert forall|q: int| 0 <= q < y.len() implies ((#[trigger] y[q] == espace_fine()) <==> (
            q > 0 && (n - q) % 4 == 0)) by {
                if q < avant.len() {
                    assert(y[q] == avant[q]);
                } else if q == avant.len() {
                    assert(y[q] == espace_fine());
                } else {
                    assert(y[q] == d[k]);
                }
            }
        } else {
            let y = avant.push(d[k]);
            assert(groupe(d, i) == y);
            assert forall|q: int| 0 <= q < y.len() implies ((#[trigger] y[q] == espace_fine()) <==> (
            q > 0 && (n - q) % 4 == 0)) by {
                if q < avant.len() {
                    assert(y[q] == avant[q]);
                } else {
                    assert(y[q] == d[k]);
                }
            }
        }
    }
}

/// Un nombre groupé se lit par groupes de trois : le texte compte autant de caractères que de
/// chiffres plus une espace fine par groupe après le premier, et une espace fine se trouve
/// exactement aux places dont la distance à la fin est un multiple de quatre, sauf la première.
/// Chaque groupe après le premier a donc exactement trois chiffres, et le premier un à trois.
pub proof fn loi_groupes_de_trois(n: nat)
    ensures
        ({
            let d = decimal(n);
            let r = groupe(d, d.len() as int);
            &&& r.len() == d.len() + (d.len() - 1) / 3
            &&& forall|q: int|
                0 <= q < r.len() ==> ((#[trigger] r[q] == espace_fine()) <==> (q > 0 && (r.len()
                    - q) % 4 == 0))
        }),
{
    lemme_decimal_chiffres(n);
    lemme_places_des_espaces(decimal(n), decimal(n).len() as int);
}

/// Un nombre en groupes de trois chiffres, séparés d'une espace fine : 40 960.
///
/// Sans ses espaces fines, le texte est l'écriture décimale du nombre.
pub fn groupes(n: u64) -> (r: String)
    ensures
        r@ == groupe(decimal(n as nat), decimal(n as nat).len() as int),
        sans_espaces_fines(r@) == decimal(n as nat),
{
    let mut chiffres = String::new();
    ajouter_decimal(&mut chiffres, n);
    assert(chiffres@ =~= decimal(n as nat));
    let d = caracteres(chiffres.as_str());
    let mut out = String::new();
    let mut i: usize = 0;
    while i < d.len()
        invariant
            i <= d@.len(),
            out@ == groupe(d@, i as int),
        decreases d@.len() - i,
    {
        if i > 0 && (d.len() - i) % 3 == 0 {
            pousser(&mut out, '\u{202f}');
        }
        pousser(&mut out, d[i]);
        i = i + 1;
    }
    proof {
        lemme_decimal_chiffres(n as nat);
        lemme_groupe(d@, d@.len() as int);
        assert(d@.take(d@.len() as int) == d@);
    }
    out
}

/// Ce que la conversation a laissé hors de l'envoi pour tenir dans la fenêtre du modèle.
pub open spec fn oubli_mots(messages: nat) -> Seq<char> {
    if messages == 1 {
        "Le premier message ne tient plus dans la fenêtre du modèle : il ne l'a pas relu."@
    } else {
        "Les "@ + decimal(messages)
            + " premiers messages ne tiennent plus dans la fenêtre du modèle : il ne les a pas relus."@
    }
}

/// Ce que la conversation a laissé hors de l'envoi pour tenir dans la fenêtre du modèle.
pub fn oubli(messages: usize) -> (r: String)
    ensures
        r@ == oubli_mots(messages as nat),
{
    if messages == 1 {
        "Le premier message ne tient plus dans la fenêtre du modèle : il ne l'a pas relu.".to_owned()
    } else {
        let mut r = "Les ".to_owned();
        ajouter_decimal(&mut r, messages as u64);
        ajouter(
            &mut r,
            " premiers messages ne tiennent plus dans la fenêtre du modèle : il ne les a pas relus.",
        );
        r
    }
}

/// La réserve de microVM en une phrase.
pub open spec fn reserve_mots(pretes: nat, cible: nat, erreur: Option<Seq<char>>) -> Seq<char> {
    if erreur is Some && pretes == 0 {
        "Réserve de microVM vide : "@ + erreur->0 + ". Le niveau 2 démarre à froid."@
    } else {
        "Réserve : "@ + decimal(pretes) + " microVM prête"@ + (if pretes > 1 {
            "s"@
        } else {
            ""@
        }) + " sur "@ + decimal(cible) + " — le niveau 2 part sans attendre de démarrage."@
    }
}

/// La réserve de microVM en une phrase : pleine, partielle ou vide.
pub fn reserve_en_mots(reserve: &Reserve) -> (r: String)
    ensures
        r@ == reserve_mots(
            reserve.pretes as nat,
            reserve.cible as nat,
            match reserve.erreur {
                Some(e) => Some(e@),
                None => None,
            },
        ),
{
    match &reserve.erreur {
        Some(erreur) if reserve.pretes == 0 => {
            let mut r = "Réserve de microVM vide : ".to_owned();
            ajouter(&mut r, erreur.as_str());
            ajouter(&mut r, ". Le niveau 2 démarre à froid.");
            r
        },
        _ => {
            let mut r = "Réserve : ".to_owned();
            ajouter_decimal(&mut r, reserve.pretes);
            ajouter(&mut r, " microVM prête");
            if reserve.pretes > 1 {
                ajouter(&mut r, "s");
            } else {
                ajouter(&mut r, "");
            }
            ajouter(&mut r, " sur ");
            ajouter_decimal(&mut r, reserve.cible);
            ajouter(&mut r, " — le niveau 2 part sans attendre de démarrage.");
            r
        },
    }
}

/// Un texte coupé à chaque fin de ligne.
pub open spec fn separe(s: Seq<char>) -> Seq<Seq<char>>
    decreases s.len(),
{
    if s.len() == 0 {
        seq![seq![]]
    } else {
        let p = separe(s.drop_last());
        if s.last() == '\n' {
            p.push(seq![])
        } else {
            p.update(p.len() - 1, p.last().push(s.last()))
        }
    }
}

proof fn lemme_separe(s: Seq<char>)
    ensures
        separe(s).len() > 0,
    decreases s.len(),
{
    if s.len() > 0 {
        lemme_separe(s.drop_last());
    }
}

/// Une ligne de relevé, si elle n'est pas vide : « ! … » est un manque.
pub open spec fn constat(l: Seq<char>) -> Option<(bool, Seq<char>)> {
    let t = sans_blancs(l);
    if t.len() == 0 {
        None
    } else if t[0] == '!' {
        Some((true, sans_blancs(t.drop_first())))
    } else {
        Some((false, t))
    }
}

/// Les constats des `n` premières lignes.
pub open spec fn constats(ls: Seq<Seq<char>>, n: int) -> Seq<(bool, Seq<char>)>
    decreases n,
{
    if n <= 0 || n > ls.len() {
        seq![]
    } else {
        match constat(ls[n - 1]) {
            Some(c) => constats(ls, n - 1).push(c),
            None => constats(ls, n - 1),
        }
    }
}

/// Le relevé d'un texte : chaque ligne non vide, et si l'installeur l'a marquée comme un manque.
pub open spec fn releve(s: Seq<char>) -> Seq<(bool, Seq<char>)> {
    constats(separe(s), separe(s).len() as int)
}

fn constat_exec(l: &[char]) -> (r: Option<(bool, String)>)
    ensures
        match constat(l@) {
            Some(c) => r matches Some(x) && x.0 == c.0 && x.1@ == c.1,
            None => r is None,
        },
{
    let (d, f) = bornes_sans_blancs(l);
    if d == f {
        return None;
    }
    let t = tranche(l, d, f);
    if t[0] == '!' {
        let reste = tranche(t.as_slice(), 1, t.len());
        let (d2, f2) = bornes_sans_blancs(reste.as_slice());
        let u = tranche(reste.as_slice(), d2, f2);
        assert(reste@ == t@.drop_first());
        Some((true, texte_de(u.as_slice())))
    } else {
        Some((false, texte_de(t.as_slice())))
    }
}

/// Les lignes d'un relevé : « ! … » est un manque, le reste une constatation ; le vide est
/// ignoré.
pub fn lire_inventaire(texte: &str) -> (r: Vec<(bool, String)>)
    ensures
        r@.len() == releve(texte@).len(),
        forall|k: int|
            0 <= k < r@.len() ==> (#[trigger] r@[k]).0 == releve(texte@)[k].0 && r@[k].1@
                == releve(texte@)[k].1,
{
    let v = caracteres(texte);
    let mut r: Vec<(bool, String)> = Vec::new();
    let mut ligne: Vec<char> = Vec::new();
    let mut i: usize = 0;
    let ghost mut faites: Seq<Seq<char>> = seq![];
    while i < v.len()
        invariant
            i <= v@.len(),
            separe(v@.take(i as int)) == faites.push(ligne@),
            r@.len() == constats(faites, faites.len() as int).len(),
            forall|k: int|
                0 <= k < r@.len() ==> (#[trigger] r@[k]).0 == constats(faites, faites.len() as int)[k].0
                    && r@[k].1@ == constats(faites, faites.len() as int)[k].1,
        decreases v@.len() - i,
    {
        let c = v[i];
        assert(v@.take(i + 1).drop_last() == v@.take(i as int));
        assert(v@.take(i + 1).last() == c);
        if c == '\n' {
            let ghost avant = faites;
            let ghost cette = ligne@;
            let x = constat_exec(ligne.as_slice());
            match x {
                Some(e) => {
                    r.push(e);
                },
                None => {},
            }
            proof {
                faites = faites.push(cette);
                assert(faites.drop_last() == avant);
                assert forall|k: int| 0 <= k < avant.len() implies #[trigger] faites[k] == avant[k] by {}
                lemme_constats_prefixe(faites, avant);
            }
            ligne = Vec::new();
            assert(separe(v@.take(i + 1)) =~= faites.push(ligne@));
        } else {
            ligne.push(c);
            proof {
                lemme_separe(v@.take(i as int));
            }
            assert(separe(v@.take(i + 1)) =~= faites.push(ligne@));
        }
        i = i + 1;
    }
    let ghost avant = faites;
    let ghost cette = ligne@;
    let x = constat_exec(ligne.as_slice());
    match x {
        Some(e) => {
            r.push(e);
        },
        None => {},
    }
    proof {
        let tout = faites.push(cette);
        assert(tout.drop_last() == avant);
        lemme_constats_prefixe(tout, avant);
        assert(v@.take(v@.len() as int) == v@);
    }
    r
}

proof fn lemme_constats_prefixe(tout: Seq<Seq<char>>, avant: Seq<Seq<char>>)
    requires
        tout.len() == avant.len() + 1,
        forall|k: int| 0 <= k < avant.len() ==> #[trigger] tout[k] == avant[k],
    ensures
        constats(tout, avant.len() as int) == constats(avant, avant.len() as int),
        constats(tout, tout.len() as int) == (match constat(tout.last()) {
            Some(c) => constats(avant, avant.len() as int).push(c),
            None => constats(avant, avant.len() as int),
        }),
{
    lemme_constats_egaux(tout, avant, avant.len() as int);
}

proof fn lemme_constats_egaux(a: Seq<Seq<char>>, b: Seq<Seq<char>>, n: int)
    requires
        0 <= n <= a.len(),
        n <= b.len(),
        forall|k: int| 0 <= k < n ==> #[trigger] a[k] == b[k],
    ensures
        constats(a, n) == constats(b, n),
    decreases n,
{
    if n > 0 {
        lemme_constats_egaux(a, b, n - 1);
        assert(a[n - 1] == b[n - 1]);
    }
}

/// Le libellé d'un état du champ, quand l'état exact n'est pas connu.
pub open spec fn libelle_etat(etat: Etat) -> Seq<char> {
    match etat {
        Etat::Court => "En cours"@,
        Etat::Attend => "Votre décision"@,
        Etat::Bloque => "À examiner"@,
        Etat::Fini => "Terminée"@,
    }
}

/// Le libellé d'un état du champ, quand l'état exact n'est pas connu.
pub fn statut(etat: Etat) -> (r: &'static str)
    ensures
        r@ == libelle_etat(etat),
{
    match etat {
        Etat::Court => "En cours",
        Etat::Attend => "Votre décision",
        Etat::Bloque => "À examiner",
        Etat::Fini => "Terminée",
    }
}

/// Le libellé d'une mission : son état exact s'il est connu, sinon son état dans le champ.
pub fn statut_mission(c: &Courant) -> (r: &'static str)
    ensures
        r@ == (match c.task_state {
            Some(s) => libelle_statut(s),
            None => libelle_etat(c.etat),
        }),
{
    match c.task_state {
        Some(s) => status(s),
        None => statut(c.etat),
    }
}

/// Une mission que l'arrêt d'urgence arrêterait : elle n'est pas finie.
pub open spec fn a_arreter_un(c: Courant) -> bool {
    match c.task_state {
        Some(s) => !terminal(s),
        None => c.etat != Etat::Fini,
    }
}

/// Le nombre de missions à arrêter parmi les `n` premières.
pub open spec fn compte_a_arreter(c: Seq<Courant>, n: int) -> nat
    decreases n,
{
    if n <= 0 || n > c.len() {
        0
    } else {
        compte_a_arreter(c, n - 1) + if a_arreter_un(c[n - 1]) {
            1nat
        } else {
            0nat
        }
    }
}

/// Les missions que l'arrêt d'urgence arrêterait : toutes celles qui ne sont pas finies.
pub fn a_arreter(scene: &Scene) -> (r: usize)
    ensures
        r == compte_a_arreter(scene.courants@, scene.courants@.len() as int),
{
    let mut n: usize = 0;
    let mut i: usize = 0;
    while i < scene.courants.len()
        invariant
            i <= scene.courants@.len(),
            n == compte_a_arreter(scene.courants@, i as int),
            n <= i,
        decreases scene.courants@.len() - i,
    {
        let c = &scene.courants[i];
        let arreter = match c.task_state {
            Some(s) => !s.is_terminal(),
            None => c.etat != Etat::Fini,
        };
        if arreter {
            n = n + 1;
        }
        i = i + 1;
    }
    n
}

/// Le filtre de la liste des missions.
#[derive(Debug, Clone, Copy, Default, PartialEq, Eq, Structural)]
pub enum Filtre {
    /// Toutes.
    #[default]
    Toutes,
    /// Celles qui réclament le regard.
    Attention,
    /// Celles qui avancent.
    Actives,
    /// Celles qui sont finies.
    Terminees,
}

/// Une mission passe-t-elle le filtre ?
pub open spec fn passe(f: Filtre, c: Courant) -> bool {
    match f {
        Filtre::Toutes => true,
        Filtre::Attention => c.etat == Etat::Bloque || c.etat == Etat::Attend,
        Filtre::Actives => c.etat == Etat::Court,
        Filtre::Terminees => match c.task_state {
            Some(s) => terminal(s),
            None => c.etat == Etat::Fini,
        },
    }
}

impl Filtre {
    /// Une mission passe-t-elle le filtre ?
    pub fn inclut(self, courant: &Courant) -> (r: bool)
        ensures
            r == passe(self, *courant),
    {
        match self {
            Filtre::Toutes => true,
            Filtre::Attention => courant.reclame(),
            Filtre::Actives => courant.etat == Etat::Court,
            Filtre::Terminees => match courant.task_state {
                Some(s) => s.is_terminal(),
                None => courant.etat == Etat::Fini,
            },
        }
    }
}

/// Un filtre ne fait jamais passer une mission bloquée pour une mission qui avance.
pub proof fn loi_filtre_bloque(c: Courant)
    requires
        c.etat == Etat::Bloque,
    ensures
        passe(Filtre::Attention, c),
        !passe(Filtre::Actives, c),
{
}

/// L'empreinte d'une décision : ce qui la distingue d'une autre, champ par champ.
pub open spec fn empreinte(s: Scene) -> Option<Seq<char>> {
    match s.decision {
        Some(d) => Some(
            d.tache@ + seq!['\0'] + d.question@ + seq!['\0'] + d.consequence@ + seq!['\0'] + (if d.irreversible {
                "true"@
            } else {
                "false"@
            }) + seq!['\0'] + (match d.motif {
                Some(m) => m@,
                None => seq![],
            }),
        ),
        None => None,
    }
}

/// L'empreinte de la décision montrée, pour savoir si elle a changé.
pub fn empreinte_decision(scene: &Scene) -> (r: Option<String>)
    ensures
        match empreinte(*scene) {
            Some(e) => r matches Some(x) && x@ == e,
            None => r is None,
        },
{
    match &scene.decision {
        Some(d) => {
            let mut r = d.tache.clone();
            let ghost z = seq!['\0'];
            pousser(&mut r, '\0');
            assert(r@ =~= d.tache@ + z);
            ajouter(&mut r, d.question.as_str());
            pousser(&mut r, '\0');
            assert(r@ =~= d.tache@ + z + d.question@ + z);
            ajouter(&mut r, d.consequence.as_str());
            pousser(&mut r, '\0');
            assert(r@ =~= d.tache@ + z + d.question@ + z + d.consequence@ + z);
            if d.irreversible {
                ajouter(&mut r, "true");
            } else {
                ajouter(&mut r, "false");
            }
            pousser(&mut r, '\0');
            let ghost b = if d.irreversible {
                "true"@
            } else {
                "false"@
            };
            assert(r@ =~= d.tache@ + z + d.question@ + z + d.consequence@ + z + b + z);
            match &d.motif {
                Some(m) => ajouter(&mut r, m.as_str()),
                None => {},
            }
            let ghost m = match d.motif {
                Some(ref m) => m@,
                None => seq![],
            };
            assert(r@ =~= d.tache@ + z + d.question@ + z + d.consequence@ + z + b + z + m);
            Some(r)
        },
        None => None,
    }
}

/// L'état d'un client officiel, tel que sa carte le montre.
#[derive(Debug, Clone, Copy, PartialEq, Eq, Structural)]
pub enum EtatDuClient {
    /// Une session est ouverte.
    Pret,
    /// Installé, mais il faut s'y connecter.
    AConnecter,
    /// Installé, sans qu'on sache si sa session est ouverte.
    Incertain,
    /// Absent de cette machine.
    Absent,
}

/// L'état d'un client en mots, et ce que l'humain peut y faire. `connexion_requise` et
/// `inconnue` sont les libellés que le pilote donne à une connexion requise et à une session
/// qu'il n'a pas pu vérifier.
pub open spec fn carte_du_client(
    card: ClientCard,
    connexion_requise: Seq<char>,
    inconnue: Seq<char>,
) -> (EtatDuClient, Seq<char>, Seq<char>) {
    if !card.present {
        (
            EtatDuClient::Absent,
            "Absent de cette machine"@,
            "Installez-le pour lui confier des missions."@,
        )
    } else if card.connected {
        (EtatDuClient::Pret, "Session ouverte"@, "Prêt à mener des missions, dans sa cage."@)
    } else if card.connection@ == connexion_requise {
        (
            EtatDuClient::AConnecter,
            "Installé, connexion requise"@,
            "Connectez-vous dans sa fenêtre."@,
        )
    } else if card.connection@ == inconnue {
        (
            EtatDuClient::Incertain,
            "Installé, session non vérifiée"@,
            "Ouvrez-le pour vérifier sa session."@,
        )
    } else {
        (
            EtatDuClient::Incertain,
            "Installé, "@ + card.connection@,
            "Ouvrez-le pour vérifier sa session."@,
        )
    }
}

/// L'état d'un client officiel en mots, et ce que l'humain peut y faire : la seconde ligne de
/// la carte ne répète pas la première. Une sonde incertaine ou en échec se dit comme telle, et
/// non comme une connexion requise. `connexion_requise` et `inconnue` sont les libellés que le
/// pilote donne à ces deux états de connexion.
pub fn etat_du_client(
    card: &ClientCard,
    connexion_requise: &str,
    inconnue: &str,
) -> (r: (EtatDuClient, String, &'static str))
    ensures
        (r.0, r.1@, r.2@) == carte_du_client(*card, connexion_requise@, inconnue@),
{
    let mut libelle = String::new();
    if !card.present {
        ajouter(&mut libelle, "Absent de cette machine");
        (EtatDuClient::Absent, libelle, "Installez-le pour lui confier des missions.")
    } else if card.connected {
        ajouter(&mut libelle, "Session ouverte");
        (EtatDuClient::Pret, libelle, "Prêt à mener des missions, dans sa cage.")
    } else if egal(card.connection.as_str(), connexion_requise) {
        ajouter(&mut libelle, "Installé, connexion requise");
        (EtatDuClient::AConnecter, libelle, "Connectez-vous dans sa fenêtre.")
    } else if egal(card.connection.as_str(), inconnue) {
        ajouter(&mut libelle, "Installé, session non vérifiée");
        (EtatDuClient::Incertain, libelle, "Ouvrez-le pour vérifier sa session.")
    } else {
        ajouter(&mut libelle, "Installé, ");
        ajouter(&mut libelle, card.connection.as_str());
        (EtatDuClient::Incertain, libelle, "Ouvrez-le pour vérifier sa session.")
    }
}

/// Le bouton d'arrêt de la page des missions : il n'apparaît que s'il y a quelque chose à
/// arrêter ou qu'un arrêt attend sa réponse, et dit alors « Arrêt… », sinon « Tout arrêter ».
pub fn bouton_d_arret(scene: &Scene, arret: &Arret) -> (r: Option<&'static str>)
    ensures
        r is Some <==> (compte_a_arreter(scene.courants@, scene.courants@.len() as int) > 0
            || arret@.en_vol),
        r matches Some(t) ==> t@ == if arret@.en_vol {
            "Arrêt…"@
        } else {
            "Tout arrêter"@
        },
{
    let en_cours = arret.en_cours();
    if a_arreter(scene) > 0 || en_cours {
        if en_cours {
            Some("Arrêt…")
        } else {
            Some("Tout arrêter")
        }
    } else {
        None
    }
}

/// La recherche telle qu'elle se compare : sans blancs autour, en minuscules.
pub open spec fn requete_normalisee(requete: Seq<char>) -> Seq<char> {
    minuscules_unicode(sans_blancs(requete))
}

/// Une mission répond à la recherche `q` (déjà normalisée) : recherche vide, ou `q` figure dans
/// son intitulé, son pilote ou son identifiant, en minuscules.
pub open spec fn repond_a(c: Courant, q: Seq<char>) -> bool {
    ||| q.len() == 0
    ||| contient_sous(minuscules_unicode(c.intitule@), q)
    ||| contient_sous(minuscules_unicode(c.agent@), q)
    ||| contient_sous(minuscules_unicode(c.tache@), q)
}

/// Les places des missions visibles parmi les `n` premières : celles qui passent le filtre et
/// répondent à la recherche, dans l'ordre de la scène.
pub open spec fn indices_visibles(c: Seq<Courant>, f: Filtre, q: Seq<char>, n: int) -> Seq<usize>
    decreases n,
{
    if n <= 0 || n > c.len() {
        seq![]
    } else if passe(f, c[n - 1]) && repond_a(c[n - 1], q) {
        indices_visibles(c, f, q, n - 1).push((n - 1) as usize)
    } else {
        indices_visibles(c, f, q, n - 1)
    }
}

/// La première des `n` premières missions de `v` qui réclame le regard.
pub open spec fn premiere_qui_reclame(v: Seq<Courant>, n: int) -> Option<int>
    decreases n,
{
    if n <= 0 || n > v.len() {
        None
    } else {
        match premiere_qui_reclame(v, n - 1) {
            Some(k) => Some(k),
            None => if reclame_le_regard(v[n - 1]) {
                Some(n - 1)
            } else {
                None
            },
        }
    }
}

/// La mission sélectionnée parmi les visibles `v` : celle qui l'était si elle est visible ;
/// sinon celle dont la décision attend ; sinon la première qui réclame le regard ; sinon la
/// première ; aucune s'il n'y a rien à voir.
pub open spec fn selection_retenue(
    v: Seq<Courant>,
    selection: Option<Seq<char>>,
    decision: Option<Seq<char>>,
) -> Option<Seq<char>> {
    if selection matches Some(s) && exists|k: int| 0 <= k < v.len() && (#[trigger] v[k]).tache@ == s {
        selection
    } else if decision matches Some(d) && exists|k: int|
        0 <= k < v.len() && (#[trigger] v[k]).tache@ == d {
        decision
    } else {
        match premiere_qui_reclame(v, v.len() as int) {
            Some(k) => Some(v[k].tache@),
            None => if v.len() > 0 {
                Some(v[0].tache@)
            } else {
                None
            },
        }
    }
}

proof fn lemme_indices_visibles(c: Seq<Courant>, f: Filtre, q: Seq<char>, n: int)
    requires
        0 <= n <= c.len(),
        c.len() <= usize::MAX,
    ensures
        forall|k: int|
            0 <= k < indices_visibles(c, f, q, n).len() ==> #[trigger] indices_visibles(
                c,
                f,
                q,
                n,
            )[k] < n,
    decreases n,
{
    if n > 0 {
        lemme_indices_visibles(c, f, q, n - 1);
        let p = indices_visibles(c, f, q, n - 1);
        if passe(f, c[n - 1]) && repond_a(c[n - 1], q) {
            assert forall|k: int| 0 <= k < p.push((n - 1) as usize).len() implies #[trigger] p.push(
                (n - 1) as usize,
            )[k] < n by {
                if k < p.len() {
                    assert(p.push((n - 1) as usize)[k] == p[k]);
                }
            }
        }
    }
}

proof fn lemme_visible_ou_non(c: Seq<Courant>, f: Filtre, q: Seq<char>, n: int, i: int)
    requires
        0 <= i < n <= c.len(),
        c.len() <= usize::MAX,
    ensures
        indices_visibles(c, f, q, n).contains(i as usize) <==> (passe(f, c[i]) && repond_a(c[i], q)),
    decreases n,
{
    let p = indices_visibles(c, f, q, n - 1);
    lemme_indices_visibles(c, f, q, n - 1);
    if i < n - 1 {
        lemme_visible_ou_non(c, f, q, n - 1, i);
        if passe(f, c[n - 1]) && repond_a(c[n - 1], q) {
            let x = p.push((n - 1) as usize);
            if x.contains(i as usize) {
                let k = choose|k: int| 0 <= k < x.len() && x[k] == i as usize;
                if k < p.len() {
                    assert(p[k] == i as usize);
                }
            }
            if p.contains(i as usize) {
                let k = choose|k: int| 0 <= k < p.len() && p[k] == i as usize;
                assert(x[k] == i as usize);
            }
        }
    } else {
        if passe(f, c[n - 1]) && repond_a(c[n - 1], q) {
            let x = p.push((n - 1) as usize);
            assert(x[p.len() as int] == i as usize);
        } else {
            if p.contains(i as usize) {
                let k = choose|k: int| 0 <= k < p.len() && p[k] == i as usize;
                assert(p[k] < n - 1);
            }
        }
    }
}

/// La recherche trouve une mission par son intitulé, son pilote ou son identifiant : une
/// mission est visible exactement quand elle passe le filtre et que la recherche est vide ou
/// figure, en minuscules, dans l'un des trois.
pub proof fn loi_la_recherche_trouve_par_intitule_pilote_ou_identifiant(
    c: Seq<Courant>,
    f: Filtre,
    q: Seq<char>,
    i: int,
)
    requires
        0 <= i < c.len(),
        c.len() <= usize::MAX,
    ensures
        indices_visibles(c, f, q, c.len() as int).contains(i as usize) <==> (passe(f, c[i]) && (
        q.len() == 0 || contient_sous(minuscules_unicode(c[i].intitule@), q) || contient_sous(
            minuscules_unicode(c[i].agent@),
            q,
        ) || contient_sous(minuscules_unicode(c[i].tache@), q))),
{
    lemme_visible_ou_non(c, f, q, c.len() as int, i);
}

/// L'arrêt d'urgence arrête tout ce qui n'est pas fini : une mission dont l'état exact est
/// connu compte tant qu'il n'est ni terminé, ni échoué, ni annulé, ni défait ; sans état
/// exact, tant que son courant n'est pas éteint.
pub proof fn loi_l_arret_compte_tout_ce_qui_n_est_pas_fini(c: Courant)
    ensures
        a_arreter_un(c) <==> match c.task_state {
            Some(s) => !(s == State::Done || s == State::Failed || s == State::Cancelled || s
                == State::RolledBack),
            None => c.etat != Etat::Fini,
        },
        c.task_state == Some(State::WaitingApproval) ==> a_arreter_un(c),
{
}

fn repond_a_exec(c: &Courant, q: &Vec<char>) -> (r: bool)
    ensures
        r == repond_a(*c, q@),
{
    if q.len() == 0 {
        return true;
    }
    let i = caracteres(en_minuscules_unicode(c.intitule.as_str()).as_str());
    if contient_sous_texte(i.as_slice(), q.as_slice()) {
        return true;
    }
    let a = caracteres(en_minuscules_unicode(c.agent.as_str()).as_str());
    if contient_sous_texte(a.as_slice(), q.as_slice()) {
        return true;
    }
    let t = caracteres(en_minuscules_unicode(c.tache.as_str()).as_str());
    contient_sous_texte(t.as_slice(), q.as_slice())
}

/// Ce que la page des missions montre : les places des missions visibles, dans l'ordre de la
/// scène (celles qui passent le filtre et répondent à la recherche, comparée sans blancs autour
/// et en minuscules), et la mission sélectionnée parmi elles.
#[verifier::loop_isolation(false)]
pub fn visibles_et_selection(
    scene: &Scene,
    filtre: Filtre,
    requete: &str,
    selection: Option<&str>,
) -> (r: (Vec<usize>, Option<String>))
    ensures
        r.0@ == indices_visibles(
            scene.courants@,
            filtre,
            requete_normalisee(requete@),
            scene.courants@.len() as int,
        ),
        ({
            let v = r.0@.map_values(|i: usize| scene.courants@[i as int]);
            let sel = match selection {
                Some(s) => Some(s@),
                None => None,
            };
            let dec = match scene.decision {
                Some(d) => Some(d.tache@),
                None => None,
            };
            match r.1 {
                Some(t) => selection_retenue(v, sel, dec) == Some(t@),
                None => selection_retenue(v, sel, dec) is None,
            }
        }),
{
    let brute = caracteres(requete);
    let rognee = rogner(brute.as_slice());
    let q = caracteres(en_minuscules_unicode(texte_de(rognee.as_slice()).as_str()).as_str());
    let ghost gq = requete_normalisee(requete@);
    assert(q@ == gq);
    let c = &scene.courants;
    let mut idx: Vec<usize> = Vec::new();
    let mut i: usize = 0;
    while i < c.len()
        invariant
            i <= c@.len(),
            c == &scene.courants,
            q@ == gq,
            idx@ == indices_visibles(c@, filtre, gq, i as int),
        decreases c@.len() - i,
    {
        if filtre.inclut(&c[i]) && repond_a_exec(&c[i], &q) {
            idx.push(i);
        }
        i = i + 1;
    }
    proof {
        lemme_indices_visibles(c@, filtre, gq, c@.len() as int);
    }
    let ghost v = idx@.map_values(|k: usize| c@[k as int]);
    let ghost sel = match selection {
        Some(s) => Some(s@),
        None => None,
    };
    let ghost dec = if scene.decision is Some {
        Some(scene.decision.unwrap().tache@)
    } else {
        None
    };
    let n = idx.len();
    if let Some(s) = selection {
        let mut k: usize = 0;
        while k < n
            invariant
                n == idx@.len(),
                k <= n,
                forall|j: int| 0 <= j < idx@.len() ==> #[trigger] idx@[j] < c@.len(),
                v == idx@.map_values(|k: usize| c@[k as int]),
                forall|j: int| 0 <= j < k ==> (#[trigger] v[j]).tache@ != s@,
            decreases n - k,
        {
            if egal(c[idx[k]].tache.as_str(), s) {
                assert(v[k as int].tache@ == s@);
                return (idx, Some(s.to_owned()));
            }
            k = k + 1;
        }
    }
    if let Some(d) = &scene.decision {
        let mut k: usize = 0;
        while k < n
            invariant
                n == idx@.len(),
                k <= n,
                forall|j: int| 0 <= j < idx@.len() ==> #[trigger] idx@[j] < c@.len(),
                v == idx@.map_values(|k: usize| c@[k as int]),
                forall|j: int| 0 <= j < k ==> (#[trigger] v[j]).tache@ != d.tache@,
            decreases n - k,
        {
            if egal(c[idx[k]].tache.as_str(), d.tache.as_str()) {
                assert(v[k as int].tache@ == d.tache@);
                return (idx, Some(d.tache.clone()));
            }
            k = k + 1;
        }
    }
    let mut k: usize = 0;
    while k < n
        invariant
            n == idx@.len(),
            k <= n,
            forall|j: int| 0 <= j < idx@.len() ==> #[trigger] idx@[j] < c@.len(),
            v == idx@.map_values(|k: usize| c@[k as int]),
            premiere_qui_reclame(v, k as int) is None,
        decreases n - k,
    {
        if c[idx[k]].reclame() {
            assert(premiere_qui_reclame(v, k + 1) == Some(k as int));
            assert(premiere_qui_reclame(v, n as int) == Some(k as int)) by {
                lemme_premiere_reste(v, k + 1, n as int);
            }
            let t = c[idx[k]].tache.clone();
            return (idx, Some(t));
        }
        k = k + 1;
    }
    if n > 0 {
        let t = c[idx[0]].tache.clone();
        (idx, Some(t))
    } else {
        (idx, None)
    }
}

proof fn lemme_premiere_reste(v: Seq<Courant>, m: int, n: int)
    requires
        0 <= m <= n <= v.len(),
        premiere_qui_reclame(v, m) is Some,
    ensures
        premiere_qui_reclame(v, n) == premiere_qui_reclame(v, m),
    decreases n - m,
{
    if n > m {
        lemme_premiere_reste(v, m, n - 1);
    }
}

/// Un ordre dit pendant l'écoute.
#[derive(Debug, Clone, PartialEq, Eq)]
pub enum Ordre {
    /// « prépare » : préparer l'objectif relu.
    Preparer,
    /// « lance la mission » : lancer la mission choisie.
    Lancer,
    /// « résultat » : entendre le résultat de la mission regardée.
    Resultat,
    /// « accorde » : accorder la décision montrée.
    Accorder,
    /// « refuse » : refuser la décision montrée.
    Refuser,
    /// « ouvre … » : ouvrir une application du bureau.
    Ouvrir(String),
    /// Une intention dictée, qui reste dans le brouillon.
    Intention,
}

/// Ce qu'un ordre dit fait faire.
#[derive(Debug, Clone, PartialEq, Eq)]
pub enum Geste {
    /// Envoyer la préparation du brouillon.
    Preparer,
    /// Envoyer la commande de lancement de la mission choisie.
    Lancer,
    /// Dire le résultat de la mission regardée.
    DireLeResultat,
    /// Répondre à la décision montrée ; l'examen en cours se referme.
    Repondre(Reponse),
    /// Demander au lanceur du bureau d'ouvrir cette application.
    Ouvrir(String),
    /// Dire sous le brouillon que l'ordre ne peut pas être suivi.
    Signaler(String),
    /// Rien.
    Rien,
}

/// Ce que fait un ordre dit pendant l'écoute : accorder ou refuser ne vaut que si une décision
/// est montrée, sinon l'ordre est signalé sans suite.
pub fn geste_de_l_ordre(ordre: Ordre, decision_montree: bool) -> (r: Geste)
    ensures
        match (r, ordre) {
            (Geste::Preparer, Ordre::Preparer) => true,
            (Geste::Lancer, Ordre::Lancer) => true,
            (Geste::DireLeResultat, Ordre::Resultat) => true,
            (Geste::Repondre(x), Ordre::Accorder) => decision_montree && x == Reponse::Accepte,
            (Geste::Repondre(x), Ordre::Refuser) => decision_montree && x == Reponse::Refuse,
            (Geste::Signaler(m), Ordre::Accorder) | (Geste::Signaler(m), Ordre::Refuser) =>
                !decision_montree && m@ == "« accorde » / « refuse » : aucune décision n'attend."@,
            (Geste::Ouvrir(a), Ordre::Ouvrir(b)) => a == b,
            (Geste::Rien, Ordre::Intention) => true,
            _ => false,
        },
{
    match ordre {
        Ordre::Preparer => Geste::Preparer,
        Ordre::Lancer => Geste::Lancer,
        Ordre::Resultat => Geste::DireLeResultat,
        Ordre::Accorder => if decision_montree {
            Geste::Repondre(Reponse::Accepte)
        } else {
            Geste::Signaler("« accorde » / « refuse » : aucune décision n'attend.".to_owned())
        },
        Ordre::Refuser => if decision_montree {
            Geste::Repondre(Reponse::Refuse)
        } else {
            Geste::Signaler("« accorde » / « refuse » : aucune décision n'attend.".to_owned())
        },
        Ordre::Ouvrir(cible) => Geste::Ouvrir(cible),
        Ordre::Intention => Geste::Rien,
    }
}

/// Ce qui se dit sous le brouillon quand le geste d'un ordre échoue : l'ordre entre
/// guillemets, puis la raison ; pour « ouvre », qu'il n'y a pas de lanceur du bureau.
pub open spec fn echec_de(ordre: Ordre, erreur: Seq<char>) -> Seq<char> {
    match ordre {
        Ordre::Preparer => "« prépare » : "@ + erreur,
        Ordre::Lancer => "« lance la mission » : "@ + erreur,
        Ordre::Ouvrir(cible) => "« ouvre "@ + cible@
            + " » : pas de lanceur du bureau sur cette machine."@,
        _ => erreur,
    }
}

/// Ce qui se dit sous le brouillon quand le geste d'un ordre échoue avec `erreur`.
pub fn erreur_de_l_ordre(ordre: &Ordre, erreur: &str) -> (r: String)
    ensures
        r@ == echec_de(*ordre, erreur@),
{
    let mut r = String::new();
    match ordre {
        Ordre::Preparer => {
            ajouter(&mut r, "« prépare » : ");
            ajouter(&mut r, erreur);
        },
        Ordre::Lancer => {
            ajouter(&mut r, "« lance la mission » : ");
            ajouter(&mut r, erreur);
        },
        Ordre::Ouvrir(cible) => {
            ajouter(&mut r, "« ouvre ");
            ajouter(&mut r, cible.as_str());
            ajouter(&mut r, " » : pas de lanceur du bureau sur cette machine.");
        },
        _ => {
            ajouter(&mut r, erreur);
        },
    }
    r
}

} // verus!
