//! Ce que l'espace d'une mission dit d'elle : son état, son parcours, ses gestes, en mots.

use vstd::prelude::*;
use crate::missions::{Action, Detail, Outcome, IssueV, TrailEntry, GesteV};
use crate::scene::{Courant, State, WorkspaceState};
use crate::texte::{
    ajouter, ajouter_car, ajouter_decimal, bornes_sans_blancs, caracteres, commence_par,
    commence_par_car, decimal, deux_chiffres, ecrire_deux_chiffres, egal, pousser, sans_blancs,
    texte_de, tranche,
};

verus! {

/// Le libellé de l'état exact d'une mission.
pub open spec fn libelle_statut(state: State) -> Seq<char> {
    match state {
        State::Pending => "À préparer"@,
        State::Planned => "Plan à examiner"@,
        State::Running => "En cours"@,
        State::WaitingApproval => "Votre décision"@,
        State::Paused => "En pause"@,
        State::Done => "Exécution terminée"@,
        State::Failed => "Échec"@,
        State::Cancelled => "Annulée"@,
        State::RolledBack => "Changements annulés"@,
    }
}

/// Le libellé de l'état exact d'une mission.
pub fn status(state: State) -> (r: &'static str)
    ensures
        r@ == libelle_statut(state),
{
    match state {
        State::Pending => "À préparer",
        State::Planned => "Plan à examiner",
        State::Running => "En cours",
        State::WaitingApproval => "Votre décision",
        State::Paused => "En pause",
        State::Done => "Exécution terminée",
        State::Failed => "Échec",
        State::Cancelled => "Annulée",
        State::RolledBack => "Changements annulés",
    }
}

/// L'état de publication, tel que l'humain doit le lire avant de commander.
pub open spec fn libelle_publication(state: WorkspaceState) -> Seq<char> {
    match state {
        WorkspaceState::Open => "Versions examinables. Vos documents n'ont pas été modifiés."@,
        WorkspaceState::Applying => "Publication interrompue : reprenez-la pour terminer l'intention enregistrée."@,
        WorkspaceState::Undoing => "Annulation interrompue : reprenez-la pour rétablir vos documents."@,
        WorkspaceState::Conflict => "Publication interrompue sur un conflit. Les fichiers déplacés sont conservés ; une résolution explicite est nécessaire."@,
        WorkspaceState::Committed => "Versions publiées dans vos documents. Annulable tant qu'ils n'ont pas changé."@,
        WorkspaceState::RolledBack => "Publication annulée : documents initiaux rétablis."@,
        WorkspaceState::Abandoned => "Travail abandonné sans publication."@,
    }
}

/// L'état de publication, tel que l'humain doit le lire avant de commander.
pub fn publication(state: WorkspaceState) -> (r: &'static str)
    ensures
        r@ == libelle_publication(state),
{
    match state {
        WorkspaceState::Open => "Versions examinables. Vos documents n'ont pas été modifiés.",
        WorkspaceState::Applying => "Publication interrompue : reprenez-la pour terminer l'intention enregistrée.",
        WorkspaceState::Undoing => "Annulation interrompue : reprenez-la pour rétablir vos documents.",
        WorkspaceState::Conflict => "Publication interrompue sur un conflit. Les fichiers déplacés sont conservés ; une résolution explicite est nécessaire.",
        WorkspaceState::Committed => "Versions publiées dans vos documents. Annulable tant qu'ils n'ont pas changé.",
        WorkspaceState::RolledBack => "Publication annulée : documents initiaux rétablis.",
        WorkspaceState::Abandoned => "Travail abandonné sans publication.",
    }
}

/// Un texte tronqué à `limit` caractères, suivi d'une ellipse s'il était plus long.
pub open spec fn tronque(s: Seq<char>, limit: nat) -> Seq<char> {
    if s.len() > limit {
        s.take(limit as int).push('…')
    } else {
        s
    }
}

/// Un texte tronqué à `limit` caractères, suivi d'une ellipse s'il était plus long.
pub fn limited(text: &str, limit: usize) -> (r: String)
    ensures
        r@ == tronque(text@, limit as nat),
{
    let v = caracteres(text);
    if v.len() > limit {
        let t = tranche(v.as_slice(), 0, limit);
        let mut r = texte_de(t.as_slice());
        pousser(&mut r, '…');
        r
    } else {
        texte_de(v.as_slice())
    }
}

/// Le pluriel d'un compte.
pub fn pluriel(n: usize) -> (r: &'static str)
    ensures
        r@ == (if n > 1 {
            "s"@
        } else {
            ""@
        }),
{
    if n > 1 {
        "s"
    } else {
        ""
    }
}

/// Ce qu'une ligne de la frise est : un appel de l'agent, ou un geste du service autour de lui.
#[derive(Debug, Clone, Copy, PartialEq, Eq, Structural)]
pub enum Nature {
    /// Un appel d'outil de l'agent.
    Appel,
    /// Un refus de capd.
    Refus,
    /// Un rappel du service.
    Rappel,
    /// Une publication ou son annulation.
    Publication,
    /// Une requête sortie par egress.
    Sortie,
}

/// La nature d'une ligne, d'après son outil.
pub open spec fn nature_de(tool: Seq<char>) -> Nature {
    if tool == "refus"@ {
        Nature::Refus
    } else if tool == "rappel"@ {
        Nature::Rappel
    } else if tool == "publication"@ || tool == "annulation"@ {
        Nature::Publication
    } else if tool == "sortie"@ {
        Nature::Sortie
    } else {
        Nature::Appel
    }
}

/// La nature d'une ligne de la frise.
pub fn nature(entry: &TrailEntry) -> (n: Nature)
    ensures
        n == nature_de(entry.tool@),
{
    let t = entry.tool.as_str();
    if egal(t, "refus") {
        Nature::Refus
    } else if egal(t, "rappel") {
        Nature::Rappel
    } else if egal(t, "publication") || egal(t, "annulation") {
        Nature::Publication
    } else if egal(t, "sortie") {
        Nature::Sortie
    } else {
        Nature::Appel
    }
}

/// Une sortie réseau relayée sans histoire : ce n'est pas un geste.
pub open spec fn relayee(g: GesteV) -> bool {
    nature_de(g.tool) == Nature::Sortie && g.outcome is Success
}

/// Le dernier geste montrable parmi les `n` premiers.
pub open spec fn dernier_montrable(t: Seq<GesteV>, n: int) -> Option<int>
    decreases n,
{
    if n <= 0 || n > t.len() {
        None
    } else if !relayee(t[n - 1]) {
        Some(n - 1)
    } else {
        dernier_montrable(t, n - 1)
    }
}

/// Le dernier montrable est le dernier geste qui n'est pas une sortie relayée ; il n'y en a
/// aucun quand tous en sont.
proof fn lemme_dernier_montrable(t: Seq<GesteV>, n: int)
    requires
        0 <= n <= t.len(),
    ensures
        dernier_montrable(t, n) is None <==> forall|j: int| 0 <= j < n ==> relayee(#[trigger] t[j]),
        dernier_montrable(t, n) matches Some(k) ==> {
            &&& 0 <= k < n
            &&& !relayee(t[k])
            &&& forall|j: int| k < j < n ==> relayee(#[trigger] t[j])
        },
    decreases n,
{
    if n > 0 {
        lemme_dernier_montrable(t, n - 1);
    }
}

/// Le geste que l'en-tête montre : le dernier du parcours, sauf une sortie réseau relayée sans
/// histoire. Un refus ou une erreur réseau, eux, se montrent.
pub fn dernier_geste(trail: &[TrailEntry]) -> (r: Option<&TrailEntry>)
    ensures
        match dernier_montrable(trail@.map_values(|g: TrailEntry| g@), trail@.len() as int) {
            Some(k) => r == Some(&trail@[k]),
            None => r is None,
        },
        r is None <==> forall|j: int| 0 <= j < trail@.len() ==> relayee((#[trigger] trail@[j])@),
        r matches Some(g) ==> exists|k: int|
            0 <= k < trail@.len() && g == &trail@[k] && !relayee(trail@[k]@) && forall|j: int|
                k < j < trail@.len() ==> relayee((#[trigger] trail@[j])@),
{
    let ghost t = trail@.map_values(|g: TrailEntry| g@);
    let mut n = trail.len();
    while n > 0
        invariant
            n <= trail@.len(),
            t == trail@.map_values(|g: TrailEntry| g@),
            dernier_montrable(t, trail@.len() as int) == dernier_montrable(t, n as int),
        decreases n,
    {
        let g = &trail[n - 1];
        assert(t[n - 1] == g@);
        let sortie = match nature(g) {
            Nature::Sortie => true,
            _ => false,
        };
        let reussie = match &g.outcome {
            Outcome::Success => true,
            _ => false,
        };
        if !(sortie && reussie) {
            proof {
                lemme_dernier_montrable(t, trail@.len() as int);
                assert forall|j: int| 0 <= j < trail@.len() implies t[j] == (
                #[trigger] trail@[j])@ by {}
            }
            return Some(g);
        }
        n = n - 1;
    }
    proof {
        lemme_dernier_montrable(t, trail@.len() as int);
        assert forall|j: int| 0 <= j < trail@.len() implies t[j] == (#[trigger] trail@[j])@ by {}
    }
    None
}

/// La durée qu'une mission a tenue, dite comme on la dit.
pub open spec fn duree(s: nat) -> Seq<char> {
    if s == 0 {
        "moins d'une seconde"@
    } else if s < 60 {
        decimal(s) + " s"@
    } else if s < 3600 {
        decimal(s / 60) + " min "@ + deux_chiffres(s % 60) + " s"@
    } else {
        decimal(s / 3600) + " h "@ + deux_chiffres((s % 3600) / 60) + " min"@
    }
}

/// Une durée dite se relit : passé une heure, les heures et les minutes dites sont la durée
/// tronquée à la minute (les minutes de 0 à 59) ; passé une minute, les minutes et les
/// secondes dites sont la durée exacte ; en deçà, les secondes.
pub proof fn loi_une_duree_dite_se_relit(s: nat)
    ensures
        s >= 3600 ==> exists|h: nat, m: nat|
            #![trigger decimal(h), deux_chiffres(m)]
            m < 60 && 3600 * h + 60 * m <= s < 3600 * h + 60 * m + 60 && duree(s) == decimal(h)
                + " h "@ + deux_chiffres(m) + " min"@,
        60 <= s < 3600 ==> exists|m: nat, r: nat|
            #![trigger decimal(m), deux_chiffres(r)]
            r < 60 && 60 * m + r == s && duree(s) == decimal(m) + " min "@ + deux_chiffres(r)
                + " s"@,
        0 < s < 60 ==> duree(s) == decimal(s) + " s"@,
{
    if s >= 3600 {
        let h = s / 3600;
        let m = (s % 3600) / 60;
        assert(m < 60 && 3600 * h + 60 * m <= s < 3600 * h + 60 * m + 60) by (nonlinear_arith)
            requires
                h == s / 3600,
                m == (s % 3600) / 60,
        ;
        assert(duree(s) == decimal(h) + " h "@ + deux_chiffres(m) + " min"@);
    } else if s >= 60 {
        let m = s / 60;
        let r = s % 60;
        assert(r < 60 && 60 * m + r == s) by (nonlinear_arith)
            requires
                m == s / 60,
                r == s % 60,
        ;
        assert(duree(s) == decimal(m) + " min "@ + deux_chiffres(r) + " s"@);
    }
}

/// La durée qu'une mission a tenue : « moins d'une seconde », « 42 s », « 3 min 05 s »,
/// « 1 h 12 min ».
pub fn duree_observee(secondes: u64) -> (r: String)
    ensures
        r@ == duree(secondes as nat),
{
    if secondes == 0 {
        "moins d'une seconde".to_owned()
    } else if secondes < 60 {
        let mut r = String::new();
        ajouter_decimal(&mut r, secondes);
        ajouter(&mut r, " s");
        assert(r@ == seq![] + decimal(secondes as nat) + " s"@);
        assert(seq![] + decimal(secondes as nat) == decimal(secondes as nat));
        r
    } else if secondes < 3600 {
        let mut r = String::new();
        ajouter_decimal(&mut r, secondes / 60);
        ajouter(&mut r, " min ");
        let d = ecrire_deux_chiffres(secondes % 60);
        ajouter(&mut r, d.as_str());
        ajouter(&mut r, " s");
        assert(seq![] + decimal((secondes / 60) as nat) == decimal((secondes / 60) as nat));
        r
    } else {
        let mut r = String::new();
        ajouter_decimal(&mut r, secondes / 3600);
        ajouter(&mut r, " h ");
        let d = ecrire_deux_chiffres((secondes % 3600) / 60);
        ajouter(&mut r, d.as_str());
        ajouter(&mut r, " min");
        assert(seq![] + decimal((secondes / 3600) as nat) == decimal((secondes / 3600) as nat));
        r
    }
}

/// Un texte sans ses barres obliques finales.
pub open spec fn sans_barres(s: Seq<char>) -> Seq<char>
    decreases s.len(),
{
    if s.len() > 0 && s.last() == '/' {
        sans_barres(s.drop_last())
    } else {
        s
    }
}

/// Une cible lue depuis le dossier de l'humain : un chemin sous `home` s'écrit à partir de `~`.
pub open spec fn depuis_maison(cible: Seq<char>, home: Seq<char>) -> Seq<char> {
    let h = sans_barres(home);
    if h.len() > 0 && commence_par(cible, h) && cible.len() > h.len() && cible[h.len() as int]
        == '/' {
        seq!['~'] + cible.skip(h.len() as int)
    } else {
        cible
    }
}

/// Une cible lisible : un chemin du dossier de l'humain s'écrit à partir de `~`, comme il
/// l'écrirait lui-même ; toute autre cible reste telle que capd l'a contrôlée.
#[verifier::spinoff_prover]
pub fn cible_depuis(cible: &str, home: &str) -> (r: String)
    ensures
        r@ == depuis_maison(cible@, home@),
{
    let c = caracteres(cible);
    let h0 = caracteres(home);
    let mut n = h0.len();
    assert(h0@.take(n as int) == h0@);
    while n > 0 && h0[n - 1] == '/'
        invariant
            n <= h0@.len(),
            sans_barres(h0@) == sans_barres(h0@.take(n as int)),
        decreases n,
    {
        assert(h0@.take(n as int).drop_last() == h0@.take(n - 1));
        n = n - 1;
    }
    let h = tranche(h0.as_slice(), 0, n);
    assert(h0@.take(n as int) == h@);
    assert(sans_barres(h@) == h@);
    if h.len() > 0 && commence_par_car(c.as_slice(), h.as_slice()) && c.len() > h.len() && c[h.len()]
        == '/' {
        let reste = tranche(c.as_slice(), h.len(), c.len());
        let mut r = String::new();
        pousser(&mut r, '~');
        ajouter_car(&mut r, reste.as_slice());
        assert(seq![].push('~') == seq!['~']);
        r
    } else {
        texte_de(c.as_slice())
    }
}

/// Le motif d'un refus de capd, en mots ; un motif inconnu reste tel quel.
pub open spec fn motif(reason: Seq<char>) -> Seq<char> {
    if reason == "PolicyDenied"@ {
        "hors de la portée de la mission"@
    } else if reason == "NoGrant"@ {
        "aucun droit ne le permet"@
    } else if reason == "Expired"@ {
        "jeton expiré"@
    } else if reason == "RevokedParent"@ {
        "droits retirés"@
    } else if reason == "BadSignature"@ {
        "jeton invalide"@
    } else if reason == "ConstraintViolated"@ {
        "contrainte du droit non respectée"@
    } else if reason == "ApprovalRequired"@ {
        "décision humaine attendue"@
    } else if reason == "UnknownVersion"@ {
        "jeton d'une version inconnue"@
    } else if reason == "policy_denied"@ {
        "hors de la portée de la mission"@
    } else if reason == "no_grant"@ {
        "aucun hôte du jeton ne le permet"@
    } else if reason == "expired"@ {
        "jeton expiré"@
    } else if reason == "revoked_parent"@ {
        "droits retirés"@
    } else if reason == "constraint_violated"@ {
        "contrainte du droit non respectée"@
    } else if reason == "approval_required"@ {
        "décision humaine attendue"@
    } else {
        reason
    }
}

/// Le motif d'un refus de capd, en mots : l'humain lit « hors de la portée », pas un nom de
/// variante.
pub fn motif_lisible(reason: &str) -> (r: String)
    ensures
        r@ == motif(reason@),
{
    if egal(reason, "PolicyDenied") {
        "hors de la portée de la mission".to_owned()
    } else if egal(reason, "NoGrant") {
        "aucun droit ne le permet".to_owned()
    } else if egal(reason, "Expired") {
        "jeton expiré".to_owned()
    } else if egal(reason, "RevokedParent") {
        "droits retirés".to_owned()
    } else if egal(reason, "BadSignature") {
        "jeton invalide".to_owned()
    } else if egal(reason, "ConstraintViolated") {
        "contrainte du droit non respectée".to_owned()
    } else if egal(reason, "ApprovalRequired") {
        "décision humaine attendue".to_owned()
    } else if egal(reason, "UnknownVersion") {
        "jeton d'une version inconnue".to_owned()
    } else if egal(reason, "policy_denied") {
        "hors de la portée de la mission".to_owned()
    } else if egal(reason, "no_grant") {
        "aucun hôte du jeton ne le permet".to_owned()
    } else if egal(reason, "expired") {
        "jeton expiré".to_owned()
    } else if egal(reason, "revoked_parent") {
        "droits retirés".to_owned()
    } else if egal(reason, "constraint_violated") {
        "contrainte du droit non respectée".to_owned()
    } else if egal(reason, "approval_required") {
        "décision humaine attendue".to_owned()
    } else {
        reason.to_owned()
    }
}

/// Une issue d'appel en mots, pour l'accessibilité.
pub open spec fn issue_mots(o: IssueV) -> Seq<char> {
    match o {
        IssueV::Pending => "en cours"@,
        IssueV::Success => "réussi"@,
        IssueV::Error(code) => "en erreur ("@ + code + ")"@,
        IssueV::Denied(reason) => "refusé ("@ + motif(reason) + ")"@,
    }
}

/// Une issue d'appel en mots, pour l'accessibilité.
pub fn issue_en_mots(outcome: &Outcome) -> (r: String)
    ensures
        r@ == issue_mots(outcome@),
{
    match outcome {
        Outcome::Pending => "en cours".to_owned(),
        Outcome::Success => "réussi".to_owned(),
        Outcome::Error(code) => {
            let mut r = "en erreur (".to_owned();
            ajouter(&mut r, code.as_str());
            ajouter(&mut r, ")");
            r
        },
        Outcome::Denied(reason) => {
            let mut r = "refusé (".to_owned();
            let m = motif_lisible(reason.as_str());
            ajouter(&mut r, m.as_str());
            ajouter(&mut r, ")");
            r
        },
    }
}

/// Ce qu'il faut pour relancer une mission : son intention, le modèle qui la menait et le profil
/// du catalogue dont elle a été préparée, s'il est connu.
#[derive(Debug, Clone, PartialEq, Eq)]
pub struct Relance {
    /// L'intention.
    pub intent: String,
    /// Le modèle, sans son préfixe de référence.
    pub model: String,
    /// Le profil du catalogue.
    pub profile: Option<String>,
}

/// La référence d'un modèle sans son préfixe `local:` ou `driver:`.
pub open spec fn modele_de(r: Seq<char>) -> Seq<char> {
    if commence_par(r, "local:"@) {
        r.skip(6)
    } else if commence_par(r, "driver:"@) {
        r.skip(7)
    } else {
        r
    }
}

/// Une mission se relance quand elle a échoué ou été arrêtée ; une sous-mission, par son parent.
pub fn relance(
    state: State,
    child: bool,
    intent: &str,
    reference: Option<&str>,
    profile: Option<&str>,
) -> (r: Option<Relance>)
    ensures
        r is Some <==> (!child && (state == State::Failed || state == State::Cancelled)
            && sans_blancs(intent@).len() > 0),
        r matches Some(v) ==> {
            &&& v.intent@ == intent@
            &&& v.model@ == (match reference {
                Some(x) => modele_de(x@),
                None => seq![],
            })
            &&& v.profile matches Some(p) ==> profile matches Some(q) && p@ == q@
            &&& v.profile is None ==> profile is None
        },
{
    let iv = caracteres(intent);
    let (d, f) = bornes_sans_blancs(iv.as_slice());
    let echouee = match state {
        State::Failed | State::Cancelled => true,
        _ => false,
    };
    if child || !echouee || d == f {
        return None;
    }
    let model = match reference {
        Some(x) => {
            let xv = caracteres(x);
            proof {
                reveal_strlit("local:");
                reveal_strlit("driver:");
            }
            let local = caracteres("local:");
            let driver = caracteres("driver:");
            if commence_par_car(xv.as_slice(), local.as_slice()) {
                let t = tranche(xv.as_slice(), 6, xv.len());
                texte_de(t.as_slice())
            } else if commence_par_car(xv.as_slice(), driver.as_slice()) {
                let t = tranche(xv.as_slice(), 7, xv.len());
                texte_de(t.as_slice())
            } else {
                x.to_owned()
            }
        },
        None => String::new(),
    };
    Some(Relance {
        intent: intent.to_owned(),
        model,
        profile: match profile {
            Some(p) => Some(p.to_owned()),
            None => None,
        },
    })
}

/// L'identifiant d'une sous-mission prolonge celui de sa mère d'un point et d'un rang.
pub open spec fn enfant(id: Seq<char>, tache: Seq<char>) -> bool {
    commence_par(tache, id.push('.'))
}

/// Les sous-missions d'une mission : leurs identifiants sont les siens suivis d'un rang
/// (`m.1`, `m.2`, et `m.1.1` pour une petite-fille).
pub fn enfants_de<'a>(id: &str, courants: &'a [Courant]) -> (r: Vec<&'a Courant>)
    ensures
        r@ == courants@.filter(|c: Courant| enfant(id@, c.tache@)).map_values(|c: Courant| &c),
{
    let mut prefixe = caracteres(id);
    prefixe.push('.');
    let mut r: Vec<&'a Courant> = Vec::new();
    let mut i: usize = 0;
    while i < courants.len()
        invariant
            i <= courants@.len(),
            prefixe@ == id@.push('.'),
            r@ == courants@.take(i as int).filter(|c: Courant| enfant(id@, c.tache@)).map_values(
                |c: Courant| &c,
            ),
        decreases courants@.len() - i,
    {
        let c = &courants[i];
        let t = caracteres(c.tache.as_str());
        assert(courants@.take(i + 1).drop_last() == courants@.take(i as int));
        reveal_with_fuel(Seq::filter, 1);
        if commence_par_car(t.as_slice(), prefixe.as_slice()) {
            r.push(c);
        }
        assert(r@ =~= courants@.take(i + 1).filter(|c: Courant| enfant(id@, c.tache@)).map_values(
            |c: Courant| &c,
        ));
        i = i + 1;
    }
    assert(courants@.take(courants@.len() as int) == courants@);
    r
}

/// Les onglets de l'espace d'une mission.
#[derive(Debug, Clone, Copy, PartialEq, Eq, Structural, Default)]
pub enum Tab {
    /// Choisi selon l'état de la mission.
    #[default]
    Auto,
    /// La proposition reçue.
    Result,
    /// Le plan et ses accès.
    Plan,
    /// Le parcours.
    History,
    /// Les fichiers changés.
    Files,
}

/// L'onglet montré : celui que l'humain a choisi ; sans choix, le plan d'une mission qui attend
/// son examen, la proposition sinon.
pub open spec fn onglet_montre(tab: Tab, etat: State) -> Tab {
    if tab == Tab::Auto {
        if etat == State::Planned {
            Tab::Plan
        } else {
            Tab::Result
        }
    } else {
        tab
    }
}

impl Tab {
    /// L'onglet montré pour une mission dans l'état `etat`.
    pub fn montre(self, etat: State) -> (r: Tab)
        ensures
            r == onglet_montre(self, etat),
    {
        match self {
            Tab::Auto => if etat == State::Planned {
                Tab::Plan
            } else {
                Tab::Result
            },
            autre => autre,
        }
    }
}

/// Les commandes de l'en-tête d'une mission, dans l'ordre où elles s'y lisent, avec leur
/// libellé : l'arrêt (« Annuler le plan » d'un plan qui attend son examen), la publication et
/// son annulation (« Reprendre… » quand l'une est déjà en cours) ; chacune seulement si le
/// service l'accepte.
pub open spec fn commandes_de(info: Detail) -> Seq<(Action, Seq<char>)> {
    (if info.can_cancel {
        seq![(Action::Cancel, if info.etat == State::Planned {
            "Annuler le plan"@
        } else {
            "Arrêter"@
        })]
    } else {
        seq![]
    }) + (if info.can_apply {
        seq![(Action::Apply, if info.publication == Some(WorkspaceState::Applying) {
            "Reprendre la publication"@
        } else {
            "Appliquer à mes documents"@
        })]
    } else {
        seq![]
    }) + (if info.can_undo {
        seq![(Action::Undo, if info.publication == Some(WorkspaceState::Undoing) {
            "Reprendre l'annulation"@
        } else {
            "Annuler la publication"@
        })]
    } else {
        seq![]
    })
}

/// Les commandes que l'en-tête d'une mission propose, avec leur libellé.
pub fn commandes(info: &Detail) -> (r: Vec<(Action, &'static str)>)
    ensures
        r@.map_values(|c: (Action, &'static str)| (c.0, c.1@)) == commandes_de(*info),
{
    let mut r: Vec<(Action, &'static str)> = Vec::new();
    if info.can_cancel {
        let l = if info.etat == State::Planned {
            "Annuler le plan"
        } else {
            "Arrêter"
        };
        r.push((Action::Cancel, l));
    }
    let ghost un = r@;
    if info.can_apply {
        let l = match info.publication {
            Some(WorkspaceState::Applying) => "Reprendre la publication",
            _ => "Appliquer à mes documents",
        };
        r.push((Action::Apply, l));
    }
    let ghost deux = r@;
    if info.can_undo {
        let l = match info.publication {
            Some(WorkspaceState::Undoing) => "Reprendre l'annulation",
            _ => "Annuler la publication",
        };
        r.push((Action::Undo, l));
    }
    assert(r@.map_values(|c: (Action, &'static str)| (c.0, c.1@)) =~= commandes_de(*info));
    r
}

} // verus!
