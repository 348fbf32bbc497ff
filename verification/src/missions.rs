//! Le parcours réel d'une mission, relu dans le journal, et ce que la surface en dit.
//!
//! Le journal raconte une mission événement par événement. La surface en fait une frise : un
//! geste par appel d'outil, avec sa cible contrôlée et son issue ; les refus de capd, les
//! rappels du service et les publications à leur place ; les sorties réseau successives vers le
//! même hôte réunies sur une ligne. Rien de ce que l'agent a lu ou écrit n'y figure.

use vstd::prelude::*;
use crate::file_review::{
    meme_mission, meme_selection, ouverture_suivie, revision_apres, revision_suivante,
    selection_de, selection_suivie, vue_de_selection, Review,
};
use crate::scene::{
    dans_l_ordre, etat, etat_de, rangement_stable, terminal, Courant, Decision, Scene, State,
    WorkspaceState,
};
use crate::texte::{
    ajouter, ajouter_car, ajouter_decimal, caracteres, contient_texte, decimal, egal, pousser,
    rogner, sans_blancs, tranche, vues,
};

verus! {

/// L'issue d'un appel d'outil, telle que le journal la raconte.
#[derive(Debug, Clone, PartialEq, Eq)]
pub enum Outcome {
    /// Appel journalisé, résultat pas encore lu.
    Pending,
    /// Résultat confirmé.
    Success,
    /// Résultat en erreur, avec son code.
    Error(String),
    /// Refus de politique, avec son motif.
    Denied(String),
}

/// Une issue, vue comme des suites de caractères.
pub enum IssueV {
    Pending,
    Success,
    Error(Seq<char>),
    Denied(Seq<char>),
}

impl View for Outcome {
    type V = IssueV;

    open spec fn view(&self) -> IssueV {
        match self {
            Outcome::Pending => IssueV::Pending,
            Outcome::Success => IssueV::Success,
            Outcome::Error(c) => IssueV::Error(c@),
            Outcome::Denied(r) => IssueV::Denied(r@),
        }
    }
}

/// Une sortie réseau relayée : l'hôte, la méthode et les octets dans chaque sens, cumulés sur
/// les requêtes que la ligne réunit. Jamais le contenu.
#[derive(Debug, Clone, PartialEq, Eq)]
pub struct Sortie {
    /// L'hôte joint.
    pub hote: String,
    /// La méthode HTTP.
    pub methode: String,
    /// Octets envoyés.
    pub sortis: u64,
    /// Octets reçus.
    pub recus: u64,
}

/// Une sortie, vue comme des suites de caractères.
pub struct SortieV {
    pub hote: Seq<char>,
    pub methode: Seq<char>,
    pub sortis: u64,
    pub recus: u64,
}

impl View for Sortie {
    type V = SortieV;

    open spec fn view(&self) -> SortieV {
        SortieV { hote: self.hote@, methode: self.methode@, sortis: self.sortis, recus: self.recus }
    }
}

/// Une étape du parcours réel d'une mission : un outil, sa cible contrôlée, son issue.
#[derive(Debug, Clone, PartialEq, Eq)]
pub struct TrailEntry {
    /// Numéro de séquence du journal.
    pub seq: u64,
    /// Étape de la boucle agentique, si connue.
    pub step: Option<u32>,
    /// Nom de l'outil, ou de l'acte (`publication`, `annulation`, `refus`, `rappel`, `sortie`).
    pub tool: String,
    /// Hôte, chemin absolu ou fenêtre visés.
    pub target: Option<String>,
    /// Ce qu'il en est advenu.
    pub outcome: Outcome,
    /// Événements du journal réunis sur cette ligne : des sorties réseau successives vers le
    /// même hôte, avec la même issue, n'en font qu'une. Un sinon.
    pub fois: u32,
    /// La sortie réseau que porte la ligne, quand elle en porte une ; ce que la ligne en dit
    /// (les volumes arrondis) se calcule à l'affichage.
    pub sortie: Option<Sortie>,
}

/// Un geste, vu comme des suites de caractères.
pub struct GesteV {
    pub seq: u64,
    pub step: Option<u32>,
    pub tool: Seq<char>,
    pub target: Option<Seq<char>>,
    pub outcome: IssueV,
    pub fois: u32,
    pub sortie: Option<SortieV>,
}

/// La vue d'un texte optionnel.
pub open spec fn vue_opt(o: Option<String>) -> Option<Seq<char>> {
    match o {
        Some(s) => Some(s@),
        None => None,
    }
}

impl View for TrailEntry {
    type V = GesteV;

    open spec fn view(&self) -> GesteV {
        GesteV {
            seq: self.seq,
            step: self.step,
            tool: self.tool@,
            target: vue_opt(self.target),
            outcome: self.outcome@,
            fois: self.fois,
            sortie: match self.sortie {
                Some(s) => Some(s@),
                None => None,
            },
        }
    }
}

/// Un événement du journal, réduit à ce que le parcours en lit.
#[derive(Debug, Clone, Default)]
pub struct Evenement {
    /// Numéro de séquence.
    pub seq: Option<u64>,
    /// Étape de la boucle agentique.
    pub step: Option<u64>,
    /// Genre de l'événement : `tool.call`, `tool.result`, `policy.deny`…
    pub kind: Option<String>,
    /// L'outil appelé.
    pub tool: Option<String>,
    /// La cible contrôlée.
    pub target: Option<String>,
    /// Le résultat d'un outil a réussi.
    pub ok: Option<bool>,
    /// Le code d'erreur d'un outil.
    pub error_code: Option<String>,
    /// Le motif d'un refus.
    pub reason: Option<String>,
    /// Le chemin d'un refus de publication.
    pub path: Option<String>,
    /// L'hôte d'une sortie réseau.
    pub host: Option<String>,
    /// La méthode d'une sortie réseau.
    pub method: Option<String>,
    /// Octets envoyés.
    pub bytes_out: Option<u64>,
    /// Octets reçus.
    pub bytes_in: Option<u64>,
    /// Statut HTTP.
    pub status: Option<u64>,
    /// Les livrables que le service a rappelés.
    pub missing: Option<Vec<String>>,
}

/// Un événement, vu comme des suites de caractères.
pub struct EvenementV {
    pub seq: Option<u64>,
    pub step: Option<u64>,
    pub kind: Option<Seq<char>>,
    pub tool: Option<Seq<char>>,
    pub target: Option<Seq<char>>,
    pub ok: Option<bool>,
    pub error_code: Option<Seq<char>>,
    pub reason: Option<Seq<char>>,
    pub path: Option<Seq<char>>,
    pub host: Option<Seq<char>>,
    pub method: Option<Seq<char>>,
    pub bytes_out: Option<u64>,
    pub bytes_in: Option<u64>,
    pub status: Option<u64>,
    pub missing: Option<Seq<Seq<char>>>,
}

impl View for Evenement {
    type V = EvenementV;

    open spec fn view(&self) -> EvenementV {
        EvenementV {
            seq: self.seq,
            step: self.step,
            kind: vue_opt(self.kind),
            tool: vue_opt(self.tool),
            target: vue_opt(self.target),
            ok: self.ok,
            error_code: vue_opt(self.error_code),
            reason: vue_opt(self.reason),
            path: vue_opt(self.path),
            host: vue_opt(self.host),
            method: vue_opt(self.method),
            bytes_out: self.bytes_out,
            bytes_in: self.bytes_in,
            status: self.status,
            missing: match self.missing {
                Some(v) => Some(v@.map_values(|s: String| s@)),
                None => None,
            },
        }
    }
}

/// La sortie relayée que porte la dernière ligne, pour y ajouter les suivantes.
pub struct Cumul {
    hote: String,
    methode: String,
    sortis: u64,
    recus: u64,
}

impl View for Cumul {
    type V = SortieV;

    closed spec fn view(&self) -> SortieV {
        SortieV { hote: self.hote@, methode: self.methode@, sortis: self.sortis, recus: self.recus }
    }
}

/// Le parcours d'une mission, vu comme des suites de caractères.
pub struct ParcoursV {
    pub gestes: Seq<GesteV>,
    pub cumul: Option<SortieV>,
    pub dernier: Option<u64>,
}

/// Le parcours d'une mission, construit événement par événement : chaque relecture du journal
/// y ajoute ce qui s'est inscrit depuis la précédente, sans relire le début de la mission.
pub struct Parcours {
    gestes: Vec<TrailEntry>,
    cumul: Option<Cumul>,
    dernier: Option<u64>,
}

impl View for Parcours {
    type V = ParcoursV;

    closed spec fn view(&self) -> ParcoursV {
        ParcoursV {
            gestes: self.gestes@.map_values(|g: TrailEntry| g@),
            cumul: match self.cumul {
                Some(c) => Some(c@),
                None => None,
            },
            dernier: self.dernier,
        }
    }
}

// ---------------------------------------------------------------------------------------------
// Ce qu'un événement fait au parcours.

/// L'étape, quand elle tient sur 32 bits.
pub open spec fn etape(step: Option<u64>) -> Option<u32> {
    match step {
        Some(s) => if s <= u32::MAX {
            Some(s as u32)
        } else {
            None
        },
        None => None,
    }
}

/// Un texte optionnel, ou sa valeur par défaut.
pub open spec fn ou(o: Option<Seq<char>>, d: Seq<char>) -> Seq<char> {
    match o {
        Some(s) => s,
        None => d,
    }
}

/// Un geste d'une ligne, sans sortie réseau.
pub open spec fn geste(
    seq: u64,
    step: Option<u32>,
    tool: Seq<char>,
    target: Option<Seq<char>>,
    outcome: IssueV,
) -> GesteV {
    GesteV { seq, step, tool, target, outcome, fois: 1, sortie: None }
}

/// La dernière ligne en attente du résultat de cet outil, en partant de `n`.
pub open spec fn en_attente(t: Seq<GesteV>, tool: Seq<char>, n: int) -> Option<int>
    decreases n,
{
    if n <= 0 || n > t.len() {
        None
    } else if t[n - 1].tool == tool && t[n - 1].outcome is Pending {
        Some(n - 1)
    } else {
        en_attente(t, tool, n - 1)
    }
}

/// Des textes joints par un séparateur.
pub open spec fn joints(xs: Seq<Seq<char>>, sep: Seq<char>) -> Seq<char>
    decreases xs.len(),
{
    if xs.len() == 0 {
        seq![]
    } else if xs.len() == 1 {
        xs[0]
    } else {
        joints(xs.drop_last(), sep) + sep + xs.last()
    }
}

/// L'issue d'une requête réseau : un statut hors de 200 à 399 est une erreur HTTP.
pub open spec fn issue_http(status: Option<u64>) -> IssueV {
    match status {
        Some(s) => if !(200 <= s && s < 400) {
            IssueV::Error("HTTP "@ + decimal(s as nat))
        } else {
            IssueV::Success
        },
        None => IssueV::Success,
    }
}

/// Le motif d'un refus réseau.
pub open spec fn motif_reseau(e: EvenementV) -> Seq<char> {
    if e.kind == Some("net.exfil_suspected"@) {
        "exfiltration suspectée : "@ + ou(e.reason, "signaux relevés"@)
    } else {
        ou(e.reason, "refusé"@)
    }
}

/// Les lignes après un événement, et la sortie cumulée qui les accompagne.
pub open spec fn lignes_apres(t: Seq<GesteV>, c: Option<SortieV>, e: EvenementV) -> (Seq<GesteV>, Option<SortieV>) {
    let seq = match e.seq {
        Some(s) => s,
        None => 0,
    };
    let step = etape(e.step);
    if e.kind == Some("tool.call"@) {
        (t.push(geste(seq, step, ou(e.tool, "outil"@), e.target, IssueV::Pending)), c)
    } else if e.kind == Some("tool.result"@) {
        match en_attente(t, ou(e.tool, seq![]), t.len() as int) {
            Some(k) => {
                let issue = if e.ok == Some(true) {
                    IssueV::Success
                } else {
                    IssueV::Error(ou(e.error_code, "Erreur"@))
                };
                (t.update(k, GesteV { outcome: issue, ..t[k] }), c)
            },
            None => (t, c),
        }
    } else if e.kind == Some("policy.deny"@) {
        let reason = ou(e.reason, "politique"@);
        if t.len() > 0 && step is Some && t.last().step == step && t.last().tool != "refus"@
            && t.last().tool != "rappel"@ && (t.last().outcome is Pending
            || t.last().outcome is Error) {
            (t.update(t.len() - 1, GesteV { outcome: IssueV::Denied(reason), ..t.last() }), c)
        } else {
            let target = match e.path {
                Some(p) => Some(p),
                None => e.target,
            };
            (t.push(geste(seq, step, "refus"@, target, IssueV::Denied(reason))), c)
        }
    } else if e.kind == Some("fs.commit"@) {
        (t.push(geste(seq, step, "publication"@, None, IssueV::Success)), c)
    } else if e.kind == Some("fs.undo"@) {
        (t.push(geste(seq, step, "annulation"@, None, IssueV::Success)), c)
    } else if e.kind == Some("net.request"@) {
        let hote = ou(e.host, "hôte inconnu"@);
        let methode = ou(e.method, "?"@);
        let sortis = match e.bytes_out {
            Some(b) => b,
            None => 0,
        };
        let recus = match e.bytes_in {
            Some(b) => b,
            None => 0,
        };
        let issue = issue_http(e.status);
        if t.len() > 0 && c is Some && t.last().tool == "sortie"@ && t.last().outcome == issue
            && c->0.hote == hote && c->0.methode == methode {
            let cum = SortieV {
                hote: c->0.hote,
                methode: c->0.methode,
                sortis: sature(c->0.sortis, sortis),
                recus: sature(c->0.recus, recus),
            };
            let fois = if t.last().fois < u32::MAX {
                (t.last().fois + 1) as u32
            } else {
                u32::MAX
            };
            (t.update(t.len() - 1, GesteV { fois, sortie: Some(cum), ..t.last() }), Some(cum))
        } else {
            let s = SortieV { hote, methode, sortis, recus };
            (
                t.push(GesteV { seq, step, tool: "sortie"@, target: None, outcome: issue, fois: 1, sortie: Some(s) }),
                Some(s),
            )
        }
    } else if e.kind == Some("net.deny"@) || e.kind == Some("net.exfil_suspected"@) {
        let issue = IssueV::Denied(motif_reseau(e));
        if t.len() > 0 && t.last().tool == "sortie"@ && t.last().outcome == issue && e.host is Some
            && t.last().target == e.host {
            let fois = if t.last().fois < u32::MAX {
                (t.last().fois + 1) as u32
            } else {
                u32::MAX
            };
            (t.update(t.len() - 1, GesteV { fois, ..t.last() }), c)
        } else {
            (t.push(geste(seq, step, "sortie"@, e.host, issue)), c)
        }
    } else if e.kind == Some("task.reminded"@) {
        let target = match e.missing {
            Some(m) => Some(joints(m, ", "@)),
            None => None,
        };
        (t.push(geste(seq, step, "rappel"@, target, IssueV::Success)), c)
    } else {
        (t, c)
    }
}

/// Une somme d'octets, bornée au plus grand entier.
pub open spec fn sature(a: u64, b: u64) -> u64 {
    if a + b > u64::MAX {
        u64::MAX
    } else {
        (a + b) as u64
    }
}

/// Le parcours après un événement lu : une autre ligne posée par autre chose qu'une requête
/// réseau clôt la sortie cumulée.
pub open spec fn apres_un(p: ParcoursV, e: EvenementV) -> ParcoursV {
    let (t, c) = lignes_apres(p.gestes, p.cumul, e);
    ParcoursV {
        gestes: t,
        cumul: if t.len() != p.gestes.len() && e.kind != Some("net.request"@) {
            None
        } else {
            c
        },
        dernier: p.dernier,
    }
}

/// Le parcours après un événement du journal : un événement déjà lu est passé.
pub open spec fn apres(p: ParcoursV, e: EvenementV) -> ParcoursV {
    match e.seq {
        Some(s) => match p.dernier {
            Some(d) => if s <= d {
                p
            } else {
                apres_un(ParcoursV { dernier: Some(s), ..p }, e)
            },
            None => apres_un(ParcoursV { dernier: Some(s), ..p }, e),
        },
        None => apres_un(p, e),
    }
}

/// Le parcours après une suite d'événements, dans l'ordre.
pub open spec fn apres_tous(p: ParcoursV, es: Seq<EvenementV>) -> ParcoursV
    decreases es.len(),
{
    if es.len() == 0 {
        p
    } else {
        apres(apres_tous(p, es.drop_last()), es.last())
    }
}

/// Le parcours vide.
pub open spec fn vide() -> ParcoursV {
    ParcoursV { gestes: seq![], cumul: None, dernier: None }
}


// ---------------------------------------------------------------------------------------------
// Le parcours exécutable.

/// Les genres d'événements du journal sont deux à deux distincts.
proof fn genres_distincts()
    ensures
        "tool.result"@ != "tool.call"@,
        "policy.deny"@ != "tool.call"@,
        "policy.deny"@ != "tool.result"@,
        "fs.commit"@ != "tool.call"@,
        "fs.commit"@ != "tool.result"@,
        "fs.commit"@ != "policy.deny"@,
        "fs.undo"@ != "tool.call"@,
        "fs.undo"@ != "tool.result"@,
        "fs.undo"@ != "policy.deny"@,
        "fs.undo"@ != "fs.commit"@,
        "net.request"@ != "tool.call"@,
        "net.request"@ != "tool.result"@,
        "net.request"@ != "policy.deny"@,
        "net.request"@ != "fs.commit"@,
        "net.request"@ != "fs.undo"@,
        "net.deny"@ != "tool.call"@,
        "net.deny"@ != "tool.result"@,
        "net.deny"@ != "policy.deny"@,
        "net.deny"@ != "fs.commit"@,
        "net.deny"@ != "fs.undo"@,
        "net.deny"@ != "net.request"@,
        "net.exfil_suspected"@ != "tool.call"@,
        "net.exfil_suspected"@ != "tool.result"@,
        "net.exfil_suspected"@ != "policy.deny"@,
        "net.exfil_suspected"@ != "fs.commit"@,
        "net.exfil_suspected"@ != "fs.undo"@,
        "net.exfil_suspected"@ != "net.request"@,
        "net.exfil_suspected"@ != "net.deny"@,
        "task.reminded"@ != "tool.call"@,
        "task.reminded"@ != "tool.result"@,
        "task.reminded"@ != "policy.deny"@,
        "task.reminded"@ != "fs.commit"@,
        "task.reminded"@ != "fs.undo"@,
        "task.reminded"@ != "net.request"@,
        "task.reminded"@ != "net.deny"@,
        "task.reminded"@ != "net.exfil_suspected"@,
{
    reveal_strlit("tool.call");
    reveal_strlit("tool.result");
    reveal_strlit("policy.deny");
    reveal_strlit("fs.commit");
    reveal_strlit("fs.undo");
    reveal_strlit("net.request");
    reveal_strlit("net.deny");
    reveal_strlit("net.exfil_suspected");
    reveal_strlit("task.reminded");
    assert("tool.call"@.len() == 9);
    assert("tool.result"@.len() == 11);
    assert("policy.deny"@.len() == 11);
    assert("fs.commit"@.len() == 9);
    assert("fs.undo"@.len() == 7);
    assert("net.request"@.len() == 11);
    assert("net.deny"@.len() == 8);
    assert("net.exfil_suspected"@.len() == 19);
    assert("task.reminded"@.len() == 13);
    assert("policy.deny"@[0] != "tool.result"@[0]);
    assert("fs.commit"@[0] != "tool.call"@[0]);
    assert("net.request"@[0] != "tool.result"@[0]);
    assert("net.request"@[0] != "policy.deny"@[0]);
}


/// Deux issues sont-elles les mêmes ?
pub fn meme_issue(a: &Outcome, b: &Outcome) -> (r: bool)
    ensures
        r == (a@ == b@),
{
    match (a, b) {
        (Outcome::Pending, Outcome::Pending) => true,
        (Outcome::Success, Outcome::Success) => true,
        (Outcome::Error(x), Outcome::Error(y)) => egal(x.as_str(), y.as_str()),
        (Outcome::Denied(x), Outcome::Denied(y)) => egal(x.as_str(), y.as_str()),
        _ => false,
    }
}

/// Deux textes optionnels sont-ils les mêmes ?
pub fn meme_opt(a: &Option<String>, b: &Option<String>) -> (r: bool)
    ensures
        r == (vue_opt(*a) == vue_opt(*b)),
{
    match (a, b) {
        (Some(x), Some(y)) => egal(x.as_str(), y.as_str()),
        (None, None) => true,
        _ => false,
    }
}

/// Une copie d'un texte optionnel.
pub fn copie_opt(o: &Option<String>) -> (r: Option<String>)
    ensures
        vue_opt(r) == vue_opt(*o),
{
    match o {
        Some(s) => Some(s.clone()),
        None => None,
    }
}

/// Un texte optionnel, ou sa valeur par défaut.
pub fn ou_exec(o: &Option<String>, d: &str) -> (r: String)
    ensures
        r@ == ou(vue_opt(*o), d@),
{
    match o {
        Some(s) => s.clone(),
        None => d.to_owned(),
    }
}

fn est(kind: &Option<String>, nom: &str) -> (r: bool)
    ensures
        r == (vue_opt(*kind) == Some(nom@)),
{
    match kind {
        Some(k) => egal(k.as_str(), nom),
        None => false,
    }
}

fn issue_http_exec(status: Option<u64>) -> (r: Outcome)
    ensures
        r@ == issue_http(status),
{
    match status {
        Some(s) => {
            if !(200 <= s && s < 400) {
                let mut t = "HTTP ".to_owned();
                ajouter_decimal(&mut t, s);
                Outcome::Error(t)
            } else {
                Outcome::Success
            }
        },
        None => Outcome::Success,
    }
}

/// Des textes joints par un séparateur.
pub fn joints_exec(xs: &Vec<String>, sep: &str) -> (r: String)
    ensures
        r@ == joints(xs@.map_values(|s: String| s@), sep@),
{
    let ghost v = xs@.map_values(|s: String| s@);
    let mut r = String::new();
    let mut i: usize = 0;
    while i < xs.len()
        invariant
            i <= xs@.len(),
            v == xs@.map_values(|s: String| s@),
            r@ == joints(v.take(i as int), sep@),
        decreases xs@.len() - i,
    {
        assert(v.take(i + 1).drop_last() == v.take(i as int));
        if i > 0 {
            ajouter(&mut r, sep);
        }
        ajouter(&mut r, xs[i].as_str());
        proof {
            if i == 0 {
                assert(v.take(1) =~= seq![v[0]]);
            }
        }
        i = i + 1;
    }
    assert(v.take(xs@.len() as int) == v);
    r
}

fn etape_exec(step: Option<u64>) -> (r: Option<u32>)
    ensures
        r == etape(step),
{
    match step {
        Some(s) => if s <= 4294967295 {
            Some(s as u32)
        } else {
            None
        },
        None => None,
    }
}

fn plus_un(n: u32) -> (r: u32)
    ensures
        r == (if n < u32::MAX {
            (n + 1) as u32
        } else {
            u32::MAX
        }),
{
    if n < 4294967295 {
        n + 1
    } else {
        n
    }
}

proof fn lemme_en_attente(t: Seq<GesteV>, tool: Seq<char>, n: int)
    ensures
        en_attente(t, tool, n) matches Some(k) ==> 0 <= k < n && k < t.len(),
    decreases n,
{
    if n > 0 && n <= t.len() {
        lemme_en_attente(t, tool, n - 1);
    }
}

impl Parcours {
    /// Le parcours vide.
    pub fn new() -> (p: Self)
        ensures
            p@ == vide(),
    {
        let p = Parcours { gestes: Vec::new(), cumul: None, dernier: None };
        assert(p@.gestes =~= seq![]);
        p
    }

    /// Les lignes du parcours.
    pub fn gestes(&self) -> (r: &[TrailEntry])
        ensures
            r@.map_values(|g: TrailEntry| g@) == self@.gestes,
    {
        self.gestes.as_slice()
    }

    /// Le premier numéro du journal qui reste à lire.
    pub fn suivant(&self) -> (r: u64)
        ensures
            r == (match self@.dernier {
                Some(d) => if d < u64::MAX {
                    (d + 1) as u64
                } else {
                    u64::MAX
                },
                None => 0,
            }),
    {
        match self.dernier {
            Some(d) => d.saturating_add(1),
            None => 0,
        }
    }

    fn pousser_geste(&mut self, g: TrailEntry)
        ensures
            final(self)@ == (ParcoursV { gestes: old(self)@.gestes.push(g@), ..old(self)@ }),
    {
        self.gestes.push(g);
        assert(self@.gestes =~= old(self)@.gestes.push(g@));
    }

    /// Ajoute un événement, qu'il ait déjà été lu ou non.
    fn ajouter_un(&mut self, e: &Evenement)
        ensures
            final(self)@ == apres_un(old(self)@, e@),
    {
        let ghost avant = self@;
        proof {
            genres_distincts();
        }
        let n0 = self.gestes.len();
        let seq = match e.seq {
            Some(s) => s,
            None => 0,
        };
        let step = etape_exec(e.step);
        let k = &e.kind;
        if est(k, "tool.call") {
            self.appel(e, seq, step);
        } else if est(k, "tool.result") {
            self.resultat(e, seq, step);
        } else if est(k, "policy.deny") {
            self.refus(e, seq, step);
        } else if est(k, "fs.commit") {
            self.acte(e, seq, step, "publication");
        } else if est(k, "fs.undo") {
            self.acte(e, seq, step, "annulation");
        } else if est(k, "net.request") {
            self.requete(e, seq, step);
        } else if est(k, "net.deny") || est(k, "net.exfil_suspected") {
            self.refus_reseau(e, seq, step);
        } else if est(k, "task.reminded") {
            self.rappel(e, seq, step);
        }
        if self.gestes.len() != n0 && !est(k, "net.request") {
            self.cumul = None;
        }
    }

    fn appel(&mut self, e: &Evenement, seq: u64, step: Option<u32>)
        requires
            e@.kind == Some("tool.call"@),
            seq == (match e@.seq {
                Some(s) => s,
                None => 0,
            }),
            step == etape(e@.step),
        ensures
            ({
                let (t, c) = lignes_apres(old(self)@.gestes, old(self)@.cumul, e@);
                final(self)@ == (ParcoursV { gestes: t, cumul: c, dernier: old(self)@.dernier })
            }),
    {
        proof {
            genres_distincts();
        }
        let g = TrailEntry {
            seq,
            step,
            tool: ou_exec(&e.tool, "outil"),
            target: copie_opt(&e.target),
            outcome: Outcome::Pending,
            fois: 1,
            sortie: None,
        };
        self.pousser_geste(g);
    }

    fn resultat(&mut self, e: &Evenement, seq: u64, step: Option<u32>)
        requires
            e@.kind == Some("tool.result"@),
            seq == (match e@.seq {
                Some(s) => s,
                None => 0,
            }),
            step == etape(e@.step),
        ensures
            ({
                let (t, c) = lignes_apres(old(self)@.gestes, old(self)@.cumul, e@);
                final(self)@ == (ParcoursV { gestes: t, cumul: c, dernier: old(self)@.dernier })
            }),
    {
        let ghost avant = self@;
        proof {
            genres_distincts();
        }
        let tool = ou_exec(&e.tool, "");
        assert(tool@ == ou(e@.tool, seq![])) by {
            reveal_strlit("");
        }
        let trouve = self.en_attente_exec(&tool);
        proof {
            lemme_en_attente(avant.gestes, tool@, avant.gestes.len() as int);
        }
        match trouve {
            Some(i) => {
                let issue = if e.ok == Some(true) {
                    Outcome::Success
                } else {
                    Outcome::Error(ou_exec(&e.error_code, "Erreur"))
                };
                self.gestes[i].outcome = issue;
                assert(self@.gestes =~= avant.gestes.update(
                    i as int,
                    GesteV { outcome: issue@, ..avant.gestes[i as int] },
                ));
                assert(issue@ == (if e@.ok == Some(true) {
                    IssueV::Success
                } else {
                    IssueV::Error(ou(e@.error_code, "Erreur"@))
                }));

            },
            None => {},
        }
        assert(self@.cumul == avant.cumul);
        assert(self@.dernier == avant.dernier);
    }

    fn refus(&mut self, e: &Evenement, seq: u64, step: Option<u32>)
        requires
            e@.kind == Some("policy.deny"@),
            seq == (match e@.seq {
                Some(s) => s,
                None => 0,
            }),
            step == etape(e@.step),
        ensures
            ({
                let (t, c) = lignes_apres(old(self)@.gestes, old(self)@.cumul, e@);
                final(self)@ == (ParcoursV { gestes: t, cumul: c, dernier: old(self)@.dernier })
            }),
    {
        let ghost avant = self@;
        proof {
            genres_distincts();
        }
        let n0 = self.gestes.len();
        let reason = ou_exec(&e.reason, "politique");
        let attache = n0 > 0 && step.is_some() && {
            let d = &self.gestes[n0 - 1];
            d.step == step && !egal(d.tool.as_str(), "refus") && !egal(d.tool.as_str(), "rappel")
                && match &d.outcome {
                Outcome::Pending => true,
                Outcome::Error(_) => true,
                _ => false,
            }
        };
        if attache {
            let ghost r = reason@;
            self.gestes[n0 - 1].outcome = Outcome::Denied(reason);
            assert(self@.gestes =~= avant.gestes.update(
                n0 - 1,
                GesteV { outcome: IssueV::Denied(r), ..avant.gestes.last() },
            ));
        } else {
            let target = match &e.path {
                Some(p) => Some(p.clone()),
                None => copie_opt(&e.target),
            };
            let g = TrailEntry {
                seq,
                step,
                tool: "refus".to_owned(),
                target,
                outcome: Outcome::Denied(reason),
                fois: 1,
                sortie: None,
            };
            self.pousser_geste(g);
        }
    }

    fn acte(&mut self, e: &Evenement, seq: u64, step: Option<u32>, nom: &str)
        requires
            (e@.kind == Some("fs.commit"@) && nom@ == "publication"@) || (e@.kind == Some("fs.undo"@)
                && nom@ == "annulation"@),
            seq == (match e@.seq {
                Some(s) => s,
                None => 0,
            }),
            step == etape(e@.step),
        ensures
            ({
                let (t, c) = lignes_apres(old(self)@.gestes, old(self)@.cumul, e@);
                final(self)@ == (ParcoursV { gestes: t, cumul: c, dernier: old(self)@.dernier })
            }),
    {
        proof {
            genres_distincts();
        }
        let g = TrailEntry {
            seq,
            step,
            tool: nom.to_owned(),
            target: None,
            outcome: Outcome::Success,
            fois: 1,
            sortie: None,
        };
        self.pousser_geste(g);
    }

    fn refus_reseau(&mut self, e: &Evenement, seq: u64, step: Option<u32>)
        requires
            e@.kind == Some("net.deny"@) || e@.kind == Some("net.exfil_suspected"@),
            seq == (match e@.seq {
                Some(s) => s,
                None => 0,
            }),
            step == etape(e@.step),
        ensures
            ({
                let (t, c) = lignes_apres(old(self)@.gestes, old(self)@.cumul, e@);
                final(self)@ == (ParcoursV { gestes: t, cumul: c, dernier: old(self)@.dernier })
            }),
    {
        let ghost avant = self@;
        proof {
            genres_distincts();
        }
        let n0 = self.gestes.len();
        let k = &e.kind;
        let motif = if est(k, "net.exfil_suspected") {
            let mut m = "exfiltration suspectée : ".to_owned();
            let r = ou_exec(&e.reason, "signaux relevés");
            ajouter(&mut m, r.as_str());
            m
        } else {
            ou_exec(&e.reason, "refusé")
        };
        assert(motif@ == motif_reseau(e@));
        let issue = Outcome::Denied(motif);
        let suite = n0 > 0 && e.host.is_some() && {
            let d = &self.gestes[n0 - 1];
            egal(d.tool.as_str(), "sortie") && meme_issue(&d.outcome, &issue) && meme_opt(
                &d.target,
                &e.host,
            )
        };
        if suite {
            let f = plus_un(self.gestes[n0 - 1].fois);
            self.gestes[n0 - 1].fois = f;
            assert(self@.gestes =~= avant.gestes.update(
                n0 - 1,
                GesteV { fois: f, ..avant.gestes.last() },
            ));
        } else {
            let g = TrailEntry {
                seq,
                step,
                tool: "sortie".to_owned(),
                target: copie_opt(&e.host),
                outcome: issue,
                fois: 1,
                sortie: None,
            };
            self.pousser_geste(g);
        }
    }

    fn rappel(&mut self, e: &Evenement, seq: u64, step: Option<u32>)
        requires
            e@.kind == Some("task.reminded"@),
            seq == (match e@.seq {
                Some(s) => s,
                None => 0,
            }),
            step == etape(e@.step),
        ensures
            ({
                let (t, c) = lignes_apres(old(self)@.gestes, old(self)@.cumul, e@);
                final(self)@ == (ParcoursV { gestes: t, cumul: c, dernier: old(self)@.dernier })
            }),
    {
        proof {
            genres_distincts();
        }
        let target = match &e.missing {
            Some(m) => Some(joints_exec(m, ", ")),
            None => None,
        };
        let g = TrailEntry {
            seq,
            step,
            tool: "rappel".to_owned(),
            target,
            outcome: Outcome::Success,
            fois: 1,
            sortie: None,
        };
        self.pousser_geste(g);
    }

    fn en_attente_exec(&self, tool: &String) -> (r: Option<usize>)
        ensures
            en_attente(self@.gestes, tool@, self@.gestes.len() as int) == (match r {
                Some(i) => Some(i as int),
                None => None,
            }),
            r is Some ==> r->0 < self@.gestes.len(),
    {
        let mut n = self.gestes.len();
        while n > 0
            invariant
                n <= self.gestes@.len(),
                en_attente(self@.gestes, tool@, self@.gestes.len() as int) == en_attente(
                    self@.gestes,
                    tool@,
                    n as int,
                ),
            decreases n,
        {
            proof {
                lemme_en_attente(self@.gestes, tool@, n as int);
            }
            let g = &self.gestes[n - 1];
            assert(self@.gestes[n - 1] == g@);
            if egal(g.tool.as_str(), tool.as_str()) && match &g.outcome {
                Outcome::Pending => true,
                _ => false,
            } {
                return Some(n - 1);
            }
            n = n - 1;
        }
        None
    }

    fn requete(&mut self, e: &Evenement, seq: u64, step: Option<u32>)
        requires
            e@.kind == Some("net.request"@),
            seq == (match e@.seq {
                Some(s) => s,
                None => 0,
            }),
            step == etape(e@.step),
        ensures
            ({
                let (t, c) = lignes_apres(old(self)@.gestes, old(self)@.cumul, e@);
                final(self)@ == (ParcoursV { gestes: t, cumul: c, dernier: old(self)@.dernier })
            }),
    {
        let ghost avant = self@;
        proof {
            genres_distincts();
        }
        let hote = ou_exec(&e.host, "hôte inconnu");
        let methode = ou_exec(&e.method, "?");
        let sortis = match e.bytes_out {
            Some(b) => b,
            None => 0,
        };
        let recus = match e.bytes_in {
            Some(b) => b,
            None => 0,
        };
        let issue = issue_http_exec(e.status);
        let n0 = self.gestes.len();
        assert(hote@ == ou(e@.host, "hôte inconnu"@));
        assert(methode@ == ou(e@.method, "?"@));
        let suite = n0 > 0 && match &self.cumul {
            Some(c) => {
                let d = &self.gestes[n0 - 1];
                egal(d.tool.as_str(), "sortie") && meme_issue(&d.outcome, &issue) && egal(
                    c.hote.as_str(),
                    hote.as_str(),
                ) && egal(c.methode.as_str(), methode.as_str())
            },
            None => false,
        };
        if suite {
            let c = self.cumul.take().unwrap();
            let cum = Cumul {
                hote: c.hote,
                methode: c.methode,
                sortis: c.sortis.saturating_add(sortis),
                recus: c.recus.saturating_add(recus),
            };
            let f = plus_un(self.gestes[n0 - 1].fois);
            self.gestes[n0 - 1].fois = f;
            let vue = Sortie {
                hote: cum.hote.clone(),
                methode: cum.methode.clone(),
                sortis: cum.sortis,
                recus: cum.recus,
            };
            self.gestes[n0 - 1].sortie = Some(vue);
            self.cumul = Some(cum);
            assert(self@.gestes =~= avant.gestes.update(
                n0 - 1,
                GesteV { fois: f, sortie: Some(cum@), ..avant.gestes.last() },
            ));
        } else {
            let vue = Sortie { hote: hote.clone(), methode: methode.clone(), sortis, recus };
            let g = TrailEntry {
                seq,
                step,
                tool: "sortie".to_owned(),
                target: None,
                outcome: issue,
                fois: 1,
                sortie: Some(vue),
            };
            self.pousser_geste(g);
            self.cumul = Some(Cumul { hote, methode, sortis, recus });
            assert(self@.gestes == avant.gestes.push(GesteV { seq, step, tool: "sortie"@, target: None, outcome: issue@, fois: 1, sortie: Some(SortieV { hote: hote@, methode: methode@, sortis, recus }) }));
            assert(self@.cumul == Some(SortieV { hote: hote@, methode: methode@, sortis, recus }));
        }
        let ghost (t, c) = lignes_apres(avant.gestes, avant.cumul, e@);
        assert(self@.gestes == t);
        assert(self@.cumul == c);
    }

    /// Ajoute des événements lus dans l'ordre du journal ; un événement déjà lu est passé.
    pub fn ajouter(&mut self, events: &[Evenement])
        ensures
            final(self)@ == apres_tous(old(self)@, events@.map_values(|e: Evenement| e@)),
    {
        let ghost es = events@.map_values(|e: Evenement| e@);
        let mut i: usize = 0;
        while i < events.len()
            invariant
                i <= events@.len(),
                es == events@.map_values(|e: Evenement| e@),
                self@ == apres_tous(old(self)@, es.take(i as int)),
            decreases events@.len() - i,
        {
            let e = &events[i];
            assert(es.take(i + 1).drop_last() == es.take(i as int));
            assert(es.take(i + 1).last() == e@);
            let passe = match e.seq {
                Some(s) => match self.dernier {
                    Some(d) => s <= d,
                    None => false,
                },
                None => false,
            };
            if !passe {
                if let Some(s) = e.seq {
                    self.dernier = Some(s);
                }
                self.ajouter_un(e);
            }
            i = i + 1;
        }
        assert(es.take(events@.len() as int) == es);
    }
}

/// Reconstruit le parcours à partir des événements du journal, dans l'ordre.
pub fn trail_from(events: &[Evenement]) -> (r: Vec<TrailEntry>)
    ensures
        r@.map_values(|g: TrailEntry| g@) == apres_tous(vide(), events@.map_values(|e: Evenement| e@)).gestes,
{
    let mut p = Parcours::new();
    p.ajouter(events);
    p.gestes
}


// ---------------------------------------------------------------------------------------------
// Relire le journal ne change rien à ce qui est déjà lu.

/// Tous les événements portent un numéro de séquence.
pub open spec fn numerotes(es: Seq<EvenementV>) -> bool {
    forall|k: int| 0 <= k < es.len() ==> (#[trigger] es[k]).seq is Some
}

proof fn lemme_dernier(p: ParcoursV, es: Seq<EvenementV>)
    requires
        numerotes(es),
    ensures
        es.len() > 0 ==> apres_tous(p, es).dernier is Some,
        forall|k: int|
            0 <= k < es.len() ==> (#[trigger] es[k]).seq->0 <= apres_tous(p, es).dernier->0,
        p.dernier matches Some(d) ==> (apres_tous(p, es).dernier matches Some(d2) && d <= d2),
    decreases es.len(),
{
    if es.len() > 0 {
        let avant = es.drop_last();
        assert forall|k: int| 0 <= k < avant.len() implies (#[trigger] avant[k]).seq is Some by {
            assert(avant[k] == es[k]);
        }
        lemme_dernier(p, avant);
        let q = apres_tous(p, avant);
        let e = es.last();
        assert(es[es.len() - 1].seq is Some);
        assert forall|k: int| 0 <= k < es.len() implies (#[trigger] es[k]).seq->0 <= apres_tous(
            p,
            es,
        ).dernier->0 by {
            if k < es.len() - 1 {
                assert(es[k] == avant[k]);
            }
        }
    }
}

proof fn lemme_deja_lus(q: ParcoursV, es: Seq<EvenementV>)
    requires
        numerotes(es),
        q.dernier is Some,
        forall|k: int| 0 <= k < es.len() ==> (#[trigger] es[k]).seq->0 <= q.dernier->0,
    ensures
        apres_tous(q, es) == q,
    decreases es.len(),
{
    if es.len() > 0 {
        let avant = es.drop_last();
        assert forall|k: int| 0 <= k < avant.len() implies (#[trigger] avant[k]).seq is Some by {
            assert(avant[k] == es[k]);
        }
        assert forall|k: int| 0 <= k < avant.len() implies (#[trigger] avant[k]).seq->0 <= q.dernier->0 by {
            assert(avant[k] == es[k]);
        }
        lemme_deja_lus(q, avant);
        assert(es[es.len() - 1].seq is Some);
    }
}

/// Relire des événements numérotés déjà lus ne change pas le parcours : une relecture du
/// journal qui repasse sur le début de la mission n'ajoute aucun geste et n'en compte aucun
/// deux fois.
pub proof fn loi_relecture(p: ParcoursV, es: Seq<EvenementV>)
    requires
        numerotes(es),
    ensures
        apres_tous(apres_tous(p, es), es) == apres_tous(p, es),
{
    lemme_dernier(p, es);
    if es.len() > 0 {
        lemme_deja_lus(apres_tous(p, es), es);
    }
}

/// Un refus réseau se lit sur la ligne de son hôte : après un événement `net.deny` ou
/// `net.exfil_suspected`, la dernière ligne du parcours est une sortie refusée dont la cible est
/// l'hôte de l'événement ; les lignes d'avant restent telles quelles, et la ligne d'avant n'est
/// reprise (son compte augmenté de un) que si elle portait déjà cet hôte et ce motif.
pub proof fn loi_un_refus_reseau_se_lit_sur_son_hote(p: ParcoursV, e: EvenementV)
    requires
        e.kind == Some("net.deny"@) || e.kind == Some("net.exfil_suspected"@),
    ensures
        ({
            let t = apres_un(p, e).gestes;
            &&& t.len() > 0
            &&& t.last().tool == "sortie"@
            &&& t.last().target == e.host
            &&& t.last().outcome == IssueV::Denied(motif_reseau(e))
            &&& t.drop_last() == p.gestes || (t.len() == p.gestes.len() && t.drop_last()
                == p.gestes.drop_last() && p.gestes.last().target == e.host && e.host is Some
                && p.gestes.last().tool == "sortie"@ && p.gestes.last().outcome == t.last().outcome
                && p.gestes.last().seq == t.last().seq)
            &&& if p.gestes.len() > 0 && p.gestes.last().tool == "sortie"@ && p.gestes.last().outcome
                == IssueV::Denied(motif_reseau(e)) && e.host is Some && p.gestes.last().target
                == e.host {
                &&& t.len() == p.gestes.len()
                &&& t.last().fois == if p.gestes.last().fois < u32::MAX {
                    p.gestes.last().fois + 1
                } else {
                    u32::MAX as int
                }
            } else {
                &&& t.len() == p.gestes.len() + 1
                &&& t.last().fois == 1
            }
        }),
{
    genres_distincts();
    let t = apres_un(p, e).gestes;
    if t.len() == p.gestes.len() {
        assert(t.drop_last() =~= p.gestes.drop_last());
    } else {
        assert(t.drop_last() =~= p.gestes);
    }
}

/// Le plus grand de deux numéros éventuels.
pub open spec fn le_plus_grand(a: Option<u64>, b: Option<u64>) -> Option<u64> {
    match (a, b) {
        (Some(x), Some(y)) => Some(if y > x {
            y
        } else {
            x
        }),
        (None, _) => b,
        (_, None) => a,
    }
}

/// Le plus grand numéro parmi `d` et ceux des événements `es`.
pub open spec fn plus_grand_numero(d: Option<u64>, es: Seq<EvenementV>) -> Option<u64>
    decreases es.len(),
{
    if es.len() == 0 {
        d
    } else {
        le_plus_grand(plus_grand_numero(d, es.drop_last()), es.last().seq)
    }
}

/// Le dernier numéro lu est le plus grand des numéros lus : le premier numéro qui reste à lire
/// (`Parcours::suivant`) le suit, et d'une relecture à l'autre il ne recule jamais.
pub proof fn loi_le_dernier_lu_est_le_plus_grand(p: ParcoursV, es: Seq<EvenementV>)
    ensures
        apres_tous(p, es).dernier == plus_grand_numero(p.dernier, es),
        p.dernier matches Some(d0) ==> apres_tous(p, es).dernier matches Some(d) && d0 <= d,
    decreases es.len(),
{
    if es.len() > 0 {
        loi_le_dernier_lu_est_le_plus_grand(p, es.drop_last());
        let q = apres_tous(p, es.drop_last());
        let e = es.last();
        assert(apres_tous(p, es) == apres(q, e));
        let d = match e.seq {
            Some(s) => match q.dernier {
                Some(d) => if s <= d {
                    q.dernier
                } else {
                    Some(s)
                },
                None => Some(s),
            },
            None => q.dernier,
        };
        assert(apres(q, e).dernier == d);
    }
}

/// Un événement plus ancien que le dernier lu est passé sans rien changer.
pub proof fn loi_evenement_ancien(p: ParcoursV, e: EvenementV)
    requires
        e.seq matches Some(s) && p.dernier matches Some(d) && s <= d,
    ensures
        apres(p, e) == p,
{
}

// ---------------------------------------------------------------------------------------------
// Ce que l'OS dit d'une décision qui attend.

/// Un texte sans les ponctuations et espaces finales `.`, `?`, `!`, ` `.
pub open spec fn sans_ponctuation_finale(s: Seq<char>) -> Seq<char>
    decreases s.len(),
{
    if s.len() > 0 && (s.last() == '.' || s.last() == '?' || s.last() == '!' || s.last() == ' ') {
        sans_ponctuation_finale(s.drop_last())
    } else {
        s
    }
}

/// La phrase d'une décision : la question, sa conséquence, le motif du modèle s'il en a donné
/// un, et ce que la voix peut répondre.
pub open spec fn phrase_decision(
    tache: Seq<char>,
    question: Seq<char>,
    consequence: Seq<char>,
    motif: Option<Seq<char>>,
) -> Seq<char> {
    let tete = "Décision demandée par la mission "@ + tache + ". "@ + sans_ponctuation_finale(
        question,
    ) + " "@ + consequence;
    let milieu = match motif {
        Some(m) => if sans_blancs(m).len() > 0 {
            " Le modèle dit : "@ + sans_blancs(m) + (if finit_ponctue(sans_blancs(m)) {
                seq![]
            } else {
                seq!['.']
            })
        } else {
            seq![]
        },
        None => seq![],
    };
    tete + milieu + " Dites « accorde » ou « refuse »."@
}

/// Le texte finit par `.`, `!` ou `?`.
pub open spec fn finit_ponctue(s: Seq<char>) -> bool {
    s.len() > 0 && (s.last() == '.' || s.last() == '!' || s.last() == '?')
}

/// Ce que l'OS dit d'une décision qui attend : la question, sa conséquence, le motif du
/// modèle s'il en a donné un, et ce que la voix peut répondre.
pub fn phrase_de_decision(d: &Decision) -> (r: String)
    ensures
        r@ == phrase_decision(d.tache@, d.question@, d.consequence@, vue_opt(d.motif)),
{
    let mut phrase = "Décision demandée par la mission ".to_owned();
    ajouter(&mut phrase, d.tache.as_str());
    ajouter(&mut phrase, ". ");
    let q = caracteres(d.question.as_str());
    let mut n = q.len();
    assert(q@.take(n as int) == q@);
    while n > 0 && (q[n - 1] == '.' || q[n - 1] == '?' || q[n - 1] == '!' || q[n - 1] == ' ')
        invariant
            n <= q@.len(),
            sans_ponctuation_finale(q@) == sans_ponctuation_finale(q@.take(n as int)),
        decreases n,
    {
        assert(q@.take(n as int).drop_last() == q@.take(n - 1));
        n = n - 1;
    }
    let coupee = tranche(q.as_slice(), 0, n);
    assert(coupee@ == q@.take(n as int));
    ajouter_car(&mut phrase, coupee.as_slice());
    ajouter(&mut phrase, " ");
    ajouter(&mut phrase, d.consequence.as_str());
    let ghost tete = phrase@;
    match &d.motif {
        Some(m) => {
            let mv = caracteres(m.as_str());
            let t = rogner(mv.as_slice());
            if t.len() > 0 {
                ajouter(&mut phrase, " Le modèle dit : ");
                ajouter_car(&mut phrase, t.as_slice());
                let l = t.len();
                if !(t[l - 1] == '.' || t[l - 1] == '!' || t[l - 1] == '?') {
                    pousser(&mut phrase, '.');
                    assert(phrase@ =~= tete + (" Le modèle dit : "@ + t@ + seq!['.']));
                } else {
                    assert(phrase@ =~= tete + (" Le modèle dit : "@ + t@ + seq![]));
                }
            } else {
                assert(phrase@ =~= tete + seq![]);
            }
        },
        None => {
            assert(phrase@ =~= tete + seq![]);
        },
    }
    ajouter(&mut phrase, " Dites « accorde » ou « refuse ».");
    phrase
}

// ---------------------------------------------------------------------------------------------
// Le contrôleur de l'inspecteur : une lecture et une commande au plus en vol.

/// Commande explicite de l'humain.
#[derive(Debug, Clone, Copy, PartialEq, Eq, Structural)]
pub enum Action {
    /// Exécuter le plan examiné.
    Start,
    /// Demander l'arrêt ; seule l'observation finale le confirme.
    Cancel,
    /// Publier dans les documents l'index exact examiné.
    Apply,
    /// Annuler une publication dont les documents n'ont pas changé depuis.
    Undo,
}

impl Action {
    /// La méthode du service qui porte cette commande.
    pub fn methode(self) -> (r: &'static str)
        ensures
            r@ == match self {
                Action::Start => "task.start"@,
                Action::Cancel => "task.cancel"@,
                Action::Apply => "task.apply"@,
                Action::Undo => "task.undo"@,
            },
    {
        match self {
            Action::Start => "task.start",
            Action::Cancel => "task.cancel",
            Action::Apply => "task.apply",
            Action::Undo => "task.undo",
        }
    }
}

/// Accusé de réception ou erreur, lié à l'identité de la mission commandée.
#[derive(Debug, Clone, PartialEq, Eq)]
pub struct Notice {
    /// Mission concernée.
    pub task: String,
    /// Message visible, sans déduire un état final d'un simple acquittement.
    pub text: String,
    /// La commande n'a pas de confirmation valide.
    pub error: bool,
}

/// Ce que l'inspecteur lit du détail d'une mission.
#[derive(Debug, Clone, PartialEq, Eq)]
pub struct Detail {
    /// Identifiant de la mission.
    pub id: String,
    /// Son état exact.
    pub etat: State,
    /// Les états qu'elle a traversés, dans l'ordre.
    pub historique: Vec<State>,
    /// La mission à laquelle son plan se rapporte, s'il y en a un.
    pub plan: Option<String>,
    /// Étapes consommées.
    pub etapes: u32,
    /// Temps écoulé depuis son départ, en secondes.
    pub secondes: u64,
    /// Le service accepte de la lancer.
    pub can_start: bool,
    /// Le service accepte de l'arrêter.
    pub can_cancel: bool,
    /// Le service accepte de publier ses changements.
    pub can_apply: bool,
    /// Le service accepte d'annuler sa publication.
    pub can_undo: bool,
    /// L'état de publication de son espace de travail, s'il en a un.
    pub publication: Option<WorkspaceState>,
    /// Les chemins des fichiers que son résultat a changés.
    pub changements: Vec<String>,
}

/// L'accusé de réception d'une commande : la mission que le service dit lancée, arrêtée,
/// publiée ou rétablie.
#[derive(Debug, Clone, PartialEq, Eq, Default)]
pub struct Accuse {
    /// Mission lancée.
    pub started: Option<String>,
    /// Mission dont l'arrêt est demandé.
    pub cancel_requested: Option<String>,
    /// Mission dont le plan est annulé.
    pub cancelled: Option<String>,
    /// Mission publiée.
    pub applied: Option<String>,
    /// Mission dont la publication est annulée.
    pub undone: Option<String>,
}

/// Contrôleur de l'inspecteur.
///
/// Il ne lit ni n'écrit rien lui-même : il dit quelle lecture ou quelle commande lancer, et
/// prend chaque réponse avec la révision de la sélection à laquelle elle a été demandée. Une
/// réponse d'une révision passée ne remplace jamais ce qui est montré.
pub struct Missions {
    /// La lecture des fichiers changés par la mission sélectionnée.
    pub files: Review,
    /// Une connexion au service est configurée.
    pub connecte: bool,
    /// La lecture du journal est raccordée.
    pub journal: bool,
    /// Le parcours de la mission sélectionnée, tel que le journal le raconte.
    pub parcours: Parcours,
    /// Une lecture du journal est en vol.
    pub lecture_du_parcours: bool,
    /// Le journal est à relire sans attendre l'échéance.
    pub parcours_maintenant: bool,
    /// La mission sélectionnée.
    pub selected: Option<String>,
    /// La révision de la sélection ; chaque réponse porte celle de sa demande.
    pub revision: u64,
    /// Le détail est à relire sans attendre l'échéance.
    pub lire_maintenant: bool,
    /// Une lecture du détail est en vol.
    pub reading: bool,
    /// Une commande est en vol.
    pub action: bool,
    /// Une commande a répondu ; sa confirmation attend une relecture.
    pub refresh_required: bool,
    /// Le détail reçu pour la sélection courante.
    pub snapshot: Option<Detail>,
    /// La panne de la dernière lecture.
    pub error: Option<String>,
    /// L'accusé de la dernière commande.
    pub notice: Option<Notice>,
    /// Lire à voix haute le résultat d'une mission qu'on regarde finir.
    pub announce: bool,
    /// Missions dont la fin a déjà été dite : une fin ne se dit qu'une fois.
    pub announced: Vec<String>,
    /// La phrase à dire, prise par l'application à la prochaine image.
    pub announcement: Option<String>,
    /// La décision déjà dite (mission et question) : une demande ne se dit qu'une fois.
    pub decision_dite: Option<String>,
}

/// L'accusé nomme bien cette mission.
pub open spec fn nomme(o: Option<String>, id: Seq<char>) -> bool {
    o matches Some(s) && s@ == id
}

/// Le motif d'un accusé qui ne confirme rien.
pub open spec fn accuse_incoherent() -> Seq<char> {
    "Accusé de réception incohérent ; vérifiez l'état de la mission."@
}

/// Ce qu'une réponse à une commande confirme : le message d'un acquittement nominatif, ou le
/// motif de son refus.
pub open spec fn message_d_accuse(action: Action, id: Seq<char>, r: Result<Accuse, String>) -> Result<
    Seq<char>,
    Seq<char>,
> {
    match r {
        Err(e) => Err(e@),
        Ok(v) => match action {
            Action::Start => if nomme(v.started, id) {
                Ok("Lancement accepté par le service."@)
            } else {
                Err(accuse_incoherent())
            },
            Action::Cancel => if nomme(v.cancel_requested, id) {
                Ok("Arrêt demandé. Attente de la confirmation du travailleur."@)
            } else if nomme(v.cancelled, id) {
                Ok("Le service a confirmé l'annulation du plan."@)
            } else {
                Err(accuse_incoherent())
            },
            Action::Apply => if nomme(v.applied, id) {
                Ok("Versions publiées dans vos documents."@)
            } else {
                Err(accuse_incoherent())
            },
            Action::Undo => if nomme(v.undone, id) {
                Ok("Publication annulée : vos documents ont retrouvé leurs versions initiales."@)
            } else {
                Err(accuse_incoherent())
            },
        },
    }
}

/// La commande est permise par le détail reçu.
pub open spec fn permise(action: Action, d: Detail) -> bool {
    match action {
        Action::Start => d.can_start,
        Action::Cancel => d.can_cancel,
        Action::Apply => d.can_apply,
        Action::Undo => d.can_undo,
    }
}

/// La fin de cette mission est à dire : la lecture est active, on la regardait courir, elle
/// vient de finir, et sa fin n'a jamais été dite.
pub open spec fn fin_a_dire(m: Missions, info: Detail) -> bool {
    &&& m.announce
    &&& terminal(info.etat)
    &&& m.snapshot matches Some(avant) && avant.id@ == info.id@ && !terminal(avant.etat)
    &&& !vues(m.announced@).contains(info.id@)
}

/// La clé d'une décision : sa mission et sa question.
pub open spec fn cle_de_decision(d: Decision) -> Seq<char> {
    d.tache@ + seq!['\0'] + d.question@
}

/// La première place d'un courant de cette mission dans la scène.
pub open spec fn place_du_courant(c: Seq<Courant>, id: Seq<char>) -> Option<int>
    decreases c.len(),
{
    if c.len() == 0 {
        None
    } else if c.last().tache@ == id && place_du_courant(c.drop_last(), id) is None {
        Some(c.len() - 1)
    } else {
        place_du_courant(c.drop_last(), id)
    }
}

#[verifier::spinoff_prover]
proof fn lemme_place(c: Seq<Courant>, id: Seq<char>, i: int)
    requires
        0 <= i < c.len(),
        forall|k: int| 0 <= k < i ==> c[k].tache@ != id,
    ensures
        place_du_courant(c.take(i + 1), id) == if c[i].tache@ == id {
            Some(i)
        } else {
            None::<int>
        },
    decreases i,
{
    assert(c.take(i + 1).drop_last() == c.take(i));
    assert(c.take(i + 1).last() == c[i]);
    if i > 0 {
        lemme_place(c, id, i - 1);
        assert(c[i - 1].tache@ != id);
    } else {
        assert(c.take(0).len() == 0);
    }
}

proof fn lemme_place_trouvee(c: Seq<Courant>, id: Seq<char>, i: int, n: int)
    requires
        0 <= i < n <= c.len(),
        place_du_courant(c.take(i + 1), id) == Some(i),
    ensures
        place_du_courant(c.take(n), id) == Some(i),
    decreases n - i,
{
    if n > i + 1 {
        lemme_place_trouvee(c, id, i, n - 1);
        assert(c.take(n).drop_last() == c.take(n - 1));
    }
}

proof fn lemme_place_absente(c: Seq<Courant>, id: Seq<char>, n: int)
    requires
        0 <= n <= c.len(),
        forall|k: int| 0 <= k < n ==> c[k].tache@ != id,
    ensures
        place_du_courant(c.take(n), id) is None,
    decreases n,
{
    if n > 0 {
        lemme_place_absente(c, id, n - 1);
        assert(c.take(n).drop_last() == c.take(n - 1));
        assert(c.take(n).last() == c[n - 1]);
    }
}

fn contient_l_etat(h: &Vec<State>, s: State) -> (r: bool)
    ensures
        r == h@.contains(s),
{
    for i in 0..h.len()
        invariant
            forall|k: int| 0 <= k < i ==> h@[k] != s,
    {
        if h[i] == s {
            assert(h@[i as int] == s);
            return true;
        }
    }
    false
}

/// Vérifie qu'un détail reçu est bien celui de la mission demandée : même identifiant, plan de
/// la même mission, et un lancement n'est offert qu'à une mission planifiée.
pub fn controler_le_detail(id: &str, info: Detail) -> (r: Result<Detail, String>)
    ensures
        (info.id@ != id@ || nomme_autre(info.plan, id@) || (info.can_start && info.etat
            != State::Planned)) ==> (r matches Err(e)
            && e@ == "Le détail reçu ne correspond pas à la mission demandée."@),
        !(info.id@ != id@ || nomme_autre(info.plan, id@) || (info.can_start && info.etat
            != State::Planned)) ==> r == Ok::<Detail, String>(info),
{
    let plan_autre = match &info.plan {
        Some(p) => !egal(p.as_str(), id),
        None => false,
    };
    if !egal(info.id.as_str(), id) || plan_autre || (info.can_start && info.etat
        != State::Planned) {
        return Err("Le détail reçu ne correspond pas à la mission demandée.".to_owned());
    }
    Ok(info)
}

/// Le plan se rapporte à une autre mission.
pub open spec fn nomme_autre(o: Option<String>, id: Seq<char>) -> bool {
    o matches Some(s) && s@ != id
}

fn nomme_exec(o: &Option<String>, id: &str) -> (r: bool)
    ensures
        r == nomme(*o, id@),
{
    match o {
        Some(s) => egal(s.as_str(), id),
        None => false,
    }
}

fn message_exec(action: Action, id: &str, r: Result<Accuse, String>) -> (m: Result<String, String>)
    ensures
        match (m, message_d_accuse(action, id@, r)) {
            (Ok(a), Ok(b)) => a@ == b,
            (Err(a), Err(b)) => a@ == b,
            _ => false,
        },
{
    match r {
        Err(e) => Err(e),
        Ok(v) => match action {
            Action::Start => if nomme_exec(&v.started, id) {
                Ok("Lancement accepté par le service.".to_owned())
            } else {
                Err("Accusé de réception incohérent ; vérifiez l'état de la mission.".to_owned())
            },
            Action::Cancel => if nomme_exec(&v.cancel_requested, id) {
                Ok("Arrêt demandé. Attente de la confirmation du travailleur.".to_owned())
            } else if nomme_exec(&v.cancelled, id) {
                Ok("Le service a confirmé l'annulation du plan.".to_owned())
            } else {
                Err("Accusé de réception incohérent ; vérifiez l'état de la mission.".to_owned())
            },
            Action::Apply => if nomme_exec(&v.applied, id) {
                Ok("Versions publiées dans vos documents.".to_owned())
            } else {
                Err("Accusé de réception incohérent ; vérifiez l'état de la mission.".to_owned())
            },
            Action::Undo => if nomme_exec(&v.undone, id) {
                Ok(
                    "Publication annulée : vos documents ont retrouvé leurs versions initiales.".to_owned(),
                )
            } else {
                Err("Accusé de réception incohérent ; vérifiez l'état de la mission.".to_owned())
            },
        },
    }
}

impl Missions {
    /// Un contrôleur sans sélection ; `connecte` dit si une connexion au service est configurée,
    /// `annonce` si les fins de mission se lisent à voix haute.
    pub fn new(connecte: bool, annonce: bool) -> (m: Missions)
        ensures
            m.connecte == connecte,
            m.announce == annonce,
            !m.journal,
            m.parcours@ == vide(),
            !m.lecture_du_parcours,
            m.parcours_maintenant,
            m.selected is None,
            m.revision == 0,
            m.lire_maintenant,
            !m.reading,
            !m.action,
            !m.refresh_required,
            m.snapshot is None,
            m.error is None,
            m.notice is None,
            m.announced@.len() == 0,
            m.announcement is None,
            m.decision_dite is None,
            m.files.task is None && m.files.path is None && m.files.document is None,
            m.files.error is None && m.files.revision == 0 && m.files.flight is None,
            !m.files.needed,
    {
        Missions {
            files: Review::default(),
            connecte,
            journal: false,
            parcours: Parcours::new(),
            lecture_du_parcours: false,
            parcours_maintenant: true,
            selected: None,
            revision: 0,
            lire_maintenant: true,
            reading: false,
            action: false,
            refresh_required: false,
            snapshot: None,
            error: None,
            notice: None,
            announce: annonce,
            announced: Vec::new(),
            announcement: None,
            decision_dite: None,
        }
    }

    /// Raccorde la lecture du journal ; la première lecture part sans attendre.
    pub fn brancher_journal(&mut self)
        ensures
            *final(self) == (Missions { journal: true, parcours_maintenant: true, ..*old(self) }),
    {
        self.journal = true;
        self.parcours_maintenant = true;
    }

    /// Le parcours réel de la mission sélectionnée, tel que le journal le raconte.
    pub fn trail(&self) -> (r: &[TrailEntry])
        ensures
            r@.map_values(|g: TrailEntry| g@) == self.parcours@.gestes,
    {
        self.parcours.gestes()
    }

    /// Observe une sélection. Les réponses d'une ancienne sélection ne remplacent pas la vue.
    pub fn select(&mut self, id: Option<&str>)
        ensures
            selection_suivie(old(self).files, final(self).files, vue_de_selection(id)),
            meme_selection(old(self).selected, vue_de_selection(id)) ==> *final(self) == (
            Missions { files: final(self).files, ..*old(self) }),
            !meme_selection(old(self).selected, vue_de_selection(id)) ==> {
                &&& *final(self) == (Missions {
                    files: final(self).files,
                    revision: revision_suivante(old(self).revision),
                    selected: final(self).selected,
                    snapshot: None,
                    parcours: final(self).parcours,
                    error: None,
                    lire_maintenant: true,
                    parcours_maintenant: true,
                    ..*old(self)
                })
                &&& meme_selection(final(self).selected, vue_de_selection(id))
                &&& final(self).parcours@ == vide()
            },
    {
        self.files.select(id);
        if !meme_mission(&self.selected, id) {
            self.revision = revision_apres(self.revision);
            self.selected = selection_de(id);
            self.snapshot = None;
            self.parcours = Parcours::new();
            self.error = None;
            self.lire_maintenant = true;
            self.parcours_maintenant = true;
        }
    }

    /// Prend le détail lu pour la révision `revision`. Rend vrai quand la fin de la mission est à
    /// dire maintenant : celui qui porte le contrôleur en fait la phrase et la pose par
    /// [`Missions::annoncer`]. Une commande reste en attente de confirmation jusqu'à une lecture
    /// réussie de la révision courante ; une lecture partie avant la commande porte une
    /// révision que la commande a dépassée, et ne confirme rien.
    pub fn recevoir_inspection(&mut self, revision: u64, result: Result<Detail, String>) -> (r: bool)
        ensures
            final(self).refresh_required == (old(self).refresh_required && !(revision == old(
                self,
            ).revision && result is Ok)),
            revision != old(self).revision ==> !r && *final(self) == (Missions {
                reading: false,
                ..*old(self)
            }),
            revision == old(self).revision ==> match result {
                Ok(info) => {
                    let efface = terminal(info.etat) && (old(self).notice matches Some(n)
                        && !n.error && n.task@ == info.id@);
                    &&& r == fin_a_dire(*old(self), info)
                    &&& *final(self) == (Missions {
                        reading: false,
                        notice: if efface {
                            None
                        } else {
                            old(self).notice
                        },
                        announced: final(self).announced,
                        snapshot: Some(info),
                        error: None,
                        refresh_required: false,
                        ..*old(self)
                    })
                    &&& vues(final(self).announced@) == if r {
                        vues(old(self).announced@).push(info.id@)
                    } else {
                        vues(old(self).announced@)
                    }
                },
                Err(e) => !r && *final(self) == (Missions {
                    reading: false,
                    snapshot: None,
                    error: Some(e),
                    ..*old(self)
                }),
            },
    {
        self.reading = false;
        if revision != self.revision {
            return false;
        }
        match result {
            Ok(info) => {
                let fini = info.etat.is_terminal();
                let efface = fini && match &self.notice {
                    Some(n) => !n.error && egal(n.task.as_str(), info.id.as_str()),
                    None => false,
                };
                if efface {
                    self.notice = None;
                }
                let regardee = match &self.snapshot {
                    Some(avant) => egal(avant.id.as_str(), info.id.as_str())
                        && !avant.etat.is_terminal(),
                    None => false,
                };
                let mut dire = false;
                if self.announce && fini && regardee && !contient_texte(
                    &self.announced,
                    info.id.as_str(),
                ) {
                    let ghost avant = self.announced@;
                    self.announced.push(info.id.clone());
                    assert(vues(self.announced@) == vues(avant).push(info.id@));
                    dire = true;
                }
                self.snapshot = Some(info);
                self.error = None;
                self.refresh_required = false;
                dire
            },
            Err(error) => {
                self.snapshot = None;
                self.error = Some(error);
                false
            },
        }
    }

    /// Pose la phrase à dire à la prochaine image.
    pub fn annoncer(&mut self, phrase: String)
        ensures
            *final(self) == (Missions { announcement: Some(phrase), ..*old(self) }),
    {
        self.announcement = Some(phrase);
    }

    /// Prend les événements du journal lus pour la révision `revision`, et s'il en reste à lire.
    pub fn recevoir_parcours(
        &mut self,
        revision: u64,
        result: Result<(Vec<Evenement>, bool), String>,
    )
        ensures
            match result {
                Ok(lu) if revision == old(self).revision => {
                    &&& *final(self) == (Missions {
                        lecture_du_parcours: false,
                        parcours: final(self).parcours,
                        parcours_maintenant: old(self).parcours_maintenant || lu.1,
                        ..*old(self)
                    })
                    &&& final(self).parcours@ == apres_tous(
                        old(self).parcours@,
                        lu.0@.map_values(|e: Evenement| e@),
                    )
                },
                _ => *final(self) == (Missions { lecture_du_parcours: false, ..*old(self) }),
            },
    {
        self.lecture_du_parcours = false;
        if revision == self.revision {
            match result {
                Ok((evenements, reste)) => {
                    self.parcours.ajouter(evenements.as_slice());
                    if reste {
                        self.parcours_maintenant = true;
                    }
                },
                Err(_) => {},
            }
        }
    }

    /// Prend la réponse à une commande envoyée pour la mission `id`. Seul un acquittement qui
    /// nomme cette mission confirme la commande ; l'état affiché ne change qu'à la relecture, qui
    /// part aussitôt.
    pub fn recevoir_action(&mut self, id: String, action: Action, result: Result<Accuse, String>)
        ensures
            *final(self) == (Missions {
                action: false,
                refresh_required: true,
                revision: revision_suivante(old(self).revision),
                lire_maintenant: true,
                notice: final(self).notice,
                ..*old(self)
            }),
            final(self).notice matches Some(n) && n.task == id && match message_d_accuse(
                action,
                id@,
                result,
            ) {
                Ok(m) => n.text@ == m && !n.error,
                Err(e) => n.text@ == "Commande non confirmée : "@ + e
                    + " Aucun nouvel envoi automatique."@ && n.error,
            },
    {
        self.action = false;
        self.refresh_required = true;
        self.revision = revision_apres(self.revision);
        self.lire_maintenant = true;
        let valide = message_exec(action, id.as_str(), result);
        self.notice = Some(
            match valide {
                Ok(message) => Notice { task: id, text: message, error: false },
                Err(erreur) => {
                    let mut text = "Commande non confirmée : ".to_owned();
                    ajouter(&mut text, erreur.as_str());
                    ajouter(&mut text, " Aucun nouvel envoi automatique.");
                    Notice { task: id, text, error: true }
                },
            },
        );
    }

    /// La lecture du détail à lancer maintenant, s'il y en a une : aucune n'est en vol,
    /// l'échéance est passée ou une relecture est demandée, le service est configuré et une
    /// mission est choisie. Rend la mission et la révision que la réponse portera.
    pub fn lecture_a_lancer(&mut self, echeance: bool) -> (r: Option<(String, u64)>)
        ensures
            ({
                let lancer = !old(self).reading && (echeance || old(self).lire_maintenant)
                    && old(self).connecte && old(self).selected is Some;
                &&& lancer ==> (r matches Some(l) && (old(self).selected matches Some(s) && l.0@
                    == s@) && l.1 == old(self).revision) && *final(self) == (Missions {
                    reading: true,
                    lire_maintenant: false,
                    ..*old(self)
                })
                &&& !lancer ==> r is None && *final(self) == *old(self)
            }),
    {
        if !self.reading && (echeance || self.lire_maintenant) && self.connecte {
            match &self.selected {
                Some(id) => {
                    let l = (id.clone(), self.revision);
                    self.reading = true;
                    self.lire_maintenant = false;
                    return Some(l);
                },
                None => {},
            }
        }
        None
    }

    /// La lecture du journal à lancer maintenant, s'il y en a une. Rend la mission, la révision
    /// et le premier numéro du journal qui reste à lire.
    pub fn parcours_a_lire(&mut self, echeance: bool) -> (r: Option<(String, u64, u64)>)
        ensures
            ({
                let lancer = !old(self).lecture_du_parcours && (echeance
                    || old(self).parcours_maintenant) && old(self).journal
                    && old(self).selected is Some;
                &&& lancer ==> (r matches Some(l) && (old(self).selected matches Some(s) && l.0@
                    == s@) && l.1 == old(self).revision && l.2 == (match old(
                    self,
                ).parcours@.dernier {
                    Some(d) => if d < u64::MAX {
                        (d + 1) as u64
                    } else {
                        u64::MAX
                    },
                    None => 0,
                })) && *final(self) == (Missions {
                    lecture_du_parcours: true,
                    parcours_maintenant: false,
                    ..*old(self)
                })
                &&& !lancer ==> r is None && *final(self) == *old(self)
            }),
    {
        if !self.lecture_du_parcours && (echeance || self.parcours_maintenant) && self.journal {
            match &self.selected {
                Some(id) => {
                    let l = (id.clone(), self.revision, self.parcours.suivant());
                    self.lecture_du_parcours = true;
                    self.parcours_maintenant = false;
                    return Some(l);
                },
                None => {},
            }
        }
        None
    }

    /// Détail de la mission actuellement sélectionnée.
    pub fn snapshot(&self) -> (r: Option<&Detail>)
        ensures
            match (r, self.snapshot) {
                (Some(a), Some(b)) => *a == b,
                (None, None) => true,
                _ => false,
            },
    {
        self.snapshot.as_ref()
    }

    /// Les résultats des missions qu'on regarde finir sont lus à voix haute.
    pub fn announce(&self) -> (r: bool)
        ensures
            r == self.announce,
    {
        self.announce
    }

    /// Active ou coupe la lecture des résultats ; la couper retire la phrase en attente.
    pub fn set_announce(&mut self, on: bool)
        ensures
            *final(self) == (Missions {
                announce: on,
                announcement: if on {
                    old(self).announcement
                } else {
                    None
                },
                ..*old(self)
            }),
    {
        self.announce = on;
        if !on {
            self.announcement = None;
        }
    }

    /// La phrase que l'OS doit dire maintenant, s'il y en a une ; prise une seule fois.
    pub fn take_announcement(&mut self) -> (r: Option<String>)
        ensures
            r == old(self).announcement,
            *final(self) == (Missions { announcement: None, ..*old(self) }),
    {
        let mut r: Option<String> = None;
        std::mem::swap(&mut r, &mut self.announcement);
        r
    }

    /// Une décision qui attend l'humain se dit, une fois, si la lecture est active : la question,
    /// sa conséquence, le motif du modèle s'il en a donné un, et ce qu'on peut répondre à la
    /// voix. Une phrase déjà en attente passe d'abord ; la décision sera dite à l'image
    /// suivante. Sans décision, la suivante pourra se dire.
    pub fn dire_la_decision(&mut self, decision: Option<&Decision>)
        ensures
            decision is None ==> *final(self) == (Missions { decision_dite: None, ..*old(self) }),
            decision matches Some(d) ==> if !old(self).announce || (old(self).decision_dite matches Some(
                k,
            ) && k@ == cle_de_decision(*d)) || old(self).announcement is Some {
                *final(self) == *old(self)
            } else {
                &&& *final(self) == (Missions {
                    announcement: final(self).announcement,
                    decision_dite: final(self).decision_dite,
                    ..*old(self)
                })
                &&& final(self).announcement matches Some(p) && p@ == phrase_decision(
                    d.tache@,
                    d.question@,
                    d.consequence@,
                    vue_opt(d.motif),
                )
                &&& final(self).decision_dite matches Some(k) && k@ == cle_de_decision(*d)
            },
    {
        match decision {
            None => {
                self.decision_dite = None;
            },
            Some(d) => {
                let mut cle = d.tache.clone();
                pousser(&mut cle, '\0');
                ajouter(&mut cle, d.question.as_str());
                assert(cle@ =~= cle_de_decision(*d));
                let deja = match &self.decision_dite {
                    Some(k) => egal(k.as_str(), cle.as_str()),
                    None => false,
                };
                if !self.announce || deja || self.announcement.is_some() {
                    return;
                }
                self.announcement = Some(phrase_de_decision(d));
                self.decision_dite = Some(cle);
            },
        }
    }

    /// Ouvre une version conservée d'un changement reçu dans le résultat de cette mission.
    ///
    /// # Errors
    /// Détail absent, mission non terminée, connexion absente ou chemin absent du résultat reçu.
    pub fn open_file(&mut self, path: &str) -> (r: Result<(), String>)
        ensures
            old(self).snapshot is None ==> (r matches Err(e) && e@ == "Détail de mission absent."@)
                && *final(self) == *old(self),
            old(self).snapshot matches Some(info) ==> if info.etat == State::Done
                && old(self).connecte && vues(info.changements@).contains(path@) {
                &&& r is Ok
                &&& *final(self) == (Missions { files: final(self).files, ..*old(self) })
                &&& ouverture_suivie(old(self).files, final(self).files, path@)
            } else {
                &&& r matches Err(e)
                    && e@ == "Ce fichier n'est pas disponible dans le résultat de la mission."@
                &&& *final(self) == *old(self)
            },
    {
        let disponible = match &self.snapshot {
            None => {
                return Err("Détail de mission absent.".to_owned());
            },
            Some(info) => info.etat == State::Done && self.connecte && contient_texte(
                &info.changements,
                path,
            ),
        };
        if !disponible {
            return Err("Ce fichier n'est pas disponible dans le résultat de la mission.".to_owned());
        }
        self.files.open(path.to_owned());
        Ok(())
    }

    /// Erreur de lecture à afficher.
    pub fn error(&self) -> (r: Option<&String>)
        ensures
            match (r, self.error) {
                (Some(a), Some(b)) => *a == b,
                (None, None) => true,
                _ => false,
            },
    {
        self.error.as_ref()
    }

    /// Une connexion de service est configurée.
    pub fn connected(&self) -> (r: bool)
        ensures
            r == self.connecte,
    {
        self.connecte
    }

    /// Message correspondant à la sélection courante.
    pub fn notice(&self) -> (r: Option<&Notice>)
        ensures
            match (r, self.notice) {
                (Some(a), Some(n)) => *a == n && (self.selected matches Some(s) && s@ == n.task@),
                (None, Some(n)) => !(self.selected matches Some(s) && s@ == n.task@),
                (None, None) => true,
                (Some(_), None) => false,
            },
    {
        match &self.notice {
            Some(n) => match &self.selected {
                Some(s) => if egal(s.as_str(), n.task.as_str()) {
                    Some(n)
                } else {
                    None
                },
                None => None,
            },
            None => None,
        }
    }

    /// Une commande ou sa relecture de confirmation est encore en cours.
    pub fn busy(&self) -> (r: bool)
        ensures
            r == (self.action || self.refresh_required),
    {
        self.action || self.refresh_required
    }

    /// Force une nouvelle lecture ; ne rejoue aucune commande.
    pub fn refresh(&mut self)
        ensures
            *final(self) == (Missions { lire_maintenant: true, ..*old(self) }),
    {
        self.lire_maintenant = true;
    }

    /// Prépare une commande, une seule fois, pour la mission dont le détail a été reçu ; rend
    /// l'identifiant de la mission à commander.
    ///
    /// # Errors
    /// Commande déjà en cours, détail non disponible, action non autorisée ou connexion absente.
    pub fn command(&mut self, action: Action) -> (r: Result<String, String>)
        ensures
            old(self).action || old(self).refresh_required ==> (r matches Err(e)
                && e@ == "Une commande attend encore sa confirmation."@) && *final(self) == *old(
                self,
            ),
            !(old(self).action || old(self).refresh_required) ==> match old(self).snapshot {
                None => (r matches Err(e) && e@ == "Le détail de la mission doit être chargé."@)
                    && *final(self) == *old(self),
                Some(info) => if !permise(action, info) {
                    (r matches Err(e)
                        && e@ == "Cette commande n'est pas disponible dans l'état reçu."@)
                        && *final(self) == *old(self)
                } else if !old(self).connecte {
                    (r matches Err(e) && e@ == "Connexion au service absente."@) && *final(self)
                        == *old(self)
                } else {
                    (r matches Ok(id) && id@ == info.id@) && *final(self) == (Missions {
                        action: true,
                        notice: None,
                        ..*old(self)
                    })
                },
            },
    {
        if self.action || self.refresh_required {
            return Err("Une commande attend encore sa confirmation.".to_owned());
        }
        let id = match &self.snapshot {
            None => {
                return Err("Le détail de la mission doit être chargé.".to_owned());
            },
            Some(info) => {
                let permis = match action {
                    Action::Start => info.can_start,
                    Action::Cancel => info.can_cancel,
                    Action::Apply => info.can_apply,
                    Action::Undo => info.can_undo,
                };
                if !permis {
                    return Err("Cette commande n'est pas disponible dans l'état reçu.".to_owned());
                }
                if !self.connecte {
                    return Err("Connexion au service absente.".to_owned());
                }
                info.id.clone()
            },
        };
        self.action = true;
        self.notice = None;
        Ok(id)
    }
}

/// Une fin déjà dite ne se redit pas : tant que la mission figure parmi celles dont la fin a été
/// dite, aucune lecture de son détail ne la redit.
pub proof fn loi_une_fin_se_dit_une_fois(m: Missions, info: Detail)
    requires
        vues(m.announced@).contains(info.id@),
    ensures
        !fin_a_dire(m, info),
{
}

/// Le courant de la liste avancé jusqu'à l'état que le détail atteste.
pub open spec fn courant_aligne(c: Courant, info: Detail) -> Courant {
    Courant {
        task_state: Some(info.etat),
        task_revision: info.historique@.len() as usize,
        etat: etat_de(info.etat),
        etapes: info.etapes,
        secondes: info.secondes,
        ..c
    }
}

/// Une relecture ancienne ne confirme pas une commande : la réponse à une commande laisse la
/// mission en attente de confirmation et change la révision, et seule une lecture réussie de la
/// révision courante lève l'attente ; une lecture partie avant la commande porte l'ancienne
/// révision, qui n'est plus la courante.
pub proof fn loi_une_relecture_ancienne_ne_confirme_rien(revision: u64)
    ensures
        revision_suivante(revision) != revision,
{
}

impl Missions {
    /// Réconcilie la liste et l'inspecteur : ils doivent montrer le même état. Quand le détail
    /// atteste une transition que la liste n'a pas encore reçue, le courant de la liste avance,
    /// la scène se réordonne et la fonction rend vrai ; quand la liste est plus récente, le
    /// détail et ses commandes sont retirés et une relecture part.
    pub fn align_scene(&mut self, scene: &mut Scene) -> (r: bool)
        ensures
            match old(self).snapshot {
                None => !r && *final(self) == *old(self) && *final(scene) == *old(scene),
                Some(info) => match place_du_courant(old(scene).courants@, info.id@) {
                    None => !r && *final(self) == *old(self) && *final(scene) == *old(scene),
                    Some(i) => {
                        let c = old(scene).courants@[i];
                        let n = info.historique@.len();
                        match c.task_state {
                            None => !r && *final(self) == *old(self) && *final(scene) == *old(
                                scene,
                            ),
                            Some(st) => if st == info.etat && c.task_revision == n {
                                !r && *final(self) == *old(self) && *final(scene) == *old(scene)
                            } else if c.task_revision < n && info.historique@.contains(st) {
                                &&& r
                                &&& *final(self) == *old(self)
                                &&& *final(scene) == (Scene {
                                    courants: final(scene).courants,
                                    ..*old(scene)
                                })
                                &&& dans_l_ordre(final(scene).courants@)
                                &&& exists|p: Seq<int>|
                                    #[trigger] rangement_stable(
                                        old(scene).courants@.update(i, courant_aligne(c, info)),
                                        final(scene).courants@,
                                        p,
                                    )
                                &&& final(scene).courants@.to_multiset() == old(
                                    scene,
                                ).courants@.update(i, courant_aligne(c, info)).to_multiset()
                                &&& final(scene).courants@.contains(courant_aligne(c, info))
                                &&& final(scene).courants@.len() == old(scene).courants@.len()
                            } else {
                                &&& !r
                                &&& *final(scene) == *old(scene)
                                &&& *final(self) == (Missions {
                                    snapshot: None,
                                    revision: revision_suivante(old(self).revision),
                                    lire_maintenant: true,
                                    ..*old(self)
                                })
                            },
                        }
                    },
                },
            },
    {
        let (i, etat_detail, n, etapes, secondes, atteste) = match &self.snapshot {
            None => {
                return false;
            },
            Some(info) => {
                let mut i: usize = 0;
                let mut trouve = false;
                while i < scene.courants.len() && !trouve
                    invariant
                        i <= scene.courants@.len(),
                        !trouve ==> forall|k: int|
                            0 <= k < i ==> scene.courants@[k].tache@ != info.id@,
                        trouve ==> i < scene.courants@.len() && place_du_courant(
                            scene.courants@,
                            info.id@,
                        ) == Some(i as int),
                    decreases scene.courants@.len() - i + (if trouve {
                        0int
                    } else {
                        1int
                    }),
                {
                    if egal(scene.courants[i].tache.as_str(), info.id.as_str()) {
                        proof {
                            lemme_place(scene.courants@, info.id@, i as int);
                            lemme_place_trouvee(
                                scene.courants@,
                                info.id@,
                                i as int,
                                scene.courants@.len() as int,
                            );
                            assert(scene.courants@.take(scene.courants@.len() as int)
                                == scene.courants@);
                        }
                        trouve = true;
                    } else {
                        i = i + 1;
                    }
                }
                if !trouve {
                    proof {
                        lemme_place_absente(
                            scene.courants@,
                            info.id@,
                            scene.courants@.len() as int,
                        );
                        assert(scene.courants@.take(scene.courants@.len() as int)
                            == scene.courants@);
                    }
                    return false;
                }
                let c = &scene.courants[i];
                let st = match c.task_state {
                    None => {
                        return false;
                    },
                    Some(st) => st,
                };
                let n = info.historique.len();
                if st == info.etat && c.task_revision == n {
                    return false;
                }
                let atteste = c.task_revision < n && contient_l_etat(&info.historique, st);
                (i, info.etat, n, info.etapes, info.secondes, atteste)
            },
        };
        if atteste {
            let c = &scene.courants[i];
            let nouveau = Courant {
                tache: c.tache.clone(),
                intitule: c.intitule.clone(),
                agent: c.agent.clone(),
                etat: etat(etat_detail),
                etapes,
                secondes,
                task_state: Some(etat_detail),
                task_revision: n,
            };
            let ghost avance = nouveau;
            scene.courants.set(i, nouveau);
            let ghost pose = scene.courants@;
            scene.ordonner();
            proof {
                broadcast use {vstd::seq_lib::group_to_multiset_ensures, vstd::multiset::group_multiset_axioms};

                assert(pose[i as int] == avance);
                assert(pose.contains(avance));
                assert(pose.to_multiset().count(avance) > 0);
                assert(scene.courants@.to_multiset().count(avance) > 0);
                assert(scene.courants@.to_multiset().len() == pose.to_multiset().len());
            }
            true
        } else {
            self.snapshot = None;
            self.revision = revision_apres(self.revision);
            self.lire_maintenant = true;
            false
        }
    }
}

// ---------------------------------------------------------------------------------------------
// Lire la suite du journal, page par page.

/// Taille d'une page de lecture du journal.
pub const PAGE_DU_JOURNAL: usize = 400;

/// Pages lues au plus par relecture : une longue mission se rattrape en quelques relectures
/// rapprochées, sans qu'une seule retienne longtemps le fil de lecture.
pub const PAGES_PAR_RELECTURE: usize = 10;

/// Une relecture du journal en cours : les événements lus depuis le numéro de départ, dans
/// l'ordre du journal, et ce qui reste à demander.
pub struct LectureDuJournal {
    /// Le premier numéro qui reste à lire.
    pub depuis: u64,
    /// Pages déjà lues.
    pub pages: usize,
    /// Les événements lus.
    pub lus: Vec<Evenement>,
    /// La relecture est finie ; vrai s'il reste à lire au-delà.
    pub finie: Option<bool>,
}

/// Le numéro qui suit, en tournant au bout de l'entier.
pub open spec fn seq_suivant(s: u64) -> u64 {
    if s == u64::MAX {
        0
    } else {
        (s + 1) as u64
    }
}

impl LectureDuJournal {
    /// Une relecture qui part du numéro `depuis`.
    pub fn new(depuis: u64) -> (l: LectureDuJournal)
        ensures
            l.depuis == depuis,
            l.pages == 0,
            l.lus@.len() == 0,
            l.finie is None,
    {
        LectureDuJournal { depuis, pages: 0, lus: Vec::new(), finie: None }
    }

    /// La page à demander (`ledger.query`) : à partir de quel numéro, et combien d'événements au
    /// plus ; aucune quand la relecture est finie.
    pub fn page_a_lire(&self) -> (r: Option<(u64, usize)>)
        ensures
            self.finie is Some ==> r is None,
            self.finie is None ==> r == Some((self.depuis, PAGE_DU_JOURNAL)),
    {
        if self.finie.is_some() {
            None
        } else {
            Some((self.depuis, PAGE_DU_JOURNAL))
        }
    }

    /// Prend une page lue. Une page dont le dernier événement n'a pas de numéro ne permet pas
    /// d'avancer : la relecture s'arrête avant elle. Sinon la page s'ajoute ; une page
    /// incomplète finit la relecture, et après la dixième page pleine il reste à lire.
    pub fn recevoir_page(&mut self, page: Vec<Evenement>)
        requires
            old(self).finie is None,
            old(self).pages < PAGES_PAR_RELECTURE,
        ensures
            page@.len() == 0 || page@.last().seq is None ==> *final(self) == (LectureDuJournal {
                finie: Some(false),
                ..*old(self)
            }),
            page@.len() > 0 && page@.last().seq is Some ==> {
                &&& final(self).depuis == seq_suivant(page@.last().seq->0)
                &&& final(self).lus@ == old(self).lus@ + page@
                &&& final(self).pages == old(self).pages + 1
                &&& final(self).finie == if page@.len() != PAGE_DU_JOURNAL {
                    Some(false)
                } else if old(self).pages + 1 == PAGES_PAR_RELECTURE {
                    Some(true)
                } else {
                    None::<bool>
                }
            },
    {
        let pleine = page.len() == PAGE_DU_JOURNAL;
        let n = page.len();
        if n == 0 {
            self.finie = Some(false);
            return;
        }
        let dernier = page[n - 1].seq;
        match dernier {
            None => {
                self.finie = Some(false);
            },
            Some(seq) => {
                self.depuis = if seq == u64::MAX {
                    0
                } else {
                    seq + 1
                };
                let mut page = page;
                self.lus.append(&mut page);
                self.pages = self.pages + 1;
                if !pleine {
                    self.finie = Some(false);
                } else if self.pages == PAGES_PAR_RELECTURE {
                    self.finie = Some(true);
                }
            },
        }
    }
}

} // verus!
