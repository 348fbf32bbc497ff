//! État de l'espace de conversation, indépendant du dessin et du fil réseau.
//!
//! Le contrôleur ne fait aucune requête lui-même : il décide de ce qui part, et reçoit ce qui
//! revient. Celui qui le porte exécute les demandes en arrière-plan et lui rend chaque réponse
//! par [`Atelier::recevoir`].

use vstd::prelude::*;
use crate::texte::{
    ajouter, caracteres, contient_texte, egal, rogner, sans_blancs, taille, taille_de, vues,
};

verus! {

/// Page active de l'espace de travail.
#[derive(Debug, Clone, Copy, PartialEq, Eq, Structural, Default)]
pub enum Page {
    /// Accueil et composition d'une demande.
    #[default]
    Accueil,
    /// Historique de la conversation courante.
    Conversation,
    /// Modèles réellement exposés par le moteur.
    Modeles,
    /// Tâches et isolation lues auprès des services.
    Activite,
}

/// Ce que le moteur a mesuré d'une génération réussie.
#[derive(Debug, Clone, PartialEq, Eq)]
pub struct Mesure {
    /// Le texte complet de la réponse.
    pub texte: String,
    /// Jetons lus par le moteur.
    pub jetons_entrants: u64,
    /// Jetons produits.
    pub jetons_sortants: u64,
    /// Durée totale, en millisecondes.
    pub duree_ms: u64,
    /// Délai avant le premier jeton, en millisecondes, quand il est connu.
    pub premier_jeton_ms: Option<u64>,
    /// Messages oubliés pour tenir dans la fenêtre du moteur.
    pub oublies: u64,
}

/// Une demande et la réponse associée, y compris partielle en cas d'erreur.
#[derive(Debug, Clone, PartialEq, Eq)]
pub struct Tour {
    /// Texte fourni par la personne.
    pub demande: String,
    /// Modèle sélectionné pour ce tour.
    pub modele: String,
    /// Texte reçu progressivement.
    pub reponse: String,
    /// Succès mesuré ; absent pendant la génération ou en cas d'échec.
    pub mesure: Option<Mesure>,
    /// Panne ou interruption à afficher avec le texte partiel.
    pub erreur: Option<String>,
}

/// Ce qu'un client officiel dit de lui-même, sondé sans jamais lire ses identifiants.
#[derive(Debug, Clone, PartialEq, Eq)]
pub struct ClientCard {
    /// Nom du pilote, tel que le client se nomme (`codex`, `gemini`…).
    pub driver: String,
    /// Le programme est installé.
    pub present: bool,
    /// Version rendue par le programme, si sondée.
    pub version: Option<String>,
    /// État de connexion lisible, tel que le pilote le formule.
    pub connection: String,
    /// Une session est ouverte : le client peut travailler pour l'humain.
    pub connected: bool,
}

/// Le poids que le moteur dit servir, repéré dans le catalogue, et la fenêtre qu'il accorde.
#[derive(Debug, Clone, Copy, PartialEq, Eq, Structural)]
pub struct Servi {
    /// Rang de l'entrée du catalogue que le moteur a chargée, s'il y en a une.
    pub rang: Option<usize>,
    /// Fenêtre de contexte par requête, en tokens.
    pub fenetre: Option<u64>,
}

/// Un poids tel que le routeur du moteur local le connaît.
#[derive(Debug, Clone, Default, PartialEq, Eq)]
pub struct AuMoteur {
    /// Le nom sous lequel le moteur le sert.
    pub nom: String,
    /// Chargé (`loaded`), en cours (`loading`), déchargé…
    pub etat: Option<String>,
}

/// L'état que le routeur donne à un poids qu'il sert.
pub open spec fn etat_charge() -> Seq<char> {
    seq!['l', 'o', 'a', 'd', 'e', 'd']
}

/// Le moteur sert ce poids en ce moment.
pub open spec fn est_charge(m: AuMoteur) -> bool {
    m.etat matches Some(e) && e@ == etat_charge()
}

impl AuMoteur {
    /// Le moteur le sert en ce moment.
    pub fn charge(&self) -> (r: bool)
        ensures
            r == est_charge(*self),
    {
        match &self.etat {
            Some(e) => {
                let attendu = "loaded";
                proof {
                    reveal_strlit("loaded");
                    assert(attendu@ == etat_charge());
                }
                egal(e.as_str(), attendu)
            },
            None => false,
        }
    }
}

/// Où en est un téléchargement.
#[derive(Debug, Clone, Default, PartialEq, Eq)]
pub struct SuiviDePoids {
    /// `running`, `done`, `failed` ou `cancelled`.
    pub state: String,
    /// Octets reçus.
    pub received: u64,
    /// Taille totale, si elle est connue.
    pub total: Option<u64>,
    /// Motif d'un échec.
    pub error: Option<String>,
}

/// Une entrée du catalogue des poids du système, telle qu'agentd la rend (`model.catalog`) : ce
/// que le système sait télécharger, et ce que la machine en a.
#[derive(Debug, Clone, Default, PartialEq, Eq)]
pub struct EntreeCatalogue {
    /// Identifiant au catalogue.
    pub id: String,
    /// Nom pour l'humain.
    pub name: String,
    /// Quantification annoncée.
    pub quantization: Option<String>,
    /// À quoi sert ce modèle ici.
    pub note: Option<String>,
    /// Taille exacte, quand le catalogue la connaît.
    pub bytes: Option<u64>,
    /// Posé et vérifié.
    pub installed: bool,
    /// Le fichier posé, quand il l'est.
    pub path: Option<String>,
    /// Déjà fourni par la configuration du système (le modèle par défaut, dans `/nix/store`).
    pub provided: Option<String>,
    /// Octets reçus d'un téléchargement interrompu, qui reprendra d'ici.
    pub partial_bytes: Option<u64>,
    /// Le dernier téléchargement depuis le démarrage d'agentd.
    pub pull: Option<SuiviDePoids>,
    /// Ce que le routeur du moteur local en dit, s'il connaît ce fichier.
    pub au_moteur: Option<AuMoteur>,
}

/// L'état d'un téléchargement qui court.
pub open spec fn etat_en_cours() -> Seq<char> {
    seq!['r', 'u', 'n', 'n', 'i', 'n', 'g']
}

/// Un téléchargement de cette entrée est en cours.
pub open spec fn telechargement_en_cours(e: EntreeCatalogue) -> bool {
    e.pull matches Some(p) && p.state@ == etat_en_cours()
}

impl EntreeCatalogue {
    /// Un téléchargement de cette entrée est en cours.
    pub fn en_cours(&self) -> (r: bool)
        ensures
            r == telechargement_en_cours(*self),
    {
        match &self.pull {
            Some(p) => {
                let attendu = "running";
                proof {
                    reveal_strlit("running");
                    assert(attendu@ == etat_en_cours());
                }
                egal(p.state.as_str(), attendu)
            },
            None => false,
        }
    }
}

/// Ce que la page Modèles peut demander pour un poids du catalogue.
#[derive(Debug, Clone, Copy, PartialEq, Eq, Structural)]
pub enum CommandeDePoids {
    /// Télécharger, ou reprendre.
    Telecharger,
    /// Arrêter un téléchargement en cours.
    Arreter,
    /// Retirer un poids téléchargé.
    Retirer,
    /// Le faire charger par le routeur du moteur local.
    Servir,
}

/// La méthode d'agentd qui porte une commande ; servir ne passe pas par agentd.
pub open spec fn methode_de(c: CommandeDePoids) -> Option<Seq<char>> {
    match c {
        CommandeDePoids::Telecharger => Some(seq!['m', 'o', 'd', 'e', 'l', '.', 'p', 'u', 'l', 'l']),
        CommandeDePoids::Arreter => Some(
            seq!['m', 'o', 'd', 'e', 'l', '.', 'c', 'a', 'n', 'c', 'e', 'l'],
        ),
        CommandeDePoids::Retirer => Some(
            seq!['m', 'o', 'd', 'e', 'l', '.', 'r', 'e', 'm', 'o', 'v', 'e'],
        ),
        CommandeDePoids::Servir => None,
    }
}

impl CommandeDePoids {
    /// La méthode d'agentd qui porte cette commande, s'il y en a une.
    pub fn methode(self) -> (r: Option<&'static str>)
        ensures
            match (r, methode_de(self)) {
                (Some(m), Some(attendue)) => m@ == attendue,
                (None, None) => true,
                _ => false,
            },
    {
        match self {
            CommandeDePoids::Telecharger => {
                proof {
                    reveal_strlit("model.pull");
                }
                Some("model.pull")
            },
            CommandeDePoids::Arreter => {
                proof {
                    reveal_strlit("model.cancel");
                }
                Some("model.cancel")
            },
            CommandeDePoids::Retirer => {
                proof {
                    reveal_strlit("model.remove");
                }
                Some("model.remove")
            },
            CommandeDePoids::Servir => None,
        }
    }
}

/// Qui parle dans un message envoyé au moteur.
#[derive(Debug, Clone, Copy, PartialEq, Eq, Structural)]
pub enum Role {
    /// La personne.
    User,
    /// Le modèle.
    Assistant,
}

impl Role {
    /// Le nom du rôle, tel que l'API de dialogue l'attend.
    pub fn nom(self) -> (r: &'static str)
        ensures
            r@ == (match self {
                Role::User => seq!['u', 's', 'e', 'r'],
                Role::Assistant => seq!['a', 's', 's', 'i', 's', 't', 'a', 'n', 't'],
            }),
    {
        match self {
            Role::User => {
                proof {
                    reveal_strlit("user");
                }
                "user"
            },
            Role::Assistant => {
                proof {
                    reveal_strlit("assistant");
                }
                "assistant"
            },
        }
    }
}

/// Un message de l'historique envoyé au moteur.
#[derive(Debug, Clone, PartialEq, Eq)]
pub struct Message {
    /// Qui parle.
    pub role: Role,
    /// Ce qui est dit.
    pub content: String,
}

/// Ce qui part au moteur, au plus : les tours récents et la demande.
pub const BUDGET: usize = 32768;

/// La plus longue demande acceptée, en octets.
pub const DEMANDE_MAX: usize = 16384;

/// Le nombre de tours à partir duquel une conversation est close.
pub const TOURS_MAX: usize = 200;

/// Ce qu'un tour terminé pèse dans l'historique.
pub open spec fn poids_du_tour(t: Tour) -> int {
    taille(t.demande@) + taille(t.reponse@)
}

/// Les tours terminés correctement, dans l'ordre.
pub open spec fn finis(t: Seq<Tour>) -> Seq<Tour>
    decreases t.len(),
{
    if t.len() == 0 {
        Seq::empty()
    } else if t.last().mesure is Some {
        finis(t.drop_last()).push(t.last())
    } else {
        finis(t.drop_last())
    }
}

/// Ce que pèsent les `g` derniers tours d'une suite.
pub open spec fn poids_des_derniers(f: Seq<Tour>, g: nat) -> int
    decreases g,
{
    if g == 0 || g > f.len() {
        0
    } else {
        poids_du_tour(f[f.len() - g]) + poids_des_derniers(f, (g - 1) as nat)
    }
}

/// La demande et les `g` derniers tours terminés tiennent dans le budget.
pub open spec fn tient(brouillon: Seq<char>, f: Seq<Tour>, g: nat) -> bool {
    taille(brouillon) + poids_des_derniers(f, g) <= BUDGET
}

/// La conversation ou la demande dépasse ce que la page accepte d'envoyer.
pub open spec fn conversation_trop_longue(brouillon: Seq<char>, tours: Seq<Tour>) -> bool {
    taille(brouillon) > DEMANDE_MAX || tours.len() >= TOURS_MAX
}

/// L'historique qui part avec `g` tours gardés parmi les tours terminés `f`, puis la demande.
pub open spec fn historique_conforme(
    h: Seq<Message>,
    f: Seq<Tour>,
    g: nat,
    brouillon: Seq<char>,
) -> bool {
    &&& g <= f.len()
    &&& h.len() == 2 * g + 1
    &&& forall|k: int|
        0 <= k < g ==> {
            &&& (#[trigger] h[2 * k]).role == Role::User
            &&& h[2 * k].content@ == f[f.len() - g + k].demande@
            &&& h[2 * k + 1].role == Role::Assistant
            &&& h[2 * k + 1].content@ == f[f.len() - g + k].reponse@
        }
    &&& h[2 * g as int].role == Role::User
    &&& h[2 * g as int].content@ == brouillon
}

/// `idx` donne, dans l'ordre, la place dans `t` de chaque élément de `f`.
pub open spec fn designe(idx: Seq<usize>, t: Seq<Tour>, f: Seq<Tour>) -> bool {
    &&& idx.len() == f.len()
    &&& forall|k: int| 0 <= k < idx.len() ==> (#[trigger] idx[k]) < t.len() && t[idx[k] as int] == f[k]
}

proof fn lemme_poids_croissant(f: Seq<Tour>, g: nat, h: nat)
    requires
        g <= h <= f.len(),
    ensures
        poids_des_derniers(f, g) <= poids_des_derniers(f, h),
    decreases h - g,
{
    if g < h {
        lemme_poids_croissant(f, g, (h - 1) as nat);
        assert(poids_du_tour(f[f.len() - h]) >= 0);
    }
}

proof fn lemme_finis_prefixe(t: Seq<Tour>, i: int)
    requires
        0 <= i < t.len(),
    ensures
        finis(t.take(i + 1)) == (if t[i].mesure is Some {
            finis(t.take(i)).push(t[i])
        } else {
            finis(t.take(i))
        }),
{
    assert(t.take(i + 1).drop_last() == t.take(i));
    assert(t.take(i + 1).last() == t[i]);
}

/// L'envoi est celui que la page fait : les `g` tours terminés les plus récents qui tiennent,
/// avec la demande, dans le budget ; le tour plus ancien suivant, s'il existe, n'y tiendrait
/// plus ; chacun des autres compte pour deux messages laissés de côté.
pub open spec fn envoi_conforme(h: Seq<Message>, omis: int, f: Seq<Tour>, b: Seq<char>) -> bool {
    exists|g: nat|
        {
            &&& #[trigger] historique_conforme(h, f, g, b)
            &&& omis == 2 * (f.len() - g)
            &&& tient(b, f, g)
            &&& forall|x: nat| g < x <= f.len() ==> !tient(b, f, x)
        }
}

/// Contrôleur de l'espace de conversation.
///
/// Le contrôleur ne fait aucune requête : ses méthodes disent ce qui doit partir, et
/// [`Atelier::recevoir`] prend chaque réponse.
pub struct Atelier {
    /// Page visible.
    pub page: Page,
    /// Demande en cours de rédaction.
    pub brouillon: String,
    /// Modèles découverts, jamais inventés.
    pub modeles: Vec<String>,
    /// Identifiant choisi.
    pub choisi: String,
    /// Conversation de cette session.
    pub tours: Vec<Tour>,
    /// Découverte en cours.
    pub decouverte: bool,
    /// Génération en cours.
    pub generation: bool,
    /// État d'erreur du moteur ou de la demande.
    pub erreur: Option<String>,
    /// Réduit les animations décoratives.
    pub mouvement_reduit: bool,
    /// La capture est une démonstration explicite.
    pub demonstration: bool,
    /// Base HTTP locale utilisée.
    pub endpoint: String,
    /// Les clients officiels, tels que sondés ; vide tant que la sonde n'a pas répondu.
    pub clients: Vec<ClientCard>,
    /// Une sonde des clients est partie ou a déjà répondu.
    pub clients_sondes: bool,
    /// Le catalogue des poids installés a été lu (ou n'a pas à l'être, dans une démonstration).
    pub poids_lus: bool,
    /// Ce que le moteur sert, s'il a répondu à la lecture des poids.
    pub servi: Option<Servi>,
    /// Le catalogue du système, tel qu'agentd le rend ; `None` tant qu'il n'a pas répondu.
    pub catalogue: Option<Result<Vec<EntreeCatalogue>, String>>,
    /// Le dernier refus d'une commande sur un poids (téléchargement refusé par capd…).
    pub erreur_de_poids: Option<String>,
    /// Une lecture du catalogue est partie et n'a pas répondu.
    pub lecture_du_catalogue: bool,
    /// Un poids vient d'être servi : la liste des modèles est à relire.
    pub redecouvrir: bool,
    /// Une lecture des poids installés est partie ou a répondu.
    pub lecture_des_poids: bool,
    /// Numéro de la génération courante ; une réponse d'un autre numéro est ignorée.
    pub numero: u64,
}

impl Atelier {
    /// Ce qui part au moteur : les tours terminés les plus récents qui tiennent en 32 Kio, puis
    /// la demande ; rend aussi le nombre de messages laissés de côté, que la page dit. Le fil
    /// affiché, lui, reste entier.
    pub fn historique(&self) -> (r: Result<(Vec<Message>, usize), String>)
        ensures
            r is Err <==> conversation_trop_longue(self.brouillon@, self.tours@),
            r matches Err(e) ==> e@
                == "Cette conversation atteint sa limite. Ouvrez une nouvelle conversation ou raccourcissez la demande."@,
            r matches Ok(envoi) ==> envoi_conforme(
                envoi.0@,
                envoi.1 as int,
                finis(self.tours@),
                self.brouillon@,
            ),
    {
        let b = taille_de(self.brouillon.as_str());
        if b > DEMANDE_MAX || self.tours.len() >= TOURS_MAX {
            return Err(
                "Cette conversation atteint sa limite. Ouvrez une nouvelle conversation ou raccourcissez la demande.".to_owned(),
            );
        }
        let mut idx: Vec<usize> = Vec::new();
        let mut i: usize = 0;
        while i < self.tours.len()
            invariant
                i <= self.tours@.len(),
                self.tours@.len() < TOURS_MAX,
                designe(idx@, self.tours@, finis(self.tours@.take(i as int))),
                idx@.len() <= i,
            decreases self.tours@.len() - i,
        {
            proof {
                lemme_finis_prefixe(self.tours@, i as int);
            }
            let ghost avant = idx@;
            if self.tours[i].mesure.is_some() {
                idx.push(i);
                proof {
                    assert forall|k: int| 0 <= k < idx@.len() implies (#[trigger] idx@[k])
                        < self.tours@.len() && self.tours@[idx@[k] as int] == finis(
                        self.tours@.take(i + 1),
                    )[k] by {
                        if k < avant.len() {
                            assert(idx@[k] == avant[k]);
                        }
                    }
                }
            }
            i = i + 1;
        }
        assert(self.tours@.take(self.tours@.len() as int) == self.tours@);
        let ghost f = finis(self.tours@);
        let n = idx.len();
        let mut size: u128 = b as u128;
        let mut g: usize = 0;
        while g < n
            invariant
                g <= n,
                n == f.len(),
                designe(idx@, self.tours@, f),
                size == taille(self.brouillon@) + poids_des_derniers(f, g as nat),
                size <= BUDGET,
            ensures
                g <= n,
                size == taille(self.brouillon@) + poids_des_derniers(f, g as nat),
                size <= BUDGET,
                g < n ==> !tient(self.brouillon@, f, (g + 1) as nat),
            decreases n - g,
        {
            let j = idx[n - 1 - g];
            assert(idx@[n - 1 - g] == j);
            let t = &self.tours[j];
            let p: u128 = taille_de(t.demande.as_str()) as u128 + taille_de(t.reponse.as_str()) as u128;
            assert(poids_des_derniers(f, (g + 1) as nat) == p + poids_des_derniers(f, g as nat));
            if size + p > BUDGET as u128 {
                break;
            }
            size = size + p;
            g = g + 1;
        }
        proof {
            assert forall|x: nat| g < x <= f.len() implies !tient(self.brouillon@, f, x) by {
                lemme_poids_croissant(f, (g + 1) as nat, x);
            }
        }
        let debut = n - g;
        let mut h: Vec<Message> = Vec::new();
        let mut k: usize = debut;
        while k < n
            invariant
                debut == n - g,
                debut <= k <= n,
                n == f.len(),
                designe(idx@, self.tours@, f),
                h@.len() == 2 * (k - debut),
                forall|j: int|
                    0 <= j < k - debut ==> {
                        &&& (#[trigger] h@[2 * j]).role == Role::User
                        &&& h@[2 * j].content@ == f[f.len() - g + j].demande@
                        &&& h@[2 * j + 1].role == Role::Assistant
                        &&& h@[2 * j + 1].content@ == f[f.len() - g + j].reponse@
                    },
            decreases n - k,
        {
            let j = idx[k];
            assert(idx@[k as int] == j);
            let t = &self.tours[j];
            h.push(Message { role: Role::User, content: t.demande.clone() });
            h.push(Message { role: Role::Assistant, content: t.reponse.clone() });
            proof {
                let j = (k - debut) as int;
                assert(h@[2 * j].content@ == f[f.len() - g + j].demande@);
            }
            k = k + 1;
        }
        h.push(Message { role: Role::User, content: self.brouillon.clone() });
        proof {
            assert forall|j: int| 0 <= j < g implies {
                &&& (#[trigger] h@[2 * j]).role == Role::User
                &&& h@[2 * j].content@ == f[f.len() - g + j].demande@
                &&& h@[2 * j + 1].role == Role::Assistant
                &&& h@[2 * j + 1].content@ == f[f.len() - g + j].reponse@
            } by {
                assert(h@[2 * j] == h@.drop_last()[2 * j]);
                assert(h@[2 * j + 1] == h@.drop_last()[2 * j + 1]);
            }
            assert(historique_conforme(h@, f, g as nat, self.brouillon@));
        }
        Ok((h, debut * 2))
    }
}

/// Les identifiants des entrées posées sur la machine, dans l'ordre du catalogue.
pub open spec fn ids_poses(e: Seq<EntreeCatalogue>) -> Seq<Seq<char>>
    decreases e.len(),
{
    if e.len() == 0 {
        Seq::empty()
    } else if e.last().installed {
        ids_poses(e.drop_last()).push(e.last().id@)
    } else {
        ids_poses(e.drop_last())
    }
}

/// Les identifiants des entrées que le moteur sert en ce moment, dans l'ordre du catalogue.
pub open spec fn ids_servis(e: Seq<EntreeCatalogue>) -> Seq<Seq<char>>
    decreases e.len(),
{
    if e.len() == 0 {
        Seq::empty()
    } else if e.last().au_moteur matches Some(m) && est_charge(m) {
        ids_servis(e.drop_last()).push(e.last().id@)
    } else {
        ids_servis(e.drop_last())
    }
}

/// Les poids posés d'un catalogue lu ; rien tant qu'il ne l'est pas.
pub open spec fn poses_du(c: Option<Result<Vec<EntreeCatalogue>, String>>) -> Seq<Seq<char>> {
    match c {
        Some(Ok(e)) => ids_poses(e@),
        _ => Seq::empty(),
    }
}

/// Les poids servis d'un catalogue lu ; rien tant qu'il ne l'est pas.
pub open spec fn servis_du(c: Option<Result<Vec<EntreeCatalogue>, String>>) -> Seq<Seq<char>> {
    match c {
        Some(Ok(e)) => ids_servis(e@),
        _ => Seq::empty(),
    }
}

/// Un téléchargement court dans le catalogue lu.
pub open spec fn telechargement_dans(c: Option<Result<Vec<EntreeCatalogue>, String>>) -> bool {
    c matches Some(Ok(e)) && exists|i: int| 0 <= i < e@.len() && telechargement_en_cours(#[trigger] e@[i])
}

/// Un élément de `apres` manque à `avant`.
pub open spec fn nouveau_parmi(avant: Seq<Seq<char>>, apres: Seq<Seq<char>>) -> bool {
    exists|k: int| 0 <= k < apres.len() && !avant.contains(#[trigger] apres[k])
}

/// Le modèle retenu quand la liste des modèles change : le choix courant s'il est encore
/// proposé, sinon le premier, sinon aucun.
pub open spec fn choix_du_modele(modeles: Seq<Seq<char>>, choisi: Seq<char>) -> Seq<char> {
    if modeles.contains(choisi) {
        choisi
    } else if modeles.len() > 0 {
        modeles[0]
    } else {
        Seq::empty()
    }
}

/// Ce que le routeur disait, avant une commande, de la première entrée qui porte cet identifiant.
pub open spec fn au_moteur_de(e: Seq<EntreeCatalogue>, id: Seq<char>) -> Option<AuMoteur>
    decreases e.len(),
{
    if e.len() == 0 {
        None
    } else if e[0].id@ == id {
        e[0].au_moteur
    } else {
        au_moteur_de(e.drop_first(), id)
    }
}

/// Le numéro de génération qui suit, en tournant au bout de l'entier.
pub open spec fn numero_suivant(n: u64) -> u64 {
    if n == u64::MAX {
        0
    } else {
        (n + 1) as u64
    }
}

/// Une réponse du travail en arrière-plan, rendue au contrôleur.
pub enum Evenement {
    /// La liste des modèles que le moteur expose, ou la panne de la découverte.
    Modeles(Result<Vec<String>, String>),
    /// Les poids installés ont été lus ; le moteur dit ce qu'il sert, s'il a répondu.
    Poids(Option<Servi>),
    /// Le catalogue du système, ou la panne de sa lecture.
    Catalogue(Result<Vec<EntreeCatalogue>, String>),
    /// Le refus d'une commande sur un poids.
    ErreurDePoids(String),
    /// Les clients officiels, tels que sondés.
    Clients(Vec<ClientCard>),
    /// Un fragment de la génération de ce numéro.
    Fragment(u64, String),
    /// La fin de la génération de ce numéro.
    Fin(u64, Result<Mesure, String>),
}

/// Ce qui part au moteur pour une demande.
pub struct Envoi {
    /// Le numéro de la génération : ses fragments le porteront.
    pub id: u64,
    /// Le modèle choisi.
    pub modele: String,
    /// L'historique, puis la demande.
    pub historique: Vec<Message>,
    /// Les messages laissés de côté pour tenir dans le budget.
    pub omis: usize,
}

/// Ce que demande une relecture du catalogue.
#[derive(Debug, Clone, Copy, PartialEq, Eq, Structural)]
pub enum Relecture {
    /// Rien : une lecture court déjà, ou la dernière est trop récente.
    Aucune,
    /// Une démonstration : le catalogue d'exemple vient d'être posé.
    Exemple,
    /// Une lecture auprès d'agentd est à lancer.
    Demandee,
}

/// Entre deux relectures du catalogue pendant un téléchargement, en millisecondes.
pub const RELECTURE_DU_CATALOGUE_MS: u64 = 500;

/// Entre deux relectures du catalogue au repos, en millisecondes.
pub const RELECTURE_AU_REPOS_MS: u64 = 5000;

proof fn lemme_ids_prefixe(e: Seq<EntreeCatalogue>, i: int)
    requires
        0 <= i < e.len(),
    ensures
        ids_poses(e.take(i + 1)) == (if e[i].installed {
            ids_poses(e.take(i)).push(e[i].id@)
        } else {
            ids_poses(e.take(i))
        }),
        ids_servis(e.take(i + 1)) == (if e[i].au_moteur matches Some(m) && est_charge(m) {
            ids_servis(e.take(i)).push(e[i].id@)
        } else {
            ids_servis(e.take(i))
        }),
{
    assert(e.take(i + 1).drop_last() == e.take(i));
    assert(e.take(i + 1).last() == e[i]);
}

fn identifiants_poses(e: &Vec<EntreeCatalogue>) -> (r: Vec<String>)
    ensures
        vues(r@) == ids_poses(e@),
{
    let mut r: Vec<String> = Vec::new();
    for i in 0..e.len()
        invariant
            vues(r@) == ids_poses(e@.take(i as int)),
    {
        proof {
            lemme_ids_prefixe(e@, i as int);
        }
        if e[i].installed {
            r.push(e[i].id.clone());
            assert(vues(r@) == ids_poses(e@.take(i as int)).push(e@[i as int].id@));
        }
    }
    assert(e@.take(e@.len() as int) == e@);
    r
}

fn identifiants_servis(e: &Vec<EntreeCatalogue>) -> (r: Vec<String>)
    ensures
        vues(r@) == ids_servis(e@),
{
    let mut r: Vec<String> = Vec::new();
    for i in 0..e.len()
        invariant
            vues(r@) == ids_servis(e@.take(i as int)),
    {
        proof {
            lemme_ids_prefixe(e@, i as int);
        }
        let servi = match &e[i].au_moteur {
            Some(m) => m.charge(),
            None => false,
        };
        if servi {
            r.push(e[i].id.clone());
            assert(vues(r@) == ids_servis(e@.take(i as int)).push(e@[i as int].id@));
        }
    }
    assert(e@.take(e@.len() as int) == e@);
    r
}

fn memes_textes(a: &Vec<String>, b: &Vec<String>) -> (r: bool)
    ensures
        r == (vues(a@) == vues(b@)),
{
    if a.len() != b.len() {
        proof {
            assert(vues(a@).len() != vues(b@).len());
        }
        return false;
    }
    for i in 0..a.len()
        invariant
            a@.len() == b@.len(),
            forall|k: int| 0 <= k < i ==> a@[k]@ == b@[k]@,
    {
        if !egal(a[i].as_str(), b[i].as_str()) {
            proof {
                assert(vues(a@)[i as int] != vues(b@)[i as int]);
            }
            return false;
        }
    }
    assert(vues(a@) =~= vues(b@));
    true
}

fn un_nouveau(apres: &Vec<String>, avant: &Vec<String>) -> (r: bool)
    ensures
        r == nouveau_parmi(vues(avant@), vues(apres@)),
{
    for i in 0..apres.len()
        invariant
            forall|k: int| 0 <= k < i ==> vues(avant@).contains(#[trigger] vues(apres@)[k]),
    {
        if !contient_texte(avant, apres[i].as_str()) {
            proof {
                assert(vues(apres@)[i as int] == apres@[i as int]@);
            }
            return true;
        }
    }
    false
}

fn copie_du_texte(o: &Option<String>) -> (r: Option<String>)
    ensures
        r == *o,
{
    match o {
        Some(s) => Some(s.clone()),
        None => None,
    }
}

fn copie_au_moteur(o: &Option<AuMoteur>) -> (r: Option<AuMoteur>)
    ensures
        r == *o,
{
    match o {
        Some(m) => Some(AuMoteur { nom: m.nom.clone(), etat: copie_du_texte(&m.etat) }),
        None => None,
    }
}

impl Atelier {
    /// Crée le contrôleur. La découverte explicite reste séparée pour les captures et les tests.
    pub fn nouveau(endpoint: String, demonstration: bool) -> (a: Atelier)
        ensures
            a.page == Page::Accueil,
            a.brouillon@.len() == 0,
            a.modeles@.len() == 0,
            a.choisi@.len() == 0,
            a.tours@.len() == 0,
            !a.decouverte,
            !a.generation,
            a.erreur is None,
            !a.mouvement_reduit,
            a.demonstration == demonstration,
            a.endpoint == endpoint,
            a.clients@.len() == 0,
            !a.clients_sondes,
            !a.poids_lus,
            a.servi is None,
            a.catalogue is None,
            a.erreur_de_poids is None,
            !a.lecture_du_catalogue,
            !a.redecouvrir,
            !a.lecture_des_poids,
            a.numero == 0,
    {
        Atelier {
            page: Page::Accueil,
            brouillon: String::new(),
            modeles: Vec::new(),
            choisi: String::new(),
            tours: Vec::new(),
            decouverte: false,
            generation: false,
            erreur: None,
            mouvement_reduit: false,
            demonstration,
            endpoint,
            clients: Vec::new(),
            clients_sondes: false,
            poids_lus: false,
            servi: None,
            catalogue: None,
            erreur_de_poids: None,
            lecture_du_catalogue: false,
            redecouvrir: false,
            lecture_des_poids: false,
            numero: 0,
        }
    }

    /// Les entrées du catalogue que le moteur sert en ce moment.
    pub fn poids_servis(&self) -> (r: Vec<String>)
        ensures
            vues(r@) == servis_du(self.catalogue),
    {
        match &self.catalogue {
            Some(Ok(entrees)) => identifiants_servis(entrees),
            _ => Vec::new(),
        }
    }

    /// Les entrées du catalogue posées sur la machine.
    pub fn poids_poses(&self) -> (r: Vec<String>)
        ensures
            vues(r@) == poses_du(self.catalogue),
    {
        match &self.catalogue {
            Some(Ok(entrees)) => identifiants_poses(entrees),
            _ => Vec::new(),
        }
    }

    fn recevoir_le_catalogue(&mut self, lu: Result<Vec<EntreeCatalogue>, String>)
        ensures
            ({
                let relire = poses_du(Some(lu)) != poses_du(old(self).catalogue)
                    && old(self).poids_lus;
                let nouveau = nouveau_parmi(servis_du(old(self).catalogue), servis_du(Some(lu)));
                *final(self) == (Atelier {
                    catalogue: Some(lu),
                    lecture_du_catalogue: false,
                    lecture_des_poids: if relire {
                        false
                    } else {
                        old(self).lecture_des_poids
                    },
                    poids_lus: if relire {
                        false
                    } else {
                        old(self).poids_lus
                    },
                    redecouvrir: old(self).redecouvrir || nouveau,
                    ..*old(self)
                })
            }),
    {
        let avant = self.poids_poses();
        let servis_avant = self.poids_servis();
        self.catalogue = Some(lu);
        self.lecture_du_catalogue = false;
        let apres = self.poids_poses();
        if !memes_textes(&apres, &avant) && self.poids_lus {
            self.lecture_des_poids = false;
            self.poids_lus = false;
        }
        let servis = self.poids_servis();
        if un_nouveau(&servis, &servis_avant) {
            self.redecouvrir = true;
        }
    }

    fn completer_le_dernier_tour(&mut self, text: String)
        requires
            old(self).tours@.len() > 0,
        ensures
            *final(self) == (Atelier { tours: final(self).tours, ..*old(self) }),
            final(self).tours@.drop_last() == old(self).tours@.drop_last(),
            final(self).tours@.len() == old(self).tours@.len(),
            final(self).tours@.last() == (Tour {
                reponse: final(self).tours@.last().reponse,
                ..old(self).tours@.last()
            }),
            final(self).tours@.last().reponse@ == old(self).tours@.last().reponse@ + text@,
    {
        let ghost avant = self.tours@;
        match self.tours.pop() {
            Some(mut tour) => {
                ajouter(&mut tour.reponse, text.as_str());
                self.tours.push(tour);
                assert(self.tours@.drop_last() == avant.drop_last());
            },
            None => {},
        }
    }

    fn clore_le_dernier_tour(&mut self, result: Result<Mesure, String>)
        requires
            old(self).tours@.len() > 0,
        ensures
            *final(self) == (Atelier { tours: final(self).tours, ..*old(self) }),
            final(self).tours@.drop_last() == old(self).tours@.drop_last(),
            final(self).tours@.len() == old(self).tours@.len(),
            final(self).tours@.last() == match result {
                Ok(m) => Tour { reponse: m.texte, mesure: Some(m), ..old(self).tours@.last() },
                Err(e) => Tour { erreur: Some(e), ..old(self).tours@.last() },
            },
    {
        let ghost avant = self.tours@;
        match self.tours.pop() {
            Some(mut tour) => {
                match result {
                    Ok(completion) => {
                        tour.reponse = completion.texte.clone();
                        tour.mesure = Some(completion);
                    },
                    Err(error) => {
                        tour.erreur = Some(error);
                    },
                }
                self.tours.push(tour);
                assert(self.tours@.drop_last() == avant.drop_last());
            },
            None => {},
        }
    }

    /// Prend une réponse du travail en arrière-plan. Les fragments et la fin d'une génération
    /// qui n'est plus la courante sont ignorés.
    #[verifier::spinoff_prover]
    #[verifier::rlimit(40)]
    pub fn recevoir(&mut self, ev: Evenement)
        ensures
            match ev {
                Evenement::Modeles(Ok(m)) => {
                    &&& *final(self) == (Atelier {
                        decouverte: false,
                        modeles: m,
                        erreur: None,
                        choisi: final(self).choisi,
                        ..*old(self)
                    })
                    &&& final(self).choisi@ == choix_du_modele(vues(m@), old(self).choisi@)
                },
                Evenement::Modeles(Err(e)) => {
                    &&& *final(self) == (Atelier {
                        decouverte: false,
                        modeles: final(self).modeles,
                        choisi: final(self).choisi,
                        erreur: Some(e),
                        ..*old(self)
                    })
                    &&& final(self).modeles@.len() == 0
                    &&& final(self).choisi@.len() == 0
                },
                Evenement::Clients(c) => *final(self) == (Atelier { clients: c, ..*old(self) }),
                Evenement::Poids(s) => *final(self) == (Atelier {
                    servi: s,
                    poids_lus: true,
                    ..*old(self)
                }),
                Evenement::Catalogue(lu) => {
                    let relire = poses_du(Some(lu)) != poses_du(old(self).catalogue)
                        && old(self).poids_lus;
                    let nouveau = nouveau_parmi(servis_du(old(self).catalogue), servis_du(Some(lu)));
                    *final(self) == (Atelier {
                        catalogue: Some(lu),
                        lecture_du_catalogue: false,
                        lecture_des_poids: if relire {
                            false
                        } else {
                            old(self).lecture_des_poids
                        },
                        poids_lus: if relire {
                            false
                        } else {
                            old(self).poids_lus
                        },
                        redecouvrir: old(self).redecouvrir || nouveau,
                        ..*old(self)
                    })
                },
                Evenement::ErreurDePoids(e) => *final(self) == (Atelier {
                    erreur_de_poids: Some(e),
                    ..*old(self)
                }),
                Evenement::Fragment(id, t) => if id == old(self).numero && old(self).tours@.len()
                    > 0 {
                    &&& *final(self) == (Atelier { tours: final(self).tours, ..*old(self) })
                    &&& final(self).tours@.drop_last() == old(self).tours@.drop_last()
                    &&& final(self).tours@.len() == old(self).tours@.len()
                    &&& final(self).tours@.last() == (Tour {
                        reponse: final(self).tours@.last().reponse,
                        ..old(self).tours@.last()
                    })
                    &&& final(self).tours@.last().reponse@ == old(self).tours@.last().reponse@
                        + t@
                } else {
                    *final(self) == *old(self)
                },
                Evenement::Fin(id, r) => if id == old(self).numero {
                    &&& *final(self) == (Atelier {
                        generation: false,
                        tours: final(self).tours,
                        ..*old(self)
                    })
                    &&& old(self).tours@.len() == 0 ==> final(self).tours@ == old(self).tours@
                    &&& old(self).tours@.len() > 0 ==> {
                        &&& final(self).tours@.drop_last() == old(self).tours@.drop_last()
                        &&& final(self).tours@.len() == old(self).tours@.len()
                        &&& final(self).tours@.last() == match r {
                            Ok(m) => Tour {
                                reponse: m.texte,
                                mesure: Some(m),
                                ..old(self).tours@.last()
                            },
                            Err(e) => Tour { erreur: Some(e), ..old(self).tours@.last() },
                        }
                    }
                } else {
                    *final(self) == *old(self)
                },
            },
    {
        match ev {
            Evenement::Modeles(Ok(models)) => {
                self.decouverte = false;
                if !contient_texte(&models, self.choisi.as_str()) {
                    if models.len() > 0 {
                        self.choisi = models[0].clone();
                    } else {
                        self.choisi = String::new();
                    }
                }
                self.modeles = models;
                self.erreur = None;
            },
            Evenement::Modeles(Err(error)) => {
                self.decouverte = false;
                self.modeles = Vec::new();
                self.choisi = String::new();
                self.erreur = Some(error);
            },
            Evenement::Clients(cards) => {
                self.clients = cards;
            },
            Evenement::Poids(servi) => {
                self.servi = servi;
                self.poids_lus = true;
            },
            Evenement::Catalogue(lu) => {
                self.recevoir_le_catalogue(lu);
            },
            Evenement::ErreurDePoids(erreur) => {
                self.erreur_de_poids = Some(erreur);
            },
            Evenement::Fragment(id, text) => {
                if id == self.numero && self.tours.len() > 0 {
                    self.completer_le_dernier_tour(text);
                }
            },
            Evenement::Fin(id, result) => {
                if id == self.numero {
                    self.generation = false;
                    if self.tours.len() > 0 {
                        self.clore_le_dernier_tour(result);
                    }
                }
            },
        }
    }
}

/// Le message qui demande de choisir un modèle avant d'envoyer.
pub open spec fn message_modele_absent() -> Seq<char> {
    "Choisissez un modèle disponible avant d'envoyer."@
}

/// Le message d'une conversation qui atteint sa limite.
pub open spec fn message_limite() -> Seq<char> {
    "Cette conversation atteint sa limite. Ouvrez une nouvelle conversation ou raccourcissez la demande."@
}

impl Atelier {
    /// Prépare l'envoi de la demande avec les seuls tours antérieurs terminés correctement.
    ///
    /// Rien ne part pendant une génération, dans une démonstration ou pour une demande vide ;
    /// un modèle absent de la liste ou une conversation trop longue laisse une erreur. Sinon le
    /// tour est ouvert, la page passe à la conversation, et l'envoi dit quoi transmettre.
    pub fn envoyer(&mut self) -> (r: Option<Envoi>)
        ensures
            old(self).generation || old(self).demonstration || sans_blancs(
                old(self).brouillon@,
            ).len() == 0 ==> r is None && *final(self) == *old(self),
            !(old(self).generation || old(self).demonstration || sans_blancs(
                old(self).brouillon@,
            ).len() == 0) ==> {
                if !vues(old(self).modeles@).contains(old(self).choisi@) {
                    &&& r is None
                    &&& *final(self) == (Atelier { erreur: final(self).erreur, ..*old(self) })
                    &&& final(self).erreur matches Some(e) && e@ == message_modele_absent()
                } else if conversation_trop_longue(old(self).brouillon@, old(self).tours@) {
                    &&& r is None
                    &&& *final(self) == (Atelier { erreur: final(self).erreur, ..*old(self) })
                    &&& final(self).erreur matches Some(e) && e@ == message_limite()
                } else {
                    &&& r matches Some(envoi) && {
                        &&& envoi.id == numero_suivant(old(self).numero)
                        &&& envoi.modele@ == old(self).choisi@
                        &&& envoi_conforme(
                            envoi.historique@,
                            envoi.omis as int,
                            finis(old(self).tours@),
                            old(self).brouillon@,
                        )
                    }
                    &&& *final(self) == (Atelier {
                        brouillon: final(self).brouillon,
                        tours: final(self).tours,
                        numero: numero_suivant(old(self).numero),
                        generation: true,
                        erreur: None,
                        page: Page::Conversation,
                        ..*old(self)
                    })
                    &&& final(self).brouillon@.len() == 0
                    &&& final(self).tours@.drop_last() == old(self).tours@
                    &&& final(self).tours@.len() == old(self).tours@.len() + 1
                    &&& final(self).tours@.last().demande@ == old(self).brouillon@
                    &&& final(self).tours@.last().modele@ == old(self).choisi@
                    &&& final(self).tours@.last().reponse@.len() == 0
                    &&& final(self).tours@.last().mesure is None
                    &&& final(self).tours@.last().erreur is None
                }
            },
    {
        if self.generation || self.demonstration {
            return None;
        }
        let v = caracteres(self.brouillon.as_str());
        let t = rogner(&v);
        if t.len() == 0 {
            return None;
        }
        if !contient_texte(&self.modeles, self.choisi.as_str()) {
            self.erreur = Some("Choisissez un modèle disponible avant d'envoyer.".to_owned());
            return None;
        }
        let (historique, omis) = match self.historique() {
            Ok(envoi) => envoi,
            Err(error) => {
                self.erreur = Some(error);
                return None;
            },
        };
        self.numero = if self.numero == u64::MAX {
            0
        } else {
            self.numero + 1
        };
        let id = self.numero;
        let modele = self.choisi.clone();
        let demande = self.brouillon.clone();
        self.brouillon = String::new();
        self.tours.push(
            Tour {
                demande,
                modele: self.choisi.clone(),
                reponse: String::new(),
                mesure: None,
                erreur: None,
            },
        );
        self.generation = true;
        self.erreur = None;
        self.page = Page::Conversation;
        Some(Envoi { id, modele, historique, omis })
    }

    /// Ouvre une conversation vide. Aucune réponse tardive ne peut y être ajoutée : le numéro de
    /// génération change. Celui qui porte le contrôleur interrompt d'abord la génération en cours.
    pub fn nouvelle(&mut self)
        ensures
            *final(self) == (Atelier {
                numero: numero_suivant(old(self).numero),
                generation: false,
                tours: final(self).tours,
                brouillon: final(self).brouillon,
                erreur: None,
                page: Page::Accueil,
                ..*old(self)
            }),
            final(self).tours@.len() == 0,
            final(self).brouillon@.len() == 0,
    {
        self.numero = if self.numero == u64::MAX {
            0
        } else {
            self.numero + 1
        };
        self.generation = false;
        self.tours.clear();
        self.brouillon = String::new();
        self.erreur = None;
        self.page = Page::Accueil;
    }

    /// Lance la découverte des modèles, sauf si elle court déjà ou dans une démonstration ; rend
    /// vrai quand la requête est à faire.
    pub fn decouvrir(&mut self) -> (r: bool)
        ensures
            r == !(old(self).decouverte || old(self).demonstration),
            r ==> *final(self) == (Atelier { decouverte: true, erreur: None, ..*old(self) }),
            !r ==> *final(self) == *old(self),
    {
        if self.decouverte || self.demonstration {
            return false;
        }
        self.decouverte = true;
        self.erreur = None;
        true
    }

    /// Sonde une fois les clients officiels. Une démonstration reçoit des cartes d'exemple,
    /// jamais une vraie sonde ; rend vrai quand la sonde est à faire.
    pub fn sonder_les_clients(&mut self) -> (r: bool)
        ensures
            old(self).clients_sondes ==> !r && *final(self) == *old(self),
            !old(self).clients_sondes && old(self).demonstration ==> !r && *final(self) == (Atelier {
                clients_sondes: true,
                clients: final(self).clients,
                ..*old(self)
            }) && clients_d_exemple_conformes(final(self).clients@),
            !old(self).clients_sondes && !old(self).demonstration ==> r && *final(self) == (Atelier {
                clients_sondes: true,
                ..*old(self)
            }),
    {
        if self.clients_sondes {
            return false;
        }
        self.clients_sondes = true;
        if self.demonstration {
            self.clients = clients_d_exemple();
            return false;
        }
        true
    }

    /// Lit une fois les poids installés ; une démonstration ne lit rien. Rend vrai quand la
    /// lecture est à faire.
    pub fn lire_les_poids(&mut self) -> (r: bool)
        ensures
            old(self).lecture_des_poids ==> !r && *final(self) == *old(self),
            !old(self).lecture_des_poids && old(self).demonstration ==> !r && *final(self) == (
            Atelier { lecture_des_poids: true, poids_lus: true, ..*old(self) }),
            !old(self).lecture_des_poids && !old(self).demonstration ==> r && *final(self) == (
            Atelier { lecture_des_poids: true, ..*old(self) }),
    {
        if self.lecture_des_poids {
            return false;
        }
        self.lecture_des_poids = true;
        if self.demonstration {
            self.poids_lus = true;
            return false;
        }
        true
    }

    /// Un poids vient d'être servi : rend vrai une seule fois, pour relire la liste des modèles.
    pub fn a_redecouvrir(&mut self) -> (r: bool)
        ensures
            r == old(self).redecouvrir,
            *final(self) == (Atelier { redecouvrir: false, ..*old(self) }),
    {
        let r = self.redecouvrir;
        self.redecouvrir = false;
        r
    }

    /// Le délai entre deux relectures du catalogue : une demi-seconde pendant un téléchargement,
    /// cinq secondes au repos.
    pub fn delai_de_relecture(&self) -> (d: u64)
        ensures
            d == if telechargement_dans(self.catalogue) {
                RELECTURE_DU_CATALOGUE_MS
            } else {
                RELECTURE_AU_REPOS_MS
            },
    {
        match &self.catalogue {
            Some(Ok(e)) => {
                for i in 0..e.len()
                    invariant
                        self.catalogue matches Some(Ok(c)) && c@ == e@,
                        forall|k: int| 0 <= k < i ==> !telechargement_en_cours(#[trigger] e@[k]),
                {
                    if e[i].en_cours() {
                        assert(telechargement_en_cours(e@[i as int]));
                        return RELECTURE_DU_CATALOGUE_MS;
                    }
                }
                RELECTURE_AU_REPOS_MS
            },
            _ => RELECTURE_AU_REPOS_MS,
        }
    }

    /// Relit le catalogue quand la dernière lecture, vieille de `ecoule_ms` (aucune s'il n'y en
    /// a pas eu), dépasse le délai et qu'aucune ne court. Une démonstration reçoit le catalogue
    /// d'exemple.
    pub fn relire_le_catalogue(&mut self, ecoule_ms: Option<u64>) -> (r: Relecture)
        ensures
            ({
                let due = match ecoule_ms {
                    None => true,
                    Some(e) => e >= if telechargement_dans(old(self).catalogue) {
                        RELECTURE_DU_CATALOGUE_MS
                    } else {
                        RELECTURE_AU_REPOS_MS
                    },
                };
                &&& old(self).lecture_du_catalogue || !due ==> r == Relecture::Aucune
                    && *final(self) == *old(self)
                &&& !old(self).lecture_du_catalogue && due && old(self).demonstration ==> r
                    == Relecture::Exemple && *final(self) == (Atelier {
                    catalogue: final(self).catalogue,
                    ..*old(self)
                }) && (final(self).catalogue matches Some(Ok(e)) && catalogue_d_exemple_conforme(
                    e@,
                ))
                &&& !old(self).lecture_du_catalogue && due && !old(self).demonstration ==> r
                    == Relecture::Demandee && *final(self) == (Atelier {
                    lecture_du_catalogue: true,
                    ..*old(self)
                })
            }),
    {
        let delai = self.delai_de_relecture();
        let due = match ecoule_ms {
            None => true,
            Some(e) => e >= delai,
        };
        if self.lecture_du_catalogue || !due {
            return Relecture::Aucune;
        }
        if self.demonstration {
            self.catalogue = Some(Ok(catalogue_d_exemple()));
            return Relecture::Exemple;
        }
        self.lecture_du_catalogue = true;
        Relecture::Demandee
    }

    /// Prépare une commande sur le poids `id` : efface le dernier refus et, hors démonstration,
    /// marque une lecture du catalogue en cours. Rend, quand la commande est à envoyer, ce que le
    /// routeur disait de ce poids avant elle.
    pub fn commander_un_poids(&mut self, id: &str) -> (r: Option<Option<AuMoteur>>)
        ensures
            old(self).demonstration ==> r is None && *final(self) == (Atelier {
                erreur_de_poids: None,
                ..*old(self)
            }),
            !old(self).demonstration ==> *final(self) == (Atelier {
                erreur_de_poids: None,
                lecture_du_catalogue: true,
                ..*old(self)
            }) && r == Some(
                match old(self).catalogue {
                    Some(Ok(e)) => au_moteur_de(e@, id@),
                    _ => None,
                },
            ),
    {
        self.erreur_de_poids = None;
        if self.demonstration {
            return None;
        }
        self.lecture_du_catalogue = true;
        let avant = match &self.catalogue {
            Some(Ok(entrees)) => {
                let mut trouve: Option<AuMoteur> = None;
                let mut fini = false;
                let mut i: usize = 0;
                assert(entrees@.skip(0) == entrees@);
                while !fini && i < entrees.len()
                    invariant
                        i <= entrees@.len(),
                        fini ==> trouve == au_moteur_de(entrees@, id@),
                        !fini ==> trouve is None,
                        !fini ==> au_moteur_de(entrees@, id@) == au_moteur_de(
                            entrees@.skip(i as int),
                            id@,
                        ),
                    decreases entrees@.len() - i + (if fini {
                        0int
                    } else {
                        1int
                    }),
                {
                    assert(entrees@.skip(i as int).drop_first() == entrees@.skip(i + 1));
                    assert(entrees@.skip(i as int)[0] == entrees@[i as int]);
                    if egal(entrees[i].id.as_str(), id) {
                        trouve = copie_au_moteur(&entrees[i].au_moteur);
                        fini = true;
                    } else {
                        i = i + 1;
                    }
                }
                proof {
                    if !fini {
                        assert(entrees@.skip(i as int).len() == 0);
                    }
                }
                trouve
            },
            _ => None,
        };
        Some(avant)
    }
}

/// Le refus d'une commande sur un poids, tel que la page le dit : l'identifiant, puis le motif.
pub fn refus_de_commande(id: &str, erreur: &str) -> (r: String)
    ensures
        r@ == id@ + " : "@ + erreur@,
{
    let mut r = id.to_owned();
    ajouter(&mut r, " : ");
    ajouter(&mut r, erreur);
    r
}

/// Les cartes d'exemple d'une démonstration : un client connecté, un qui demande une
/// connexion, un absent.
pub open spec fn clients_d_exemple_conformes(c: Seq<ClientCard>) -> bool {
    &&& c.len() == 3
    &&& c[0].driver@ == "anthropic"@ && c[0].present && c[0].connected
    &&& c[0].version matches Some(v) && v@ == "exemple"@
    &&& c[0].connection@ == "connecté"@
    &&& c[1].driver@ == "codex"@ && c[1].present && !c[1].connected
    &&& c[1].version matches Some(v) && v@ == "exemple"@
    &&& c[1].connection@ == "connexion requise"@
    &&& c[2].driver@ == "gemini"@ && !c[2].present && !c[2].connected
    &&& c[2].version is None
    &&& c[2].connection@ == "client absent"@
}

/// Les cartes d'exemple d'une démonstration.
pub fn clients_d_exemple() -> (c: Vec<ClientCard>)
    ensures
        clients_d_exemple_conformes(c@),
{
    vec![
        ClientCard {
            driver: "anthropic".to_owned(),
            present: true,
            version: Some("exemple".to_owned()),
            connection: "connecté".to_owned(),
            connected: true,
        },
        ClientCard {
            driver: "codex".to_owned(),
            present: true,
            version: Some("exemple".to_owned()),
            connection: "connexion requise".to_owned(),
            connected: false,
        },
        ClientCard {
            driver: "gemini".to_owned(),
            present: false,
            version: None,
            connection: "client absent".to_owned(),
            connected: false,
        },
    ]
}

/// Le catalogue d'exemple d'une démonstration : un poids posé et servi, un autre en cours de
/// téléchargement, un troisième absent.
pub open spec fn catalogue_d_exemple_conforme(e: Seq<EntreeCatalogue>) -> bool {
    &&& e.len() == 3
    &&& e[0].id@ == "qwen3-1.7b-q8"@ && e[0].name@ == "Qwen3 1.7B"@
    &&& e[0].bytes == Some(1834426016u64) && e[0].installed && e[0].pull is None
    &&& e[0].au_moteur matches Some(m) && m.nom@ == "qwen3-1.7b"@ && (m.etat matches Some(s)
        && s@ == "loaded"@)
    &&& e[1].id@ == "qwen3-0.6b-q8"@ && e[1].name@ == "Qwen3 0.6B"@ && !e[1].installed
    &&& e[1].pull matches Some(p) && p.state@ == "running"@ && p.received == 397000000
        && p.total == Some(640000000u64) && p.error is None
    &&& e[1].au_moteur is None
    &&& e[2].id@ == "qwen3-8b-q4"@ && e[2].name@ == "Qwen3 8B"@ && !e[2].installed
    &&& e[2].bytes == Some(5027783488u64) && e[2].pull is None && e[2].au_moteur is None
}

fn entree_vide(id: &str, name: &str, quantization: &str, note: &str) -> (e: EntreeCatalogue)
    ensures
        e.id@ == id@,
        e.name@ == name@,
        e.quantization matches Some(q) && q@ == quantization@,
        e.note matches Some(n) && n@ == note@,
        e.bytes is None,
        !e.installed,
        e.path is None,
        e.provided is None,
        e.partial_bytes is None,
        e.pull is None,
        e.au_moteur is None,
{
    EntreeCatalogue {
        id: id.to_owned(),
        name: name.to_owned(),
        quantization: Some(quantization.to_owned()),
        note: Some(note.to_owned()),
        bytes: None,
        installed: false,
        path: None,
        provided: None,
        partial_bytes: None,
        pull: None,
        au_moteur: None,
    }
}

/// Un catalogue d'exemple pour les scènes de démonstration : rien n'y est lu.
pub fn catalogue_d_exemple() -> (e: Vec<EntreeCatalogue>)
    ensures
        catalogue_d_exemple_conforme(e@),
{
    let mut premier = entree_vide(
        "qwen3-1.7b-q8",
        "Qwen3 1.7B",
        "Q8_0",
        "Le modèle de réflexion par défaut.",
    );
    premier.bytes = Some(1834426016);
    premier.installed = true;
    premier.au_moteur = Some(
        AuMoteur { nom: "qwen3-1.7b".to_owned(), etat: Some("loaded".to_owned()) },
    );
    let mut second = entree_vide(
        "qwen3-0.6b-q8",
        "Qwen3 0.6B",
        "Q8_0",
        "Le modèle d'exécution du relais.",
    );
    second.pull = Some(
        SuiviDePoids {
            state: "running".to_owned(),
            received: 397000000,
            total: Some(640000000),
            error: None,
        },
    );
    let mut troisieme = entree_vide(
        "qwen3-8b-q4",
        "Qwen3 8B",
        "Q4_K_M",
        "Plus de raisonnement ; demande presque toute la mémoire libre.",
    );
    troisieme.bytes = Some(5027783488);
    vec![premier, second, troisieme]
}

/// Une réponse tardive ne contamine pas la nouvelle conversation : le numéro de génération
/// change à chaque nouvelle conversation, et un fragment ou une fin d'un autre numéro est ignoré.
pub proof fn loi_une_reponse_tardive_est_ignoree(avant: u64, id: u64)
    requires
        id == avant,
    ensures
        id != numero_suivant(avant),
{
}

/// D'où vient un poids posé sur la machine.
#[derive(Debug, Clone, Copy, PartialEq, Eq, Structural)]
pub enum Origine {
    /// Téléchargé et vérifié.
    Telecharge,
    /// Fourni par la configuration du système.
    Fourni,
}

/// Ce que le routeur du moteur fait d'un poids posé.
#[derive(Debug, Clone, PartialEq, Eq)]
pub enum AuMoteurMontre {
    /// Il le sert, sous ce nom.
    Servi(String),
    /// Il le charge, sous ce nom.
    Chargement(String),
    /// Rien à en dire.
    Rien,
}

/// Ce que la page Modèles dit d'une entrée du catalogue, dans l'ordre où elle le décide.
#[derive(Debug, Clone, PartialEq, Eq)]
pub enum EtatDuPoids {
    /// Un téléchargement court : octets reçus, et taille totale si elle est connue.
    EnCours {
        /// Octets reçus.
        recus: u64,
        /// Taille totale.
        total: Option<u64>,
    },
    /// Le poids est sur la machine.
    Pose {
        /// D'où il vient.
        origine: Origine,
        /// Ce que le moteur en fait.
        au_moteur: AuMoteurMontre,
    },
    /// Le dernier téléchargement a échoué, pour ce motif.
    Echec(String),
    /// Un téléchargement interrompu reprendra de ces octets.
    Interrompu(u64),
    /// La machine n'a pas la mémoire pour le servir.
    TropGrand,
    /// Il peut être téléchargé.
    Disponible,
}

/// L'état du routeur pour un poids en cours de chargement.
pub open spec fn etat_chargement() -> Seq<char> {
    "loading"@
}

/// L'état d'un téléchargement échoué.
pub open spec fn etat_echec() -> Seq<char> {
    "failed"@
}

/// Ce que le moteur fait d'un poids posé, tel que la page le montre.
pub open spec fn au_moteur_montre(m: Option<AuMoteur>) -> Option<(bool, Seq<char>)> {
    match m {
        Some(m) => if est_charge(m) {
            Some((true, m.nom@))
        } else if m.etat matches Some(e) && e@ == etat_chargement() {
            Some((false, m.nom@))
        } else {
            None
        },
        None => None,
    }
}

/// Ce que la page dit d'une entrée : un téléchargement en cours d'abord ; puis un poids posé ou
/// fourni, avec ce que le moteur en fait ; puis l'échec du dernier téléchargement ; puis une
/// reprise possible, un poids trop grand pour la machine (`trop_grand`, selon l'estimation de la
/// mémoire), ou un poids disponible.
pub open spec fn etat_du_poids_conforme(r: EtatDuPoids, e: EntreeCatalogue, trop_grand: bool) -> bool {
    if telechargement_en_cours(e) {
        r == EtatDuPoids::EnCours { recus: e.pull->0.received, total: e.pull->0.total }
    } else if e.installed || e.provided is Some {
        r matches EtatDuPoids::Pose { origine, au_moteur } && origine == (if e.installed {
            Origine::Telecharge
        } else {
            Origine::Fourni
        }) && match (au_moteur, au_moteur_montre(e.au_moteur)) {
            (AuMoteurMontre::Servi(n), Some((true, m))) => n@ == m,
            (AuMoteurMontre::Chargement(n), Some((false, m))) => n@ == m,
            (AuMoteurMontre::Rien, None) => true,
            _ => false,
        }
    } else if e.pull matches Some(p) && p.state@ == etat_echec() && p.error is Some {
        r == EtatDuPoids::Echec(e.pull->0.error->0)
    } else if e.partial_bytes is Some {
        r == EtatDuPoids::Interrompu(e.partial_bytes->0)
    } else if trop_grand {
        r == EtatDuPoids::TropGrand
    } else {
        r == EtatDuPoids::Disponible
    }
}

impl EntreeCatalogue {
    /// Ce que la page Modèles dit de cette entrée ; `trop_grand` dit si l'estimation de la
    /// mémoire la juge trop grande pour cette machine.
    pub fn etat(&self, trop_grand: bool) -> (r: EtatDuPoids)
        ensures
            etat_du_poids_conforme(r, *self, trop_grand),
    {
        if self.en_cours() {
            match &self.pull {
                Some(p) => {
                    return EtatDuPoids::EnCours { recus: p.received, total: p.total };
                },
                None => {
                    return EtatDuPoids::Disponible;
                },
            }
        }
        if self.installed || self.provided.is_some() {
            let origine = if self.installed {
                Origine::Telecharge
            } else {
                Origine::Fourni
            };
            let au_moteur = match &self.au_moteur {
                Some(m) => if m.charge() {
                    AuMoteurMontre::Servi(m.nom.clone())
                } else {
                    let chargement = match &m.etat {
                        Some(e) => {
                            proof {
                                reveal_strlit("loading");
                            }
                            egal(e.as_str(), "loading")
                        },
                        None => false,
                    };
                    if chargement {
                        AuMoteurMontre::Chargement(m.nom.clone())
                    } else {
                        AuMoteurMontre::Rien
                    }
                },
                None => AuMoteurMontre::Rien,
            };
            return EtatDuPoids::Pose { origine, au_moteur };
        }
        match &self.pull {
            Some(p) => {
                proof {
                    reveal_strlit("failed");
                }
                if egal(p.state.as_str(), "failed") {
                    match &p.error {
                        Some(erreur) => {
                            return EtatDuPoids::Echec(erreur.clone());
                        },
                        None => {},
                    }
                }
            },
            None => {},
        }
        match self.partial_bytes {
            Some(n) => EtatDuPoids::Interrompu(n),
            None => if trop_grand {
                EtatDuPoids::TropGrand
            } else {
                EtatDuPoids::Disponible
            },
        }
    }
}

} // verus!
