//! Brouillon de mission, catalogue du service et confirmation du plan.
//!
//! La préparation est séparée du dialogue : aucun modèle ne décide du profil ou des droits. Le
//! contrôleur ne fait aucune requête lui-même ; il dit quelle lecture ou quelle préparation
//! envoyer, et prend chaque réponse. Une erreur ne provoque jamais une seconde création : la
//! tentative envoyée reste la seule, et seul son plan peut être retrouvé.

use vstd::prelude::*;
use crate::mission_details::Relance;
use crate::texte::{ajouter, caracteres, contient_texte, egal, rogner, sans_blancs, texte_de, vues};

verus! {

/// Un contexte de travail du catalogue : ses modèles permis.
#[derive(Debug, Clone, PartialEq, Eq)]
pub struct ProfileView {
    /// Identifiant.
    pub id: String,
    /// Nom pour l'humain.
    pub name: String,
    /// Ce qu'il permet.
    pub description: String,
    /// Les modèles qu'il accepte, dans l'ordre du catalogue.
    pub models: Vec<String>,
}

/// Le catalogue du service (`task.options`).
#[derive(Debug, Clone, PartialEq, Eq)]
pub struct Options {
    /// Les contextes de travail.
    pub profiles: Vec<ProfileView>,
    /// Ce que le moteur a répondu de travers en listant ses modèles.
    pub model_error: Option<String>,
}

/// Une demande de préparation, avec sa référence.
#[derive(Debug, PartialEq, Eq)]
pub struct Request {
    /// Référence de la mission, qui permet de retrouver une réponse incertaine.
    pub id: String,
    /// L'objectif, sans blancs autour.
    pub intent: String,
    /// Le contexte de travail.
    pub profile: String,
    /// Le modèle.
    pub model: String,
}

/// Le plan que le service a préparé.
#[derive(Debug, Clone, PartialEq, Eq)]
pub struct Plan {
    /// La mission à laquelle il se rapporte.
    pub task: String,
    /// L'objectif qu'il sert.
    pub intent: String,
    /// La référence du modèle choisi (`local:…`).
    pub reference: String,
    /// Le niveau d'isolation prévu.
    pub sandbox_level: u8,
}

/// Contrôleur de la préparation.
pub struct Preparation {
    /// Une connexion au service est configurée.
    pub connecte: bool,
    /// Objectif conservé pendant la navigation.
    pub intent: String,
    /// Profil choisi dans le catalogue reçu.
    pub profile: String,
    /// Identifiant du modèle choisi.
    pub model: String,
    /// Le catalogue reçu.
    pub options: Option<Options>,
    /// Une découverte du catalogue est en vol.
    pub loading: bool,
    /// Une préparation ou une récupération est en vol.
    pub pending: bool,
    /// La tentative envoyée, conservée même après un délai dépassé.
    pub attempt: Option<Request>,
    /// Le plan confirmé, à transmettre une seule fois à l'inspecteur.
    pub prepared: Option<Plan>,
    /// La dernière erreur visible.
    pub error: Option<String>,
}

/// La place du premier profil de cet identifiant.
pub open spec fn place_du_profil(p: Seq<ProfileView>, id: Seq<char>) -> Option<int>
    decreases p.len(),
{
    if p.len() == 0 {
        None
    } else if p[0].id@ == id {
        Some(0)
    } else {
        match place_du_profil(p.drop_first(), id) {
            Some(k) => Some(k + 1),
            None => None,
        }
    }
}

proof fn lemme_place_du_profil(p: Seq<ProfileView>, id: Seq<char>)
    ensures
        place_du_profil(p, id) matches Some(k) ==> 0 <= k < p.len() && p[k].id@ == id && forall|
            j: int,
        | 0 <= j < k ==> p[j].id@ != id,
        place_du_profil(p, id) is None ==> forall|j: int| 0 <= j < p.len() ==> p[j].id@ != id,
    decreases p.len(),
{
    if p.len() > 0 {
        lemme_place_du_profil(p.drop_first(), id);
        if p[0].id@ != id {
            assert forall|j: int| 1 <= j < p.len() implies p[j] == p.drop_first()[j - 1] by {}
        }
    }
}

/// Le profil retenu : le choix courant s'il est au catalogue, sinon le premier, sinon aucun.
pub open spec fn profil_retenu(p: Seq<ProfileView>, profil: Seq<char>) -> Seq<char> {
    if place_du_profil(p, profil) is Some {
        profil
    } else if p.len() > 0 {
        p[0].id@
    } else {
        Seq::empty()
    }
}

/// Le modèle retenu pour ce profil : le choix courant s'il le permet, sinon son premier modèle,
/// sinon aucun ; un profil absent du catalogue laisse le choix tel quel.
pub open spec fn modele_retenu(p: Seq<ProfileView>, profil: Seq<char>, modele: Seq<char>) -> Seq<
    char,
> {
    match place_du_profil(p, profil) {
        Some(k) => if vues(p[k].models@).contains(modele) {
            modele
        } else if p[k].models@.len() > 0 {
            p[k].models@[0]@
        } else {
            Seq::empty()
        },
        None => modele,
    }
}

/// Une référence ULID : vingt-six caractères de l'alphabet de Crockford.
pub open spec fn est_ulid(s: Seq<char>) -> bool {
    &&& s.len() == 26
    &&& forall|i: int|
        0 <= i < s.len() ==> "0123456789ABCDEFGHJKMNPQRSTVWXYZ"@.contains(#[trigger] s[i])
}

/// Une référence neuve, par `ulid::Ulid::new` écrit en texte : vingt-six caractères de
/// l'alphabet de Crockford. Sa valeur dépend de l'horloge et du hasard ; rien d'autre n'en est
/// dit.
#[verifier::external_body]
fn reference_neuve() -> (r: String)
    ensures
        est_ulid(r@),
{
    ulid::Ulid::new().to_string()
}

fn place_exec(p: &Vec<ProfileView>, id: &str) -> (r: Option<usize>)
    ensures
        r matches Some(a) ==> a < p@.len(),
        match (r, place_du_profil(p@, id@)) {
            (Some(a), Some(b)) => a == b,
            (None, None) => true,
            _ => false,
        },
{
    proof {
        lemme_place_du_profil(p@, id@);
    }
    for i in 0..p.len()
        invariant
            forall|j: int| 0 <= j < i ==> p@[j].id@ != id@,
            place_du_profil(p@, id@) matches Some(k) ==> 0 <= k < p@.len() && p@[k].id@ == id@
                && forall|j: int| 0 <= j < k ==> p@[j].id@ != id@,
            place_du_profil(p@, id@) is None ==> forall|j: int|
                0 <= j < p@.len() ==> p@[j].id@ != id@,
    {
        if egal(p[i].id.as_str(), id) {
            return Some(i);
        }
    }
    None
}

fn copie(s: &Option<String>) -> (r: Option<String>)
    ensures
        r == *s,
{
    match s {
        Some(x) => Some(x.clone()),
        None => None,
    }
}

fn copie_de_la_demande(r: &Request) -> (c: Request)
    ensures
        c == *r,
{
    Request {
        id: r.id.clone(),
        intent: r.intent.clone(),
        profile: r.profile.clone(),
        model: r.model.clone(),
    }
}

/// Le plan retrouvé par l'inspection d'une tentative : celui de la même référence, s'il a été
/// conservé.
///
/// # Errors
/// Référence différente, ou aucun plan conservé.
pub fn plan_retrouve(attendu: &str, recu: &str, plan: Option<Plan>) -> (r: Result<Plan, String>)
    ensures
        recu@ != attendu@ ==> (r matches Err(e) && e@ == "Référence de mission incohérente."@),
        recu@ == attendu@ ==> match plan {
            Some(p) => r == Ok::<Plan, String>(p),
            None => r matches Err(e) && e@ == "Aucun plan conservé pour cette référence."@,
        },
{
    if !egal(recu, attendu) {
        return Err("Référence de mission incohérente.".to_owned());
    }
    match plan {
        Some(p) => Ok(p),
        None => Err("Aucun plan conservé pour cette référence.".to_owned()),
    }
}

/// Le plan confirme la tentative : même référence, même objectif, le modèle local demandé.
pub open spec fn plan_conforme(p: Plan, d: Request) -> bool {
    &&& p.task@ == d.id@
    &&& p.intent@ == d.intent@
    &&& p.reference@ == "local:"@ + d.model@
}

/// Ce qu'une réponse de préparation confirme : le plan, ou le motif du refus.
pub open spec fn plan_confirme(result: Result<Plan, String>, attempt: Option<Request>) -> Result<
    Plan,
    Seq<char>,
> {
    match result {
        Err(e) => Err(e@),
        Ok(p) => match attempt {
            None => Err("Préparation sans référence."@),
            Some(d) => if plan_conforme(p, d) {
                Ok(p)
            } else {
                Err("Le plan reçu ne correspond pas à votre demande."@)
            },
        },
    }
}

/// Ce que devient la préparation quand un brouillon distinct est ouvert : rien pendant une
/// requête en vol ; sinon l'objectif, la tentative, le plan et l'erreur s'effacent.
pub open spec fn reinitialisee(avant: Preparation, apres: Preparation) -> bool {
    if avant.pending {
        apres == avant
    } else {
        &&& apres == (Preparation {
            intent: apres.intent,
            attempt: None,
            prepared: None,
            error: None,
            ..avant
        })
        &&& apres.intent@.len() == 0
    }
}

/// Ce que devient la préparation quand le catalogue est redemandé, et si la lecture part : rien
/// pendant une découverte, une préparation ou après une tentative ; sans service, l'erreur le
/// dit ; sinon la lecture part.
pub open spec fn decouverte(avant: Preparation, apres: Preparation, part: bool) -> bool {
    if avant.loading || avant.pending || avant.attempt is Some {
        !part && apres == avant
    } else if !avant.connecte {
        &&& !part
        &&& apres == (Preparation { error: apres.error, ..avant })
        &&& apres.error matches Some(e)
            && e@ == "La préparation de missions n'est pas connectée à un service."@
    } else {
        part && apres == (Preparation { loading: true, error: None, ..avant })
    }
}

/// Une tentative confirmée, ni en erreur ni en vol, laisse place à un nouveau brouillon quand la
/// préparation se rouvre.
pub open spec fn tentative_close(p: Preparation) -> bool {
    p.attempt is Some && p.error is None && !p.pending
}

/// Ce que devient la préparation quand elle se rouvre : une tentative close laisse place à un
/// nouveau brouillon, puis le catalogue est redemandé.
pub open spec fn rouverte(avant: Preparation, apres: Preparation, part: bool) -> bool {
    exists|milieu: Preparation|
        {
            &&& (if tentative_close(avant) {
                reinitialisee(avant, milieu)
            } else {
                milieu == avant
            })
            &&& #[trigger] decouverte(milieu, apres, part)
        }
}

impl Preparation {
    /// Un contrôleur vide ; `connecte` dit si le service des missions est configuré.
    pub fn new(connecte: bool) -> (p: Preparation)
        ensures
            p.connecte == connecte,
            p.intent@.len() == 0 && p.profile@.len() == 0 && p.model@.len() == 0,
            p.options is None && !p.loading && !p.pending,
            p.attempt is None && p.prepared is None && p.error is None,
    {
        Preparation {
            connecte,
            intent: String::new(),
            profile: String::new(),
            model: String::new(),
            options: None,
            loading: false,
            pending: false,
            attempt: None,
            prepared: None,
            error: None,
        }
    }

    /// Recharge les profils et modèles auprès du service ; rend vrai quand la lecture est à
    /// lancer. Rien ne part pendant une découverte, une préparation, ou après une tentative.
    pub fn discover(&mut self) -> (r: bool)
        ensures
            decouverte(*old(self), *final(self), r),
    {
        if self.loading || self.pending || self.attempt.is_some() {
            return false;
        }
        if !self.connecte {
            self.error = Some(
                "La préparation de missions n'est pas connectée à un service.".to_owned(),
            );
            return false;
        }
        self.loading = true;
        self.error = None;
        true
    }

    /// Conserve un choix présent ; ne reprend pas un modèle d'un autre profil par accident, et ne
    /// touche à rien une fois une tentative envoyée.
    pub fn reconcile(&mut self)
        ensures
            old(self).attempt is Some || old(self).options is None ==> *final(self) == *old(self),
            old(self).attempt is None && old(self).options is Some ==> {
                let p = old(self).options->0.profiles@;
                let profil = profil_retenu(p, old(self).profile@);
                &&& *final(self) == (Preparation {
                    profile: final(self).profile,
                    model: final(self).model,
                    ..*old(self)
                })
                &&& final(self).profile@ == profil
                &&& final(self).model@ == modele_retenu(p, profil, old(self).model@)
            },
    {
        if self.attempt.is_some() {
            return;
        }
        let (profil, modele) = match &self.options {
            None => {
                return;
            },
            Some(options) => {
                let ps = &options.profiles;
                let profil = match place_exec(ps, self.profile.as_str()) {
                    Some(_) => self.profile.clone(),
                    None => if ps.len() > 0 {
                        ps[0].id.clone()
                    } else {
                        String::new()
                    },
                };
                let modele = match place_exec(ps, profil.as_str()) {
                    Some(k) => {
                        let models = &ps[k].models;
                        if contient_texte(models, self.model.as_str()) {
                            self.model.clone()
                        } else if models.len() > 0 {
                            models[0].clone()
                        } else {
                            String::new()
                        }
                    },
                    None => self.model.clone(),
                };
                (profil, modele)
            },
        };
        self.profile = profil;
        self.model = modele;
    }

    /// Prend le catalogue lu ; une panne l'efface et se dit.
    pub fn recevoir_options(&mut self, result: Result<Options, String>)
        ensures
            match result {
                Ok(o) => {
                    let p = o.profiles@;
                    let profil = profil_retenu(p, old(self).profile@);
                    &&& final(self).options == Some(o)
                    &&& !final(self).loading
                    &&& final(self).error is None
                    &&& old(self).attempt is None ==> final(self).profile@ == profil
                        && final(self).model@ == modele_retenu(p, profil, old(self).model@)
                    &&& old(self).attempt is Some ==> final(self).profile == old(self).profile
                        && final(self).model == old(self).model
                    &&& *final(self) == (Preparation {
                        options: Some(o),
                        loading: false,
                        error: None,
                        profile: final(self).profile,
                        model: final(self).model,
                        ..*old(self)
                    })
                },
                Err(e) => *final(self) == (Preparation {
                    options: None,
                    loading: false,
                    error: Some(e),
                    ..*old(self)
                }),
            },
    {
        self.loading = false;
        match result {
            Ok(options) => {
                self.options = Some(options);
                self.error = None;
                self.reconcile();
            },
            Err(error) => {
                self.options = None;
                self.error = Some(error);
            },
        }
    }

    /// Prend la réponse à une préparation ou à une récupération. Seul un plan conforme à la
    /// tentative est retenu ; une erreur se dit, et la tentative reste la même.
    pub fn recevoir_plan(&mut self, result: Result<Plan, String>)
        ensures
            match plan_confirme(result, old(self).attempt) {
                Ok(p) => *final(self) == (Preparation {
                    pending: false,
                    prepared: Some(p),
                    error: None,
                    ..*old(self)
                }),
                Err(e) => {
                    &&& *final(self) == (Preparation {
                        pending: false,
                        error: final(self).error,
                        ..*old(self)
                    })
                    &&& final(self).error matches Some(m) && m@ == "Préparation non confirmée : "@
                        + e
                },
            },
    {
        self.pending = false;
        let confirme: Result<Plan, String> = match result {
            Err(e) => Err(e),
            Ok(plan) => match &self.attempt {
                None => Err("Préparation sans référence.".to_owned()),
                Some(d) => {
                    let mut attendue = "local:".to_owned();
                    ajouter(&mut attendue, d.model.as_str());
                    if egal(plan.task.as_str(), d.id.as_str()) && egal(
                        plan.intent.as_str(),
                        d.intent.as_str(),
                    ) && egal(plan.reference.as_str(), attendue.as_str()) {
                        Ok(plan)
                    } else {
                        Err("Le plan reçu ne correspond pas à votre demande.".to_owned())
                    }
                },
            },
        };
        match confirme {
            Ok(plan) => {
                self.prepared = Some(plan);
                self.error = None;
            },
            Err(error) => {
                let mut m = "Préparation non confirmée : ".to_owned();
                ajouter(&mut m, error.as_str());
                self.error = Some(m);
            },
        }
    }

    /// Profil actuel reçu du service.
    pub fn selected(&self) -> (r: Option<&ProfileView>)
        ensures
            match self.options {
                None => r is None,
                Some(o) => match (r, place_du_profil(o.profiles@, self.profile@)) {
                    (Some(p), Some(k)) => *p == o.profiles@[k],
                    (None, None) => true,
                    _ => false,
                },
            },
    {
        match &self.options {
            None => None,
            Some(o) => match place_exec(&o.profiles, self.profile.as_str()) {
                Some(k) => Some(&o.profiles[k]),
                None => None,
            },
        }
    }

    /// Catalogue reçu et diagnostic du moteur.
    pub fn options(&self) -> (r: Option<&Options>)
        ensures
            match (r, self.options) {
                (Some(a), Some(b)) => *a == b,
                (None, None) => true,
                _ => false,
            },
    {
        self.options.as_ref()
    }

    /// Dernière erreur visible.
    pub fn error(&self) -> (r: Option<&String>)
        ensures
            match (r, self.error) {
                (Some(a), Some(b)) => *a == b,
                (None, None) => true,
                _ => false,
            },
    {
        self.error.as_ref()
    }

    /// Signale un refus local de formulaire.
    pub fn report_error(&mut self, error: String)
        ensures
            *final(self) == (Preparation { error: Some(error), ..*old(self) }),
    {
        self.error = Some(error);
    }

    /// Découverte en cours.
    pub fn loading(&self) -> (r: bool)
        ensures
            r == self.loading,
    {
        self.loading
    }

    /// Création ou récupération en cours.
    pub fn pending(&self) -> (r: bool)
        ensures
            r == self.pending,
    {
        self.pending
    }

    /// Référence envoyée, conservée même après un délai dépassé.
    pub fn attempted_id(&self) -> (r: Option<&str>)
        ensures
            match (r, self.attempt) {
                (Some(a), Some(d)) => a@ == d.id@,
                (None, None) => true,
                _ => false,
            },
    {
        match &self.attempt {
            Some(d) => Some(d.id.as_str()),
            None => None,
        }
    }

    /// Le plan confirmé est transmis une seule fois à l'inspecteur.
    pub fn take_prepared(&mut self) -> (r: Option<Plan>)
        ensures
            r == old(self).prepared,
            *final(self) == (Preparation { prepared: None, ..*old(self) }),
    {
        let mut r: Option<Plan> = None;
        std::mem::swap(&mut r, &mut self.prepared);
        r
    }

    /// Ouvre un brouillon distinct par action explicite, sans abandonner une requête en vol.
    pub fn reset(&mut self)
        ensures
            reinitialisee(*old(self), *final(self)),
    {
        if self.pending {
            return;
        }
        self.intent = String::new();
        self.attempt = None;
        self.prepared = None;
        self.error = None;
    }

    /// Prépare sans lancer : rend la demande à envoyer (`task.prepare`), dont la référence ULID
    /// sert à retrouver une réponse incertaine.
    ///
    /// # Errors
    /// Tentative déjà envoyée ou en attente, service absent, contexte ou modèle non choisi.
    pub fn submit(&mut self) -> (r: Result<Request, String>)
        ensures
            old(self).pending || old(self).loading || old(self).attempt is Some ==> (r matches Err(e) && e@ == "Ce brouillon a déjà été envoyé ou attend une réponse."@) && *final(self)
                == *old(self),
            !(old(self).pending || old(self).loading || old(self).attempt is Some) ==> if !old(self).connecte {
                (r matches Err(e) && e@ == "Service de mission absent."@) && *final(self) == *old(self)
            } else {
                match old(self).options {
                    None => (r matches Err(e) && e@ == "Choisissez un contexte de travail."@)
                        && *final(self) == *old(self),
                    Some(o) => match place_du_profil(o.profiles@, old(self).profile@) {
                        None => (r matches Err(e) && e@ == "Choisissez un contexte de travail."@)
                            && *final(self) == *old(self),
                        Some(k) => if !vues(o.profiles@[k].models@).contains(old(self).model@) {
                            (r matches Err(e)
                                && e@ == "Choisissez un modèle disponible pour ce contexte."@)
                                && *final(self) == *old(self)
                        } else {
                            &&& r matches Ok(d) && {
                                &&& commence_par_mission(d.id@)
                                &&& d.intent@ == sans_blancs(old(self).intent@)
                                &&& d.profile@ == old(self).profile@
                                &&& d.model@ == old(self).model@
                                &&& final(self).attempt == Some(d)
                            }
                            &&& *final(self) == (Preparation {
                                attempt: final(self).attempt,
                                pending: true,
                                error: None,
                                ..*old(self)
                            })
                        },
                    },
                }
            },
    {
        if self.pending || self.loading || self.attempt.is_some() {
            return Err("Ce brouillon a déjà été envoyé ou attend une réponse.".to_owned());
        }
        if !self.connecte {
            return Err("Service de mission absent.".to_owned());
        }
        let permis = match &self.options {
            None => {
                return Err("Choisissez un contexte de travail.".to_owned());
            },
            Some(o) => match place_exec(&o.profiles, self.profile.as_str()) {
                None => {
                    return Err("Choisissez un contexte de travail.".to_owned());
                },
                Some(k) => contient_texte(&o.profiles[k].models, self.model.as_str()),
            },
        };
        if !permis {
            return Err("Choisissez un modèle disponible pour ce contexte.".to_owned());
        }
        let mut id = "mission-".to_owned();
        let reference = reference_neuve();
        ajouter(&mut id, reference.as_str());
        proof {
            reveal_strlit("mission-");
            assert(id@.take(8) =~= "mission-"@);
            assert(id@.skip(8) =~= reference@);
        }
        let v = caracteres(self.intent.as_str());
        let t = rogner(&v);
        let request = Request {
            id,
            intent: texte_de(&t),
            profile: self.profile.clone(),
            model: self.model.clone(),
        };
        self.attempt = Some(copie_de_la_demande(&request));
        self.pending = true;
        self.error = None;
        Ok(request)
    }

    /// Recherche uniquement le plan de la tentative, jamais une seconde préparation : rend la
    /// référence à inspecter (`task.inspect`), quand il y a une tentative, un service, et rien en
    /// vol.
    pub fn recover(&mut self) -> (r: Option<String>)
        ensures
            (!old(self).pending && old(self).connecte && old(self).attempt is Some) ==> (r matches Some(id) && id@ == old(self).attempt->0.id@) && *final(self) == (Preparation {
                pending: true,
                error: None,
                ..*old(self)
            }),
            !(!old(self).pending && old(self).connecte && old(self).attempt is Some) ==> r is None
                && *final(self) == *old(self),
    {
        if self.pending || !self.connecte {
            return None;
        }
        let id = match &self.attempt {
            None => {
                return None;
            },
            Some(d) => d.id.clone(),
        };
        self.pending = true;
        self.error = None;
        Some(id)
    }
}

/// Une référence de mission : `mission-` suivi d'une référence ULID.
pub open spec fn commence_par_mission(id: Seq<char>) -> bool {
    &&& id.len() == 34
    &&& id.take(8) == "mission-"@
    &&& est_ulid(id.skip(8))
}

impl Preparation {
    /// Rouvre la préparation : une tentative confirmée laisse place à un nouveau brouillon, puis
    /// le catalogue est redemandé ; rend vrai quand sa lecture est à lancer.
    pub fn ouvrir(&mut self) -> (r: bool)
        ensures
            rouverte(*old(self), *final(self), r),
    {
        let ghost avant = *self;
        if self.attempt.is_some() && self.error.is_none() && !self.pending {
            self.reset();
        }
        let ghost milieu = *self;
        let r = self.discover();
        assert(decouverte(milieu, *self, r));
        r
    }

    /// Une mission échouée ou arrêtée repasse par la préparation : même intention, même modèle,
    /// et même profil s'il est connu, que le catalogue reçu confirmera ou corrigera. Une
    /// préparation déjà en vol est seulement montrée, sans être écrasée. Rend vrai quand la
    /// lecture du catalogue est à lancer.
    pub fn relancer(&mut self, relance: Relance) -> (r: bool)
        ensures
            old(self).pending ==> rouverte(*old(self), *final(self), r),
            !old(self).pending ==> exists|remise: Preparation, ouverte: Preparation|
                {
                    &&& #[trigger] reinitialisee(*old(self), remise)
                    &&& #[trigger] rouverte(remise, ouverte, r)
                    &&& *final(self) == (Preparation {
                        intent: final(self).intent,
                        model: final(self).model,
                        profile: final(self).profile,
                        ..ouverte
                    })
                    &&& final(self).intent@ == relance.intent@
                    &&& final(self).model@ == relance.model@
                    &&& final(self).profile@ == match relance.profile {
                        Some(p) => p@,
                        None => ouverte.profile@,
                    }
                },
    {
        if self.pending {
            return self.ouvrir();
        }
        self.reset();
        let ghost remise = *self;
        let r = self.ouvrir();
        let ghost ouverte = *self;
        self.intent = relance.intent;
        self.model = relance.model;
        match relance.profile {
            Some(p) => {
                self.profile = p;
            },
            None => {},
        }
        assert(reinitialisee(*old(self), remise));
        assert(rouverte(remise, ouverte, r));
        r
    }

    /// L'objectif tapé dans l'espace vide devient celui de la préparation, que l'humain relit et
    /// complète avant de préparer le plan. Une tentative gardée pour sa reprise n'est pas
    /// écrasée : le brouillon de l'accueil attend alors, intact. Rien ne se passe pour un
    /// brouillon blanc. Rend vrai quand la lecture du catalogue est à lancer.
    pub fn depuis_l_accueil(&mut self, brouillon: &mut String) -> (r: bool)
        ensures
            sans_blancs(old(brouillon)@).len() == 0 ==> !r && *final(self) == *old(self)
                && final(brouillon)@ == old(brouillon)@,
            sans_blancs(old(brouillon)@).len() > 0 ==> exists|ouverte: Preparation|
                {
                    &&& #[trigger] rouverte(*old(self), ouverte, r)
                    &&& ouverte.attempt is None ==> final(brouillon)@.len() == 0 && *final(self) == (
                    Preparation { intent: final(self).intent, ..ouverte })
                        && final(self).intent@ == sans_blancs(old(brouillon)@)
                    &&& ouverte.attempt is Some ==> final(brouillon)@ == old(brouillon)@ && *final(self) == ouverte
                },
    {
        let v = caracteres(brouillon.as_str());
        let t = rogner(&v);
        if t.len() == 0 {
            return false;
        }
        let r = self.ouvrir();
        let ghost ouverte = *self;
        if self.attempt.is_none() {
            self.intent = texte_de(&t);
            *brouillon = String::new();
        }
        assert(rouverte(*old(self), ouverte, r));
        r
    }

    /// « Préparer une mission à partir de ma demande » : une tentative confirmée laisse place à
    /// un nouveau brouillon, dont l'objectif est la demande en cours de rédaction, ou à défaut la
    /// dernière demande du dialogue ; une tentative encore ouverte garde le sien. Rend vrai quand
    /// la lecture du catalogue est à lancer.
    pub fn depuis_la_conversation(&mut self, brouillon: &str, derniere: Option<&str>) -> (r: bool)
        ensures
            exists|remise: Preparation, avant_lecture: Preparation|
                #![trigger remise.attempt, decouverte(avant_lecture, *final(self), r)]
                {
                    &&& if tentative_close(*old(self)) {
                        reinitialisee(*old(self), remise)
                    } else {
                        remise == *old(self)
                    }
                    &&& remise.attempt is None ==> avant_lecture == (Preparation {
                        intent: avant_lecture.intent,
                        ..remise
                    }) && avant_lecture.intent@ == if sans_blancs(brouillon@).len() == 0 {
                        match derniere {
                            Some(d) => d@,
                            None => Seq::<char>::empty(),
                        }
                    } else {
                        brouillon@
                    }
                    &&& remise.attempt is Some ==> avant_lecture == remise
                    &&& decouverte(avant_lecture, *final(self), r)
                },
    {
        if self.attempt.is_some() && self.error.is_none() && !self.pending {
            self.reset();
        }
        let ghost remise = *self;
        if self.attempt.is_none() {
            let v = caracteres(brouillon);
            let t = rogner(&v);
            self.intent = if t.len() == 0 {
                match derniere {
                    Some(d) => d.to_owned(),
                    None => String::new(),
                }
            } else {
                brouillon.to_owned()
            };
        }
        let ghost avant_lecture = *self;
        let r = self.discover();
        assert(decouverte(avant_lecture, *self, r));
        assert(if tentative_close(*old(self)) {
            reinitialisee(*old(self), remise)
        } else {
            remise == *old(self)
        });
        r
    }
}

} // verus!
