//! Ce que la fenêtre native décide sans dessiner : la réponse de l'humain, la configuration,
//! quand redessiner, et ce qui peut empêcher d'ouvrir.
//!
//! La saisie et le rendu n'attendent jamais le moteur d'inférence ; un écran inchangé n'est pas
//! redessiné.

use vstd::prelude::*;
use crate::atelier::Page;
use crate::gpu::{message_gpu, ErreurGpu};
use crate::texte::ajouter;
use crate::theme::Accent;

verus! {

/// Réponse humaine à l'action précise montrée par la surface.
#[derive(Debug, Clone, PartialEq, Eq)]
pub enum Reponse {
    /// Autorisation, cette fois seulement.
    Accepte,
    /// Autorisation pour toute la mission : la même action ne redemandera pas.
    AccepteMission,
    /// Refus.
    Refuse,
    /// Le code d'approbation que capd demande pour accorder.
    Code(String),
    /// Le premier code d'approbation de cette machine, choisi par l'humain.
    DefinirCode(String),
    /// L'humain renonce à donner son code : l'accord n'est pas fait.
    RenoncerAuCode,
}

/// Configuration de la fenêtre et de son moteur local.
#[derive(Debug, Clone)]
pub struct Options {
    /// Base HTTP du moteur sur la boucle locale.
    pub endpoint: String,
    /// Marque les exemples et désactive les requêtes au moteur.
    pub demonstration: bool,
    /// Fenêtre redimensionnable plutôt que plein écran.
    pub fenetree: bool,
    /// Désactive les animations décoratives dès le démarrage.
    pub mouvement_reduit: bool,
    /// Page initiale.
    pub page: Page,
    /// Accent imposé pour cette session, sinon celui configuré.
    pub accent: Option<Accent>,
    /// Champ complet même sur un rastériseur logiciel.
    pub champ_complet: bool,
}

/// Le moteur local par défaut.
pub open spec fn endpoint_par_defaut() -> Seq<char> {
    "http://127.0.0.1:8080/v1"@
}

impl Options {
    /// La configuration habituelle : plein écran, accueil, accent configuré ; le moteur est celui
    /// que nomme `endpoint` (la variable `PROPHET_MODEL_ENDPOINT`), sinon celui de la boucle
    /// locale.
    pub fn habituelles(endpoint: Option<String>) -> (o: Options)
        ensures
            o.endpoint@ == match endpoint {
                Some(e) => e@,
                None => endpoint_par_defaut(),
            },
            !o.demonstration,
            !o.fenetree,
            !o.mouvement_reduit,
            o.page == Page::Accueil,
            o.accent is None,
            !o.champ_complet,
    {
        Options {
            endpoint: match endpoint {
                Some(e) => e,
                None => "http://127.0.0.1:8080/v1".to_owned(),
            },
            demonstration: false,
            fenetree: false,
            mouvement_reduit: false,
            page: Page::Accueil,
            accent: None,
            champ_complet: false,
        }
    }
}

/// Faut-il redessiner ? Oui si l'interface l'a demandé (champ vivant, saisie, transition) ou si
/// la scène n'a plus l'empreinte de la dernière image. Sinon l'écran reste tel quel et le GPU dort :
/// c'est toute la consommation au repos.
pub fn doit_redessiner(repeindre: bool, derniere: Option<u64>, empreinte: u64) -> (r: bool)
    ensures
        r == (repeindre || derniere != Some(empreinte)),
{
    repeindre || match derniere {
        Some(d) => d != empreinte,
        None => true,
    }
}

/// Échec réel d'installation de la fenêtre ou du moteur graphique.
#[derive(Debug, Clone, PartialEq, Eq)]
pub enum ErreurFenetre {
    /// Échec de la boucle d'événements.
    Boucle(String),
    /// Échec du contexte graphique.
    Gpu(ErreurGpu),
}

/// Ce que l'erreur dit à l'humain ; celle du contexte graphique passe telle quelle.
pub open spec fn message_fenetre(e: ErreurFenetre) -> Seq<char> {
    match e {
        ErreurFenetre::Boucle(s) => "boucle d'évènements : "@ + s@,
        ErreurFenetre::Gpu(g) => message_gpu(g),
    }
}

impl ErreurFenetre {
    /// Ce que l'erreur dit à l'humain.
    pub fn message(&self) -> (r: String)
        ensures
            r@ == message_fenetre(*self),
    {
        match self {
            ErreurFenetre::Boucle(s) => {
                let mut r = "boucle d'évènements : ".to_owned();
                ajouter(&mut r, s.as_str());
                r
            },
            ErreurFenetre::Gpu(g) => g.message(),
        }
    }
}

impl From<ErreurGpu> for ErreurFenetre {
    fn from(e: ErreurGpu) -> (r: Self) {
        ErreurFenetre::Gpu(e)
    }
}

impl vstd::std_specs::convert::FromSpecImpl<ErreurGpu> for ErreurFenetre {
    open spec fn obeys_from_spec() -> bool {
        true
    }

    open spec fn from_spec(e: ErreurGpu) -> Self {
        ErreurFenetre::Gpu(e)
    }
}

} // verus!
