//! Le rendu : ce qui peut l'empêcher, et comment le dire.

use vstd::prelude::*;
use crate::gpu::{message_gpu, ErreurGpu};
use crate::texte::ajouter;

verus! {

/// Échec du rendu.
#[derive(Debug, Clone, PartialEq, Eq)]
pub enum ErreurRendu {
    /// Le contexte graphique.
    Gpu(ErreurGpu),
    /// Aucune police n'est installée.
    AucunePolice,
    /// La préparation du texte a échoué.
    Texte(String),
}

/// Ce que l'erreur dit à l'humain ; celle du contexte graphique passe telle quelle.
pub open spec fn message_rendu(e: ErreurRendu) -> Seq<char> {
    match e {
        ErreurRendu::Gpu(g) => message_gpu(g),
        ErreurRendu::AucunePolice => "aucune police disponible : le texte serait invisible et le rendu paraîtrait réussi. Installez au moins une police système."@,
        ErreurRendu::Texte(s) => "texte impossible à préparer : "@ + s@,
    }
}

impl ErreurRendu {
    /// Ce que l'erreur dit à l'humain.
    pub fn message(&self) -> (r: String)
        ensures
            r@ == message_rendu(*self),
    {
        match self {
            ErreurRendu::Gpu(g) => g.message(),
            ErreurRendu::AucunePolice => "aucune police disponible : le texte serait invisible et le rendu paraîtrait réussi. Installez au moins une police système.".to_owned(),
            ErreurRendu::Texte(s) => {
                let mut r = "texte impossible à préparer : ".to_owned();
                ajouter(&mut r, s.as_str());
                r
            },
        }
    }
}

impl From<ErreurGpu> for ErreurRendu {
    fn from(e: ErreurGpu) -> (r: Self) {
        ErreurRendu::Gpu(e)
    }
}

impl vstd::std_specs::convert::FromSpecImpl<ErreurGpu> for ErreurRendu {
    open spec fn obeys_from_spec() -> bool {
        true
    }

    open spec fn from_spec(e: ErreurGpu) -> Self {
        ErreurRendu::Gpu(e)
    }
}

} // verus!
