//! Le contexte graphique : ce qui peut manquer pour dessiner, et comment le dire.
//!
//! Une machine sans GPU utilisable ne doit pas rendre une image noire qui aurait l'air d'une
//! réussite : l'absence est nommée.

use vstd::prelude::*;
use crate::texte::ajouter;

verus! {

/// Échec d'ouverture du contexte graphique.
#[derive(Debug, Clone, PartialEq, Eq)]
pub enum ErreurGpu {
    /// Aucun adaptateur graphique utilisable.
    AucunAdaptateur(String),
    /// Le pilote a refusé de fournir un périphérique.
    Peripherique(String),
    /// La lecture de l'image rendue a échoué.
    Lecture(String),
    /// La surface d'affichage n'a pas pu être créée.
    Surface(String),
}

/// Ce que l'erreur dit à l'humain.
pub open spec fn message_gpu(e: ErreurGpu) -> Seq<char> {
    match e {
        ErreurGpu::AucunAdaptateur(s) => "aucun adaptateur graphique : "@ + s@
            + ". Sur une machine sans GPU, le rendu logiciel exige `lavapipe` ou `llvmpipe` ; l'absence est dite ici plutôt que rendue par une image noire."@,
        ErreurGpu::Peripherique(s) => "périphérique refusé par le pilote : "@ + s@,
        ErreurGpu::Lecture(s) => "l'image rendue n'a pas pu être relue : "@ + s@,
        ErreurGpu::Surface(s) => "surface d'affichage impossible : "@ + s@,
    }
}

impl ErreurGpu {
    /// Ce que l'erreur dit à l'humain.
    pub fn message(&self) -> (r: String)
        ensures
            r@ == message_gpu(*self),
    {
        match self {
            ErreurGpu::AucunAdaptateur(s) => {
                let mut r = "aucun adaptateur graphique : ".to_owned();
                ajouter(&mut r, s.as_str());
                ajouter(
                    &mut r,
                    ". Sur une machine sans GPU, le rendu logiciel exige `lavapipe` ou `llvmpipe` ; l'absence est dite ici plutôt que rendue par une image noire.",
                );
                r
            },
            ErreurGpu::Peripherique(s) => {
                let mut r = "périphérique refusé par le pilote : ".to_owned();
                ajouter(&mut r, s.as_str());
                r
            },
            ErreurGpu::Lecture(s) => {
                let mut r = "l'image rendue n'a pas pu être relue : ".to_owned();
                ajouter(&mut r, s.as_str());
                r
            },
            ErreurGpu::Surface(s) => {
                let mut r = "surface d'affichage impossible : ".to_owned();
                ajouter(&mut r, s.as_str());
                r
            },
        }
    }
}

} // verus!
