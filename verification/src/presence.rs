//! La preuve de présence de l'humain pour accorder, côté surface.
//!
//! capd refuse d'accorder depuis la session de l'humain sans son code d'approbation. Quand il le
//! demande, la source réelle le dit ici ; la surface ouvre un champ, l'humain tape son code, et la
//! source obtient un ticket de dix minutes qu'elle garde en mémoire, puis refait l'accord.

use vstd::prelude::*;
use crate::texte::{ajouter, ajouter_decimal, decimal, pousser};

verus! {

/// Une demande de code en cours.
#[derive(Debug, Clone, PartialEq, Eq)]
pub struct Demande {
    /// La demande d'approbation à accorder une fois la preuve faite.
    pub id: String,
    /// Portée de l'accord : `once` ou `task`.
    pub portee: String,
    /// Ce que capd a dit la dernière fois : code faux, verrou…
    pub message: String,
    /// Aucun code n'est encore défini sur cette machine : l'humain en choisit un.
    pub definir: bool,
}

impl Demande {
    /// Choisir son code sans décision en attente : depuis la page Système, ou au premier
    /// lancement quand aucun n'est encore défini.
    pub fn definir_seulement() -> (d: Self)
        ensures
            d.id@ == Seq::<char>::empty(),
            d.portee@ == Seq::<char>::empty(),
            d.message@ == Seq::<char>::empty(),
            d.definir,
    {
        Self { id: String::new(), portee: String::new(), message: String::new(), definir: true }
    }

    /// Aucune décision n'attend ce code : il est seulement choisi.
    pub fn sans_decision(&self) -> (r: bool)
        ensures
            r == (self.id@.len() == 0),
    {
        self.id.as_str().is_empty()
    }
}

/// Ce que capd dit du code d'approbation de cette machine (`approval.code_status`).
#[derive(Debug, Clone, Copy, PartialEq, Eq)]
pub struct EtatDuCode {
    /// Un code est défini.
    pub defini: bool,
    /// Secondes de verrou restantes après trop de codes faux.
    pub verrou_s: Option<i64>,
}

/// Le code d'approbation compte au moins autant de caractères (le même seuil que capd).
pub const LONGUEUR_MIN: usize = 6;

/// Les minutes de verrou annoncées pour `s` secondes restantes : `(s + 59) / 60`, la minute
/// entamée comptant pour une, dans la division entière de Rust qui tronque vers zéro.
pub open spec fn minutes_de_verrou(s: int) -> int {
    let t = s + 59;
    if t >= 0 {
        t / 60
    } else {
        -((-t) / 60)
    }
}

/// Un entier relatif en chiffres décimaux, précédé d'un signe moins s'il est négatif.
pub open spec fn relatif(n: int) -> Seq<char> {
    if n < 0 {
        seq!['-'] + decimal((-n) as nat)
    } else {
        decimal(n as nat)
    }
}

/// Ce que la page Système dit du code d'approbation : le verrou et ce qu'il en reste s'il y en
/// a un, sinon si un code est défini.
pub open spec fn titre_du_code(e: EtatDuCode) -> Seq<char> {
    match e.verrou_s {
        Some(s) => "Verrouillé après trop de codes faux : encore "@ + relatif(
            minutes_de_verrou(s as int),
        ) + " min."@,
        None => if e.defini {
            "Votre code d'approbation est défini."@
        } else {
            "Aucun code d'approbation n'est encore choisi."@
        },
    }
}

impl EtatDuCode {
    /// Ce que la page Système dit du code d'approbation : le verrou et ses minutes restantes,
    /// arrondies à la minute entamée, sinon si un code est défini.
    pub fn titre(&self) -> (r: String)
        requires
            self.verrou_s matches Some(s) ==> s <= i64::MAX - 59,
        ensures
            r@ == titre_du_code(*self),
    {
        let mut r = String::new();
        match self.verrou_s {
            Some(s) => {
                ajouter(&mut r, "Verrouillé après trop de codes faux : encore ");
                let t: i64 = s + 59;
                if t >= 0 {
                    ajouter_decimal(&mut r, (t as u64) / 60);
                } else {
                    let q: u64 = ((-t) as u64) / 60;
                    if q > 0 {
                        pousser(&mut r, '-');
                        assert(r@ + decimal(q as nat) == "Verrouillé après trop de codes faux : encore "@ + (seq!['-'] + decimal(q as nat)));
                    }
                    ajouter_decimal(&mut r, q);
                }
                ajouter(&mut r, " min.");
            },
            None => {
                if self.defini {
                    ajouter(&mut r, "Votre code d'approbation est défini.");
                } else {
                    ajouter(&mut r, "Aucun code d'approbation n'est encore choisi.");
                }
            },
        }
        r
    }
}

} // verus!
