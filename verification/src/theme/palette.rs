//! Les neutres de l'interface native, en sRGB huit bits.
//!
//! Ils ne changent pas avec l'accent : la nuit, le verre, l'encre et l'alerte sont les mêmes
//! quelle que soit la couleur choisie. Chaque constante a un rôle ; aucune n'est là pour varier.

use vstd::prelude::*;
use super::Teinte;

verus! {

/// La nuit, jamais tout à fait noire, à peine froide.
pub fn fond() -> (t: Teinte)
    ensures
        t == (Teinte { rouge: 5, vert: 7, bleu: 10, alpha: 255 }),
{
    Teinte { rouge: 5, vert: 7, bleu: 10, alpha: 255 }
}

/// Une plaque de verre : on voit le champ au travers, assez peu pour lire dessus.
pub fn verre() -> (t: Teinte)
    ensures
        t == (Teinte { rouge: 7, vert: 10, bleu: 14, alpha: 168 }),
{
    Teinte { rouge: 7, vert: 10, bleu: 14, alpha: 168 }
}

/// Une surface posée sur le verre : tuile d'instrument, ligne de comparaison, message.
pub fn verre_haut() -> (t: Teinte)
    ensures
        t == (Teinte { rouge: 13, vert: 18, bleu: 24, alpha: 214 }),
{
    Teinte { rouge: 13, vert: 18, bleu: 24, alpha: 214 }
}

/// Un creux dans le verre : zone de saisie, fond d'un choix.
pub fn creux() -> (t: Teinte)
    ensures
        t == (Teinte { rouge: 3, vert: 4, bleu: 6, alpha: 255 }),
{
    Teinte { rouge: 3, vert: 4, bleu: 6, alpha: 255 }
}

/// L'encre courante, un blanc à peine froid qui ne siffle pas sur la nuit.
pub fn encre() -> (t: Teinte)
    ensures
        t == (Teinte { rouge: 232, vert: 236, bleu: 240, alpha: 255 }),
{
    Teinte { rouge: 232, vert: 236, bleu: 240, alpha: 255 }
}

/// Le texte secondaire.
pub fn discret() -> (t: Teinte)
    ensures
        t == (Teinte { rouge: 140, vert: 150, bleu: 162, alpha: 255 }),
{
    Teinte { rouge: 140, vert: 150, bleu: 162, alpha: 255 }
}

/// Le texte effacé : mentions, références, unités.
pub fn efface() -> (t: Teinte)
    ensures
        t == (Teinte { rouge: 96, vert: 104, bleu: 116, alpha: 255 }),
{
    Teinte { rouge: 96, vert: 104, bleu: 116, alpha: 255 }
}

/// Le trait neutre : séparateurs, pistes, ce qui structure sans signaler.
pub fn trait_neutre() -> (t: Teinte)
    ensures
        t == (Teinte { rouge: 40, vert: 48, bleu: 58, alpha: 120 }),
{
    Teinte { rouge: 40, vert: 48, bleu: 58, alpha: 120 }
}

/// Ce qui exige un humain : une décision, un refus, une panne. Rien d'autre.
pub fn attente() -> (t: Teinte)
    ensures
        t == (Teinte { rouge: 255, vert: 108, bleu: 62, alpha: 255 }),
{
    Teinte { rouge: 255, vert: 108, bleu: 62, alpha: 255 }
}

/// L'alerte, en voile : le fond d'une bande ou d'un panneau qui attend l'humain.
pub fn attente_voile() -> (t: Teinte)
    ensures
        t == (Teinte { rouge: 48, vert: 18, bleu: 10, alpha: 200 }),
{
    Teinte { rouge: 48, vert: 18, bleu: 10, alpha: 200 }
}

/// Ce qui est accompli et vérifié par le service : une menthe calme.
pub fn accompli() -> (t: Teinte)
    ensures
        t == (Teinte { rouge: 126, vert: 214, bleu: 176, alpha: 255 }),
{
    Teinte { rouge: 126, vert: 214, bleu: 176, alpha: 255 }
}

/// Le noir posé sur tout pendant un examen : ce qui tourne reste visible, en retrait.
pub fn voile() -> (t: Teinte)
    ensures
        t == (Teinte { rouge: 0, vert: 0, bleu: 0, alpha: 160 }),
{
    Teinte { rouge: 0, vert: 0, bleu: 0, alpha: 160 }
}

} // verus!
