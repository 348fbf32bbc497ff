//! Ce qui se place à l'écran, et dans quel ordre.
//!
//! À gauche les courants, un par tâche, le plus urgent en haut ; à droite l'isolation puis
//! l'heure ; au centre rien, sauf quand une décision attend. Ce qui ne tient pas n'est pas
//! dessiné plus petit : il n'est pas dessiné. La géométrie des panneaux se calcule au rendu.

use vstd::prelude::*;

verus! {

/// Ce qu'un panneau contient, pour que le rendu sache quoi écrire dedans.
#[derive(Debug, Clone, Copy, PartialEq, Eq, Structural)]
pub enum Contenu {
    /// Un courant, désigné par son rang dans la scène.
    Courant(usize),
    /// L'isolation de la machine.
    Isolation,
    /// L'heure et la date.
    Horloge,
    /// La décision en attente.
    Decision,
}

/// Le nombre de courants montrés : tous ceux qui tiennent, et au moins un.
pub open spec fn courants_montres(courants: nat, tiennent: nat) -> nat {
    let place = if tiennent == 0 {
        1
    } else {
        tiennent
    };
    if courants < place {
        courants
    } else {
        place
    }
}

/// Les panneaux, dans l'ordre où ils se posent : les courants montrés, l'isolation, l'horloge,
/// puis la décision s'il y en a une.
pub open spec fn panneaux(courants: nat, tiennent: nat, decision: bool) -> Seq<Contenu> {
    let n = courants_montres(courants, tiennent);
    Seq::new(n, |i: int| Contenu::Courant(i as usize)) + seq![Contenu::Isolation, Contenu::Horloge]
        + if decision {
        seq![Contenu::Decision]
    } else {
        seq![]
    }
}

/// Les panneaux d'une scène de `courants` tâches, quand `tiennent` courants tiennent dans la
/// hauteur et qu'une décision attend ou non.
pub fn contenus(courants: usize, tiennent: usize, decision: bool) -> (r: Vec<Contenu>)
    ensures
        r@ == panneaux(courants as nat, tiennent as nat, decision),
{
    let place = if tiennent == 0 {
        1
    } else {
        tiennent
    };
    let a_montrer = if courants < place {
        courants
    } else {
        place
    };
    let mut r: Vec<Contenu> = Vec::new();
    for rang in 0..a_montrer
        invariant
            r@ == Seq::new(rang as nat, |i: int| Contenu::Courant(i as usize)),
    {
        r.push(Contenu::Courant(rang));
        assert(r@ =~= Seq::new((rang + 1) as nat, |i: int| Contenu::Courant(i as usize)));
    }
    r.push(Contenu::Isolation);
    r.push(Contenu::Horloge);
    if decision {
        r.push(Contenu::Decision);
    }
    assert(r@ =~= panneaux(courants as nat, tiennent as nat, decision));
    r
}

/// Ce qui ne tient pas n'est pas entassé : jamais plus de courants que la place n'en tient
/// (un au moins), et la décision n'a son panneau que quand elle attend.
pub proof fn loi_rien_n_est_entasse(courants: nat, tiennent: nat, decision: bool)
    ensures
        courants_montres(courants, tiennent) <= courants,
        tiennent > 0 ==> courants_montres(courants, tiennent) <= tiennent,
        courants > 0 ==> courants_montres(courants, tiennent) >= 1,
        panneaux(courants, tiennent, decision).contains(Contenu::Decision) == decision,
{
    let p = panneaux(courants, tiennent, decision);
    let n = courants_montres(courants, tiennent);
    if decision {
        assert(p[p.len() - 1] == Contenu::Decision);
    } else {
        assert forall|i: int| 0 <= i < p.len() implies p[i] != Contenu::Decision by {
            if i < n {
                assert(p[i] == Contenu::Courant(i as usize));
            }
        }
    }
}

} // verus!
