//! Le champ vivant : chaque ruban est une mission en marche.
//!
//! Le champ ne dessine pas toutes les missions. Au-delà de quelques rubans, l'écran serait une
//! nappe indistincte : la mission choisie est toujours dessinée, puis ce qui réclame l'humain,
//! puis les plus vives, comme dans la scène. Ce module décide lesquelles ; la géométrie et la
//! lumière de chaque ruban relèvent du moteur de rendu.

use vstd::prelude::*;
use crate::scene::{lemme_ordre_des_courants, passe_avant, Courant};
use crate::texte::egal;

verus! {

/// Rubans dessinés au plus.
pub const RUBANS_MAX: usize = 10;

/// Le courant est celui de la mission choisie.
pub open spec fn choisi(c: Courant, selection: Option<Seq<char>>) -> bool {
    selection == Some(c.tache@)
}

/// `a` prend un ruban avant `b` : la mission choisie d'abord, puis l'ordre de la scène.
pub open spec fn devant(a: Courant, b: Courant, selection: Option<Seq<char>>) -> bool {
    if choisi(a, selection) != choisi(b, selection) {
        choisi(a, selection)
    } else {
        passe_avant(a, b)
    }
}

/// Les rubans `r`, donnés par la place de leur courant dans `c` : autant que de courants, dans
/// la limite de `RUBANS_MAX` ; chaque courant une fois au plus ; dans l'ordre où ils prennent
/// leur ruban ; et un courant laissé sans ruban vient après chacun de ceux qui en ont un.
pub open spec fn rubans_conformes(c: Seq<Courant>, selection: Option<Seq<char>>, r: Seq<usize>) -> bool {
    &&& r.len() == if c.len() < RUBANS_MAX {
        c.len() as int
    } else {
        RUBANS_MAX as int
    }
    &&& forall|k: int| 0 <= k < r.len() ==> #[trigger] r[k] < c.len()
    &&& forall|k: int, l: int| 0 <= k < l < r.len() ==> #[trigger] r[k] != #[trigger] r[l]
    &&& forall|k: int, l: int|
        0 <= k < l < r.len() ==> devant(
            c[#[trigger] r[k] as int],
            c[#[trigger] r[l] as int],
            selection,
        )
    &&& forall|k: int, j: int|
        0 <= k < r.len() && 0 <= j < c.len() && !r.contains(j as usize) ==> devant(
            c[#[trigger] r[k] as int],
            #[trigger] c[j],
            selection,
        )
}

proof fn lemme_ordre_des_rubans(a: Courant, b: Courant, d: Courant, selection: Option<Seq<char>>)
    ensures
        devant(a, b, selection) || devant(b, a, selection),
        devant(a, a, selection),
        devant(a, b, selection) && devant(b, d, selection) ==> devant(a, d, selection),
{
    lemme_ordre_des_courants(a, b, d);
    lemme_ordre_des_courants(a, a, a);
}

fn choisi_exec(c: &Courant, selection: Option<&str>) -> (r: bool)
    ensures
        r == choisi(*c, match selection {
            Some(s) => Some(s@),
            None => None,
        }),
{
    match selection {
        Some(s) => egal(s, c.tache.as_str()),
        None => false,
    }
}

fn devant_exec(a: &Courant, b: &Courant, selection: Option<&str>) -> (r: bool)
    ensures
        r == devant(*a, *b, match selection {
            Some(s) => Some(s@),
            None => None,
        }),
{
    let ca = choisi_exec(a, selection);
    let cb = choisi_exec(b, selection);
    if ca != cb {
        ca
    } else {
        a.passe_avant(b)
    }
}

/// La place, dans `reste`, du premier des courants qui prennent leur ruban avant les autres.
fn le_premier_du_reste(c: &[Courant], reste: &Vec<usize>, selection: Option<&str>) -> (m: usize)
    requires
        reste@.len() > 0,
        forall|i: int| 0 <= i < reste@.len() ==> #[trigger] reste@[i] < c@.len(),
    ensures
        m < reste@.len(),
        forall|i: int|
            0 <= i < reste@.len() ==> devant(
                c@[reste@[m as int] as int],
                c@[#[trigger] reste@[i] as int],
                match selection {
                    Some(s) => Some(s@),
                    None => None,
                },
            ),
{
    let ghost sel = match selection {
        Some(s) => Some(s@),
        None => None,
    };
    let mut m: usize = 0;
    let mut k: usize = 1;
    proof {
        lemme_ordre_des_rubans(c@[reste@[0] as int], c@[reste@[0] as int], c@[reste@[0] as int], sel);
    }
    while k < reste.len()
        invariant
            0 < k <= reste@.len(),
            m < k,
            forall|i: int| 0 <= i < reste@.len() ==> #[trigger] reste@[i] < c@.len(),
            sel == match selection {
                Some(s) => Some(s@),
                None => None,
            },
            forall|i: int|
                0 <= i < k ==> devant(
                    c@[reste@[m as int] as int],
                    c@[#[trigger] reste@[i] as int],
                    sel,
                ),
        decreases reste@.len() - k,
    {
        let a = &c[reste[m]];
        let b = &c[reste[k]];
        if !devant_exec(a, b, selection) {
            proof {
                let (x, y) = (c@[reste@[k as int] as int], c@[reste@[m as int] as int]);
                lemme_ordre_des_rubans(x, y, x, sel);
                assert forall|i: int| 0 <= i <= k implies devant(
                    x,
                    c@[#[trigger] reste@[i] as int],
                    sel,
                ) by {
                    if i < k {
                        lemme_ordre_des_rubans(x, y, c@[reste@[i] as int], sel);
                    }
                }
            }
            m = k;
        }
        k = k + 1;
    }
    m
}

/// Les courants qui reçoivent un ruban, par leur place dans `courants`, dans l'ordre où ils le
/// prennent : la mission choisie d'abord, puis ce qui réclame l'humain, puis les plus vives ;
/// `RUBANS_MAX` au plus, pour que mille missions ne fassent pas mille rubans.
pub fn rubans(courants: &[Courant], selection: Option<&str>) -> (r: Vec<usize>)
    ensures
        rubans_conformes(
            courants@,
            match selection {
                Some(s) => Some(s@),
                None => None,
            },
            r@,
        ),
{
    let ghost sel = match selection {
        Some(s) => Some(s@),
        None => None,
    };
    let n = courants.len();
    let mut reste: Vec<usize> = Vec::new();
    let mut i: usize = 0;
    while i < n
        invariant
            i <= n,
            n == courants@.len(),
            reste@.len() == i,
            forall|j: int| 0 <= j < i ==> #[trigger] reste@[j] == j,
        decreases n - i,
    {
        reste.push(i);
        i = i + 1;
    }
    let mut r: Vec<usize> = Vec::new();
    proof {
        assert forall|j: usize| j < n implies #[trigger] reste@.contains(j) by {
            assert(reste@[j as int] == j);
        }
    }
    while r.len() < RUBANS_MAX && reste.len() > 0
        invariant
            n == courants@.len(),
            sel == match selection {
                Some(s) => Some(s@),
                None => None,
            },
            r@.len() + reste@.len() == n,
            r@.len() <= RUBANS_MAX,
            forall|j: usize|
                #![trigger r@.contains(j)]
                #![trigger reste@.contains(j)]
                j < n ==> r@.contains(j) || reste@.contains(j),
            forall|k: int| 0 <= k < r@.len() ==> #[trigger] r@[k] < n,
            forall|i: int| 0 <= i < reste@.len() ==> #[trigger] reste@[i] < n,
            forall|k: int, l: int| 0 <= k < l < r@.len() ==> #[trigger] r@[k] != #[trigger] r@[l],
            forall|i: int, l: int|
                0 <= i < l < reste@.len() ==> #[trigger] reste@[i] != #[trigger] reste@[l],
            forall|k: int, i: int|
                0 <= k < r@.len() && 0 <= i < reste@.len() ==> #[trigger] r@[k]
                    != #[trigger] reste@[i],
            forall|k: int, l: int|
                0 <= k < l < r@.len() ==> devant(
                    courants@[#[trigger] r@[k] as int],
                    courants@[#[trigger] r@[l] as int],
                    sel,
                ),
            forall|k: int, i: int|
                0 <= k < r@.len() && 0 <= i < reste@.len() ==> devant(
                    courants@[#[trigger] r@[k] as int],
                    courants@[#[trigger] reste@[i] as int],
                    sel,
                ),
        decreases reste@.len(),
    {
        let m = le_premier_du_reste(courants, &reste, selection);
        let ghost avant = reste@;
        let ghost deja = r@;
        let x = reste.remove(m);
        r.push(x);
        proof {
            assert(r@ == deja.push(x));
            assert(reste@ == avant.remove(m as int));
            assert(x == avant[m as int]);
            assert forall|j: usize| j < n implies #[trigger] r@.contains(j) || reste@.contains(j) by {
                if deja.contains(j) {
                    let k = choose|k: int| 0 <= k < deja.len() && deja[k] == j;
                    assert(r@[k] == j);
                } else {
                    assert(avant.contains(j));
                    let i = choose|i: int| 0 <= i < avant.len() && avant[i] == j;
                    if i == m {
                        assert(r@[deja.len() as int] == j);
                    } else if i < m {
                        assert(reste@[i] == j);
                    } else {
                        assert(reste@[i - 1] == j);
                    }
                }
            }
            assert forall|k: int| 0 <= k < r@.len() implies #[trigger] r@[k] < n by {
                if k < deja.len() {
                    assert(r@[k] == deja[k]);
                }
            }
            assert forall|i: int| 0 <= i < reste@.len() implies #[trigger] reste@[i] < n by {
                let ii = if i < m {
                    i
                } else {
                    i + 1
                };
                assert(reste@[i] == avant[ii]);
            }
            assert forall|k: int, l: int| 0 <= k < l < r@.len() implies #[trigger] r@[k]
                != #[trigger] r@[l] by {
                if l < deja.len() {
                    assert(r@[k] == deja[k] && r@[l] == deja[l]);
                } else {
                    assert(r@[k] == deja[k] && r@[l] == avant[m as int]);
                }
            }
            assert forall|i: int, l: int| 0 <= i < l < reste@.len() implies #[trigger] reste@[i]
                != #[trigger] reste@[l] by {
                let ii = if i < m {
                    i
                } else {
                    i + 1
                };
                let ll = if l < m {
                    l
                } else {
                    l + 1
                };
                assert(reste@[i] == avant[ii] && reste@[l] == avant[ll]);
            }
            assert forall|k: int, i: int| 0 <= k < r@.len() && 0 <= i < reste@.len() implies #[trigger] r@[k]
                != #[trigger] reste@[i] by {
                let ii = if i < m {
                    i
                } else {
                    i + 1
                };
                assert(reste@[i] == avant[ii]);
                if k < deja.len() {
                    assert(r@[k] == deja[k]);
                } else {
                    assert(r@[k] == avant[m as int]);
                }
            }
            assert forall|k: int, l: int| 0 <= k < l < r@.len() implies devant(
                courants@[#[trigger] r@[k] as int],
                courants@[#[trigger] r@[l] as int],
                sel,
            ) by {
                if l < deja.len() {
                    assert(r@[k] == deja[k] && r@[l] == deja[l]);
                } else {
                    assert(r@[k] == deja[k] && r@[l] == avant[m as int]);
                }
            }
            assert forall|k: int, i: int| 0 <= k < r@.len() && 0 <= i < reste@.len() implies devant(
                courants@[#[trigger] r@[k] as int],
                courants@[#[trigger] reste@[i] as int],
                sel,
            ) by {
                let ii = if i < m {
                    i
                } else {
                    i + 1
                };
                assert(reste@[i] == avant[ii]);
                if k < deja.len() {
                    assert(r@[k] == deja[k]);
                } else {
                    assert(r@[k] == avant[m as int]);
                }
            }
        }
    }
    proof {
        assert forall|k: int, j: int|
            0 <= k < r@.len() && 0 <= j < courants@.len() && !r@.contains(j as usize) implies devant(
            courants@[#[trigger] r@[k] as int],
            #[trigger] courants@[j],
            sel,
        ) by {
            assert(reste@.contains(j as usize));
            let i = choose|i: int| 0 <= i < reste@.len() && reste@[i] == j as usize;
            assert(courants@[reste@[i] as int] == courants@[j]);
        }
    }
    r
}

/// La mission choisie a toujours son ruban, et c'est le premier, dès qu'un de ses courants est
/// dans la scène.
pub proof fn loi_la_mission_choisie_a_toujours_son_ruban(
    c: Seq<Courant>,
    selection: Seq<char>,
    r: Seq<usize>,
    j: int,
)
    requires
        rubans_conformes(c, Some(selection), r),
        c.len() <= usize::MAX,
        0 <= j < c.len(),
        c[j].tache@ == selection,
    ensures
        r.len() > 0,
        c[r[0] as int].tache@ == selection,
{
    assert(r.len() > 0);
    if c[r[0] as int].tache@ != selection {
        if r.contains(j as usize) {
            let k = choose|k: int| 0 <= k < r.len() && r[k] == j as usize;
            assert(r[k] as int == j);
            assert(k > 0);
            assert(devant(c[r[0] as int], c[r[k] as int], Some(selection)));
        } else {
            assert(devant(c[r[0] as int], c[j], Some(selection)));
        }
    }
}

} // verus!
