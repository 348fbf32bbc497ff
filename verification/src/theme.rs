//! Le vocabulaire visuel de Prophet OS.
//!
//! **Le noir est le fond, pas une couleur.** **L'accent ne décore pas, il signale.** **L'alerte
//! est réservée à ce qui exige un humain.** L'accent est au choix de la personne — arc, or,
//! plasma, jade, nacre — et ce choix ne change que la couleur de ce qui signale, jamais ce qui
//! est signalé.
//!
//! Les couleurs sont ici en sRGB huit bits, telles que l'interface les mélange ; leur version
//! linéaire, en nombres flottants, se calcule au rendu.

use vstd::prelude::*;
use crate::texte::{caracteres, egal_car, en_minuscules, minuscules, rogner, sans_blancs};

pub mod palette;

verus! {

/// Une couleur sRGB huit bits, opacité prémultipliée.
#[derive(Debug, Clone, Copy, PartialEq, Eq, Structural)]
pub struct Teinte {
    /// Rouge.
    pub rouge: u8,
    /// Vert.
    pub vert: u8,
    /// Bleu.
    pub bleu: u8,
    /// Opacité.
    pub alpha: u8,
}

impl Teinte {
    /// Une couleur opaque.
    pub fn from_rgb(r: u8, g: u8, b: u8) -> (t: Self)
        ensures
            t == (Teinte { rouge: r, vert: g, bleu: b, alpha: 255 }),
    {
        Teinte { rouge: r, vert: g, bleu: b, alpha: 255 }
    }

    /// Une couleur aux canaux déjà prémultipliés par son opacité.
    pub fn from_rgba_premultiplied(r: u8, g: u8, b: u8, a: u8) -> (t: Self)
        ensures
            t == (Teinte { rouge: r, vert: g, bleu: b, alpha: a }),
    {
        Teinte { rouge: r, vert: g, bleu: b, alpha: a }
    }

    /// Du noir, à cette opacité.
    pub fn from_black_alpha(a: u8) -> (t: Self)
        ensures
            t == (Teinte { rouge: 0, vert: 0, bleu: 0, alpha: a }),
    {
        Teinte { rouge: 0, vert: 0, bleu: 0, alpha: a }
    }

    /// Rouge.
    pub fn r(&self) -> (v: u8)
        ensures
            v == self.rouge,
    {
        self.rouge
    }

    /// Vert.
    pub fn g(&self) -> (v: u8)
        ensures
            v == self.vert,
    {
        self.vert
    }

    /// Bleu.
    pub fn b(&self) -> (v: u8)
        ensures
            v == self.bleu,
    {
        self.bleu
    }

    /// Opacité.
    pub fn a(&self) -> (v: u8)
        ensures
            v == self.alpha,
    {
        self.alpha
    }
}

/// Une couleur avec une opacité, prémultipliée.
pub open spec fn voile_de(c: Teinte, alpha: u8) -> Teinte {
    Teinte {
        rouge: (c.rouge * alpha / 255) as u8,
        vert: (c.vert * alpha / 255) as u8,
        bleu: (c.bleu * alpha / 255) as u8,
        alpha,
    }
}

proof fn lemme_voile(x: u8, a: u8)
    ensures
        x * a / 255 <= 255,
{
    assert(x * a <= 255 * 255) by (nonlinear_arith)
        requires
            x <= 255,
            a <= 255,
    ;
}

/// Une couleur avec une opacité, prémultipliée.
pub fn voile(c: Teinte, alpha: u8) -> (t: Teinte)
    ensures
        t == voile_de(c, alpha),
{
    proof {
        lemme_voile(c.rouge, alpha);
        lemme_voile(c.vert, alpha);
        lemme_voile(c.bleu, alpha);
    }
    let a = alpha as u32;
    Teinte {
        rouge: (c.rouge as u32 * a / 255) as u8,
        vert: (c.vert as u32 * a / 255) as u8,
        bleu: (c.bleu as u32 * a / 255) as u8,
        alpha,
    }
}

/// L'accent : la couleur de ce qui signale, au choix de la personne.
#[derive(Debug, Clone, Copy, PartialEq, Eq)]
pub struct Accent {
    /// Identifiant stable, en minuscules, pour la configuration et la ligne de commande.
    pub nom: &'static str,
    /// Nom affiché.
    pub titre: &'static str,
    /// L'accent vif : ce qui est actif, ce qui est choisi, ce qui commande.
    pub vif: Teinte,
    /// L'accent sourd : étiquettes, chiffres en place, ce qui est là sans réclamer.
    pub sourd: Teinte,
    /// L'accent éteint : pistes, graduations, ce qui reste d'un courant fini.
    pub eteint: Teinte,
    /// Le fil qui cercle les surfaces. Présent, jamais appuyé.
    pub fil: Teinte,
    /// Le même fil, éclairé : sélection, focus clavier.
    pub fil_vif: Teinte,
    /// Une lueur large et faible, à poser derrière ce qui brille.
    pub lueur: Teinte,
}

/// Une couleur opaque, en spécification.
pub open spec fn opaque(r: u8, g: u8, b: u8) -> Teinte {
    Teinte { rouge: r, vert: g, bleu: b, alpha: 255 }
}

/// Un accent, à partir de ses trois teintes : le fil, le fil vif et la lueur sont l'accent vif
/// voilé.
pub open spec fn accent_de(
    nom: &'static str,
    titre: &'static str,
    vif: Teinte,
    sourd: Teinte,
    eteint: Teinte,
) -> Accent {
    Accent {
        nom,
        titre,
        vif,
        sourd,
        eteint,
        fil: voile_de(vif, 58),
        fil_vif: voile_de(vif, 196),
        lueur: voile_de(vif, 26),
    }
}

/// Les accents proposés, dans l'ordre ; le premier est celui par défaut.
pub open spec fn liste_des_accents() -> Seq<Accent> {
    seq![
        accent_de("arc", "Arc", opaque(96, 226, 255), opaque(84, 170, 194), opaque(36, 84, 100)),
        accent_de("or", "Or", opaque(236, 196, 108), opaque(184, 150, 84), opaque(108, 86, 42)),
        accent_de(
            "plasma",
            "Plasma",
            opaque(204, 132, 255),
            opaque(170, 120, 212),
            opaque(86, 56, 116),
        ),
        accent_de("jade", "Jade", opaque(98, 232, 172), opaque(78, 174, 132), opaque(38, 92, 70)),
        accent_de(
            "nacre",
            "Nacre",
            opaque(234, 240, 246),
            opaque(176, 186, 198),
            opaque(96, 104, 116),
        ),
    ]
}

/// La clé sous laquelle un nom d'accent est cherché : sans blancs autour, en minuscules ASCII.
pub open spec fn cle_d_accent(nom: Seq<char>) -> Seq<char> {
    minuscules(sans_blancs(nom))
}

fn accent(
    nom: &'static str,
    titre: &'static str,
    vif: Teinte,
    sourd: Teinte,
    eteint: Teinte,
) -> (a: Accent)
    ensures
        a == accent_de(nom, titre, vif, sourd, eteint),
{
    Accent {
        nom,
        titre,
        vif,
        sourd,
        eteint,
        fil: voile(vif, 58),
        fil_vif: voile(vif, 196),
        lueur: voile(vif, 26),
    }
}

/// Les accents proposés. Le premier est celui par défaut.
pub fn accents() -> (r: Vec<Accent>)
    ensures
        r@ == liste_des_accents(),
{
    let r = vec![
        accent(
            "arc",
            "Arc",
            Teinte::from_rgb(96, 226, 255),
            Teinte::from_rgb(84, 170, 194),
            Teinte::from_rgb(36, 84, 100),
        ),
        accent(
            "or",
            "Or",
            Teinte::from_rgb(236, 196, 108),
            Teinte::from_rgb(184, 150, 84),
            Teinte::from_rgb(108, 86, 42),
        ),
        accent(
            "plasma",
            "Plasma",
            Teinte::from_rgb(204, 132, 255),
            Teinte::from_rgb(170, 120, 212),
            Teinte::from_rgb(86, 56, 116),
        ),
        accent(
            "jade",
            "Jade",
            Teinte::from_rgb(98, 232, 172),
            Teinte::from_rgb(78, 174, 132),
            Teinte::from_rgb(38, 92, 70),
        ),
        accent(
            "nacre",
            "Nacre",
            Teinte::from_rgb(234, 240, 246),
            Teinte::from_rgb(176, 186, 198),
            Teinte::from_rgb(96, 104, 116),
        ),
    ];
    assert(r@ =~= liste_des_accents());
    r
}

impl Accent {
    /// L'accent désigné par son identifiant, s'il existe : le nom est pris sans ses blancs
    /// autour et sans égard à la casse ASCII.
    pub fn par_nom(nom: &str) -> (r: Option<Accent>)
        ensures
            match r {
                Some(a) => exists|i: int|
                    0 <= i < liste_des_accents().len() && liste_des_accents()[i] == a
                        && a.nom@ == cle_d_accent(nom@),
                None => forall|i: int|
                    0 <= i < liste_des_accents().len() ==> liste_des_accents()[i].nom@
                        != cle_d_accent(nom@),
            },
    {
        let v = caracteres(nom);
        let t = rogner(&v);
        let cle = en_minuscules(&t);
        let liste = accents();
        let mut i: usize = 0;
        while i < liste.len()
            invariant
                liste@ == liste_des_accents(),
                cle@ == cle_d_accent(nom@),
                i <= liste.len(),
                forall|k: int| 0 <= k < i ==> liste_des_accents()[k].nom@ != cle_d_accent(nom@),
            decreases liste.len() - i,
        {
            let a = liste[i];
            let n = caracteres(a.nom);
            if egal_car(&n, &cle) {
                return Some(a);
            }
            i = i + 1;
        }
        None
    }

    /// L'accent par défaut : l'arc.
    pub fn defaut() -> (a: Accent)
        ensures
            a == liste_des_accents()[0],
    {
        let liste = accents();
        liste[0]
    }
}

/// Deux accents proposés ne portent jamais le même nom : un nom en désigne un seul.
pub proof fn loi_noms_d_accents_distincts(i: int, j: int)
    requires
        0 <= i < liste_des_accents().len(),
        0 <= j < liste_des_accents().len(),
        i != j,
    ensures
        liste_des_accents()[i].nom@ != liste_des_accents()[j].nom@,
{
    reveal_strlit("arc");
    reveal_strlit("or");
    reveal_strlit("plasma");
    reveal_strlit("jade");
    reveal_strlit("nacre");
    let l = liste_des_accents();
    assert(l[0].nom@[0] == 'a' && l[0].nom@.len() == 3);
    assert(l[1].nom@[0] == 'o' && l[1].nom@.len() == 2);
    assert(l[2].nom@[0] == 'p');
    assert(l[3].nom@[0] == 'j');
    assert(l[4].nom@[0] == 'n');
}

/// Chaque accent proposé se retrouve par son nom : son nom est déjà sa clé (minuscules, sans
/// blancs), et aucun autre accent ne le porte.
pub proof fn loi_un_accent_se_retrouve_par_son_nom(i: int)
    requires
        0 <= i < liste_des_accents().len(),
    ensures
        cle_d_accent(liste_des_accents()[i].nom@) == liste_des_accents()[i].nom@,
        forall|j: int|
            0 <= j < liste_des_accents().len() && liste_des_accents()[j].nom@
                == liste_des_accents()[i].nom@ ==> j == i,
{
    reveal_strlit("arc");
    reveal_strlit("or");
    reveal_strlit("plasma");
    reveal_strlit("jade");
    reveal_strlit("nacre");
    let n = liste_des_accents()[i].nom@;
    assert forall|k: int| 0 <= k < n.len() implies !crate::texte::est_blanc(#[trigger] n[k])
        && !('A' <= n[k] && n[k] <= 'Z') by {}
    crate::texte::lemme_sans_blancs_identite(n);
    assert(minuscules(n) =~= n);
    assert forall|j: int|
        0 <= j < liste_des_accents().len() && liste_des_accents()[j].nom@ == n implies j == i by {
        if j != i {
            loi_noms_d_accents_distincts(i, j);
        }
    }
}

} // verus!
