//! L'arrêt d'urgence : toutes les missions en main s'arrêtent d'un geste de l'humain.
//!
//! Le geste ouvre une confirmation, et l'arrêt ne part qu'après elle : un clic égaré ne coupe
//! pas dix missions. Seule la réponse du service dit ce qui s'est arrêté ; la surface ne le
//! suppose pas.
//!
//! Ce module décide ; l'application envoie la demande au service quand [`Arret::confirmer`] le
//! dit, et rend sa réponse par [`Arret::recevoir`].

use vstd::prelude::*;
use crate::texte::{ajouter, ajouter_decimal, decimal};

verus! {

/// Ce que l'humain lit une fois l'arrêt répondu.
#[derive(Debug, Clone, PartialEq, Eq)]
pub struct Issue {
    /// La phrase.
    pub texte: String,
    /// Vrai si tout ne s'est pas arrêté.
    pub erreur: bool,
}

/// La réponse du service à l'arrêt, réduite à ses comptes.
#[derive(Debug, Clone, Copy, PartialEq, Eq, Default)]
pub struct ReponseArret {
    /// Missions dont l'arrêt est demandé.
    pub cancel_requested: usize,
    /// Plans annulés.
    pub cancelled: usize,
    /// Missions qui ont résisté.
    pub errors: usize,
}

/// « 1 mission s'arrête », « 2 missions s'arrêtent ».
pub open spec fn compte(n: nat, un: Seq<char>, plusieurs: Seq<char>) -> Seq<char> {
    if n == 1 {
        "1 "@ + un
    } else {
        decimal(n) + " "@ + plusieurs
    }
}

/// Les parties de la phrase, dans l'ordre.
pub open spec fn parties(r: ReponseArret) -> Seq<Seq<char>> {
    let a = if r.cancel_requested > 0 {
        seq![compte(r.cancel_requested as nat, "mission s'arrête"@, "missions s'arrêtent"@)
            + " (l'état final confirmera chaque arrêt)"@]
    } else {
        seq![]
    };
    let b = if r.cancelled > 0 {
        seq![compte(r.cancelled as nat, "plan annulé"@, "plans annulés"@)]
    } else {
        seq![]
    };
    let c = if r.errors > 0 {
        seq![compte(r.errors as nat, "mission a résisté"@, "missions ont résisté"@)
            + " : arrêtez-les une à une"@]
    } else {
        seq![]
    };
    a + b + c
}

/// Des parties jointes par « ; ».
pub open spec fn jointes(p: Seq<Seq<char>>) -> Seq<char>
    decreases p.len(),
{
    if p.len() == 0 {
        seq![]
    } else if p.len() == 1 {
        p[0]
    } else {
        jointes(p.drop_last()) + " ; "@ + p.last()
    }
}

/// La réponse de l'arrêt, en une phrase.
pub open spec fn phrase(r: ReponseArret) -> Seq<char> {
    if parties(r).len() == 0 {
        "Arrêt d'urgence : aucune mission en main, rien à arrêter."@
    } else {
        "Arrêt d'urgence : "@ + jointes(parties(r)) + "."@
    }
}

fn compte_exec(s: &mut String, n: usize, un: &str, plusieurs: &str)
    ensures
        final(s)@ == old(s)@ + compte(n as nat, un@, plusieurs@),
{
    if n == 1 {
        ajouter(s, "1 ");
        ajouter(s, un);
    } else {
        ajouter_decimal(s, n as u64);
        ajouter(s, " ");
        ajouter(s, plusieurs);
    }
}

/// La réponse du service, en une phrase.
pub fn issue(reponse: &ReponseArret) -> (i: Issue)
    ensures
        i.texte@ == phrase(*reponse),
        i.erreur == (reponse.errors > 0),
{
    let ghost p = parties(*reponse);
    let mut texte = "Arrêt d'urgence : ".to_owned();
    let ghost tete = texte@;
    let mut n: usize = 0;
    let ghost mut faites: Seq<Seq<char>> = seq![];
    if reponse.cancel_requested > 0 {
        let ghost avant = texte@;
        compte_exec(&mut texte, reponse.cancel_requested, "mission s'arrête", "missions s'arrêtent");
        ajouter(&mut texte, " (l'état final confirmera chaque arrêt)");
        proof {
            faites = faites.push(compte(reponse.cancel_requested as nat, "mission s'arrête"@, "missions s'arrêtent"@)
                + " (l'état final confirmera chaque arrêt)"@);
        }
        n = n + 1;
        assert(texte@ =~= tete + jointes(faites));
    }
    assert(n == faites.len());
    assert(texte@ =~= tete + jointes(faites));
    if reponse.cancelled > 0 {
        let ghost avant = faites;
        if n > 0 {
            ajouter(&mut texte, " ; ");
        }
        compte_exec(&mut texte, reponse.cancelled, "plan annulé", "plans annulés");
        proof {
            faites = faites.push(compte(reponse.cancelled as nat, "plan annulé"@, "plans annulés"@));
            assert(faites.drop_last() == avant);
        }
        n = n + 1;
        assert(texte@ =~= tete + jointes(faites));
    }
    if reponse.errors > 0 {
        let ghost avant = faites;
        if n > 0 {
            ajouter(&mut texte, " ; ");
        }
        compte_exec(&mut texte, reponse.errors, "mission a résisté", "missions ont résisté");
        ajouter(&mut texte, " : arrêtez-les une à une");
        proof {
            faites = faites.push(compte(reponse.errors as nat, "mission a résisté"@, "missions ont résisté"@)
                + " : arrêtez-les une à une"@);
            assert(faites.drop_last() == avant);
        }
        n = n + 1;
        assert(texte@ =~= tete + jointes(faites));
    }
    assert(faites =~= p);
    if n == 0 {
        Issue {
            texte: "Arrêt d'urgence : aucune mission en main, rien à arrêter.".to_owned(),
            erreur: false,
        }
    } else {
        ajouter(&mut texte, ".");
        Issue { texte, erreur: reponse.errors > 0 }
    }
}

/// L'état de l'arrêt d'urgence dans la surface.
#[derive(Debug, Default)]
pub struct Arret {
    raccorde: bool,
    confirmation: bool,
    en_vol: bool,
    issue: Option<Issue>,
}

/// L'état de l'arrêt, vu de dehors.
pub struct ArretV {
    pub raccorde: bool,
    pub confirmation: bool,
    pub en_vol: bool,
    pub issue: Option<(Seq<char>, bool)>,
}

impl View for Arret {
    type V = ArretV;

    closed spec fn view(&self) -> ArretV {
        ArretV {
            raccorde: self.raccorde,
            confirmation: self.confirmation,
            en_vol: self.en_vol,
            issue: match self.issue {
                Some(i) => Some((i.texte@, i.erreur)),
                None => None,
            },
        }
    }
}

impl Arret {
    /// Un arrêt sans raccord au service : une scène d'exemple.
    pub fn nouveau() -> (a: Self)
        ensures
            !a@.raccorde && !a@.confirmation && !a@.en_vol && a@.issue is None,
    {
        Arret { raccorde: false, confirmation: false, en_vol: false, issue: None }
    }

    /// Raccorde l'arrêt au service des missions. Sans raccord (scène d'exemple), la
    /// confirmation dit qu'il n'y a rien de réel à arrêter.
    pub fn connect() -> (a: Self)
        ensures
            a@.raccorde && !a@.confirmation && !a@.en_vol && a@.issue is None,
    {
        Arret { raccorde: true, confirmation: false, en_vol: false, issue: None }
    }

    /// Ouvre la confirmation, sauf si un arrêt attend déjà sa réponse.
    pub fn demander(&mut self)
        ensures
            final(self)@ == (ArretV { confirmation: old(self)@.confirmation || !old(self)@.en_vol, ..old(self)@ }),
    {
        if !self.en_vol {
            self.confirmation = true;
        }
    }

    /// Referme la confirmation sans rien arrêter.
    pub fn renoncer(&mut self)
        ensures
            final(self)@ == (ArretV { confirmation: false, ..old(self)@ }),
    {
        self.confirmation = false;
    }

    /// Vrai tant que la confirmation est ouverte.
    pub fn confirmation(&self) -> (r: bool)
        ensures
            r == self@.confirmation,
    {
        self.confirmation
    }

    /// L'humain a confirmé. Rend vrai quand l'arrêt doit partir vers le service ; sans raccord,
    /// rien ne part et l'issue le dit.
    pub fn confirmer(&mut self) -> (envoyer: bool)
        ensures
            envoyer == old(self)@.raccorde,
            !final(self)@.confirmation,
            final(self)@.raccorde == old(self)@.raccorde,
            envoyer ==> final(self)@.en_vol && final(self)@.issue is None,
            !envoyer ==> final(self)@.en_vol == old(self)@.en_vol && final(self)@.issue == Some(
                ("Scène d'exemple : aucune mission réelle à arrêter."@, false),
            ),
    {
        self.confirmation = false;
        if !self.raccorde {
            self.issue = Some(
                Issue {
                    texte: "Scène d'exemple : aucune mission réelle à arrêter.".to_owned(),
                    erreur: false,
                },
            );
            return false;
        }
        self.en_vol = true;
        self.issue = None;
        true
    }

    /// La réponse du service est arrivée ; sans arrêt en vol, elle est ignorée.
    pub fn recevoir(&mut self, reponse: Result<ReponseArret, String>)
        ensures
            !old(self)@.en_vol ==> final(self)@ == old(self)@,
            old(self)@.en_vol ==> {
                &&& !final(self)@.en_vol
                &&& final(self)@.confirmation == old(self)@.confirmation
                &&& final(self)@.raccorde == old(self)@.raccorde
                &&& match reponse {
                    Ok(r) => final(self)@.issue == Some((phrase(r), r.errors > 0)),
                    Err(e) => final(self)@.issue == Some(
                        ("Arrêt non confirmé : "@ + e@ + ". Réessayez, ou tapez `prophet task halt`."@, true),
                    ),
                }
            },
    {
        if !self.en_vol {
            return;
        }
        self.en_vol = false;
        match reponse {
            Ok(r) => {
                self.issue = Some(issue(&r));
            },
            Err(e) => {
                let mut t = "Arrêt non confirmé : ".to_owned();
                ajouter(&mut t, e.as_str());
                ajouter(&mut t, ". Réessayez, ou tapez `prophet task halt`.");
                self.issue = Some(Issue { texte: t, erreur: true });
            },
        }
    }

    /// Vrai tant qu'un arrêt attend sa réponse.
    pub fn en_cours(&self) -> (r: bool)
        ensures
            r == self@.en_vol,
    {
        self.en_vol
    }

    /// La dernière issue, jusqu'à ce que l'humain l'écarte.
    pub fn issue(&self) -> (r: Option<&Issue>)
        ensures
            match self@.issue {
                Some(i) => r matches Some(x) && x.texte@ == i.0 && x.erreur == i.1,
                None => r is None,
            },
    {
        self.issue.as_ref()
    }

    /// Écarte l'issue lue.
    pub fn ecarter(&mut self)
        ensures
            final(self)@ == (ArretV { issue: None, ..old(self)@ }),
    {
        self.issue = None;
    }
}

} // verus!
