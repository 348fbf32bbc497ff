//! La surface, branchée sur le système qui tourne : ce qu'elle tire de ce que les daemons
//! répondent.
//!
//! `agentd` donne les tâches, `capd` les décisions en attente, `sandboxd` ce que la machine sait
//! isoler. Rien n'est inventé, et surtout **un daemon injoignable n'est pas remplacé par une
//! démonstration** : quand rien ne répond, le champ est vide et la ligne d'isolation le dit.
//! L'interrogation elle-même, à son rythme et sur un fil à part, est l'affaire de l'application.

use vstd::prelude::*;
use crate::fenetre::Reponse;
use crate::missions::{joints, joints_exec};
use crate::scene::{la_plus_ancienne, plus_ancienne, Approbation, Isolation};
use crate::texte::{ajouter, ajouter_decimal, decimal, deux_chiffres, ecrire_deux_chiffres, vues};

verus! {

/// Où joindre les daemons.
#[derive(Debug, Clone, PartialEq, Eq)]
pub struct Sockets {
    /// Le runtime d'agents, pour les tâches.
    pub agentd: String,
    /// Le broker, pour les décisions en attente.
    pub capd: String,
    /// Le gestionnaire d'isolation, pour ce que la machine sait faire.
    pub sandboxd: String,
}

/// Le chemin d'un socket : celui que nomme sa variable d'environnement, sinon celui du daemon par
/// défaut.
pub fn chemin(variable: Option<String>, par_defaut: String) -> (r: String)
    ensures
        r == match variable {
            Some(v) => v,
            None => par_defaut,
        },
{
    match variable {
        Some(v) => v,
        None => par_defaut,
    }
}

/// Le journal, pour lire où une mission est allée : `PROPHET_LEDGER_SOCKET` s'il est donné
/// (`variable`), sinon le socket par défaut du journal.
pub fn socket_du_journal(variable: Option<String>, par_defaut: String) -> (r: String)
    ensures
        r == match variable {
            Some(v) => v,
            None => par_defaut,
        },
{
    chemin(variable, par_defaut)
}

/// Ce que `sandboxd` dit de la machine (`sandbox.capabilities`), réduit à ce que la surface lit.
#[derive(Debug, Clone, PartialEq, Eq, Default)]
pub struct Capacites {
    /// Le plus haut niveau d'isolation atteignable ; 0 quand il n'est pas dit.
    pub max_level: u64,
    /// Les espaces de noms utilisateur sont disponibles.
    pub user_namespaces: bool,
    /// Ils existent, mais la politique de la machine les interdit.
    pub userns_restreint_par_politique: bool,
    /// Landlock répond (une version d'ABI est donnée).
    pub landlock_abi: bool,
    /// cgroups v2 est monté.
    pub cgroups_v2: bool,
    /// Le chemin de gVisor (`runsc`), s'il est installé.
    pub runsc: Option<String>,
    /// `/dev/kvm` est accessible.
    pub kvm: bool,
    /// Le chemin de Firecracker, s'il est installé.
    pub firecracker: Option<String>,
    /// Les images d'invité des microVM sont présentes.
    pub microvm_images: bool,
}

/// Un élément, si la condition le demande.
pub open spec fn si(condition: bool, s: Seq<char>) -> Seq<Seq<char>> {
    if condition {
        seq![s]
    } else {
        seq![]
    }
}

/// Ce qui manque pour atteindre le niveau suivant, dans l'ordre où la surface le nomme.
pub open spec fn manques(c: Capacites) -> Seq<Seq<char>> {
    if c.max_level == 0 {
        si(
            !c.user_namespaces,
            if c.userns_restreint_par_politique {
                "des espaces de noms que la politique de la machine n'interdit pas"@
            } else {
                "des espaces de noms utilisateur"@
            },
        ) + si(!c.landlock_abi, "Landlock"@) + si(!c.cgroups_v2, "cgroups v2"@) + si(
            c.runsc is None,
            "gVisor"@,
        )
    } else if c.max_level == 1 {
        si(!c.kvm, "l'accès à /dev/kvm"@) + si(c.firecracker is None, "Firecracker"@) + si(
            !c.microvm_images,
            "les images d'invité"@,
        )
    } else {
        seq![]
    }
}

/// Une liste dite en une phrase : « a, b et c » ; rien quand elle est vide.
pub open spec fn en_une_phrase(m: Seq<Seq<char>>) -> Option<Seq<char>> {
    if m.len() == 0 {
        None
    } else if m.len() == 1 {
        Some(m[0])
    } else {
        Some(joints(m.drop_last(), ", "@) + " et "@ + m.last())
    }
}

fn ajouter_si(v: &mut Vec<String>, condition: bool, s: &str)
    ensures
        vues(final(v)@) == vues(old(v)@) + si(condition, s@),
{
    if condition {
        v.push(s.to_owned());
        assert(vues(v@) =~= vues(old(v)@) + si(condition, s@));
    } else {
        assert(vues(v@) =~= vues(old(v)@) + si(condition, s@));
    }
}

/// Ce qui manque pour atteindre le niveau d'isolation suivant, en une phrase.
///
/// Le rapport complet de `sandboxd` fait plusieurs lignes ; la surface en a une. On nomme donc ce
/// qui manque, et seulement cela. Rien ne manque (`None`) au niveau deux, ou quand chaque
/// condition du niveau suivant est remplie — jamais par commodité : une machine incapable qui
/// afficherait « tout est disponible » serait pire que muette.
pub fn manque_pour_monter(c: &Capacites) -> (r: Option<String>)
    ensures
        match (r, en_une_phrase(manques(*c))) {
            (Some(a), Some(b)) => a@ == b,
            (None, None) => true,
            _ => false,
        },
        r is None <==> (c.max_level >= 2 || (c.max_level == 0 && c.user_namespaces
            && c.landlock_abi && c.cgroups_v2 && c.runsc is Some) || (c.max_level == 1 && c.kvm
            && c.firecracker is Some && c.microvm_images)),
{
    let mut m: Vec<String> = Vec::new();
    if c.max_level == 0 {
        let espaces = if c.userns_restreint_par_politique {
            "des espaces de noms que la politique de la machine n'interdit pas"
        } else {
            "des espaces de noms utilisateur"
        };
        ajouter_si(&mut m, !c.user_namespaces, espaces);
        ajouter_si(&mut m, !c.landlock_abi, "Landlock");
        ajouter_si(&mut m, !c.cgroups_v2, "cgroups v2");
        ajouter_si(&mut m, c.runsc.is_none(), "gVisor");
    } else if c.max_level == 1 {
        ajouter_si(&mut m, !c.kvm, "l'accès à /dev/kvm");
        ajouter_si(&mut m, c.firecracker.is_none(), "Firecracker");
        ajouter_si(&mut m, !c.microvm_images, "les images d'invité");
    } else {
        return None;
    }
    assert(vues(m@) == manques(*c));
    let n = m.len();
    if n == 0 {
        return None;
    }
    let ghost tout = vues(m@);
    match m.pop() {
        Some(dernier) => {
            assert(vues(m@) =~= tout.drop_last());
            assert(dernier@ == tout.last());
            if n == 1 {
                return Some(dernier);
            }
            let mut r = joints_exec(&m, ", ");
            ajouter(&mut r, " et ");
            ajouter(&mut r, dernier.as_str());
            Some(r)
        },
        None => None,
    }
}

/// L'isolation que `sandboxd` décrit : son niveau (0 s'il ne tient pas sur un octet) et ce qui
/// manque pour monter.
pub fn isolation_de(c: &Capacites) -> (i: Isolation)
    ensures
        i.niveau_max == if c.max_level <= 255 {
            c.max_level as u8
        } else {
            0u8
        },
        match (i.manque, en_une_phrase(manques(*c))) {
            (Some(a), Some(b)) => a@ == b,
            (None, None) => true,
            _ => false,
        },
        i.reserve is None,
{
    Isolation {
        niveau_max: if c.max_level <= 255 {
            c.max_level as u8
        } else {
            0
        },
        manque: manque_pour_monter(c),
        reserve: None,
    }
}

/// L'isolation à montrer : celle que `sandboxd` a décrite ; sinon le niveau zéro, avec la panne
/// qui empêche de savoir, ou à défaut « isolation inconnue ».
pub fn isolation_montree(isolation: Option<Isolation>, panne: Option<String>) -> (i: Isolation)
    ensures
        match isolation {
            Some(j) => i == j,
            None => i.niveau_max == 0 && i.reserve is None && (i.manque matches Some(m) && m@
                == match panne {
                Some(p) => p@,
                None => "isolation inconnue"@,
            }),
        },
{
    match isolation {
        Some(j) => j,
        None => Isolation {
            niveau_max: 0,
            manque: Some(
                match panne {
                    Some(p) => p,
                    None => "isolation inconnue".to_owned(),
                },
            ),
            reserve: None,
        },
    }
}

/// La panne qui empêche de connaître les tâches.
pub fn panne_d_agentd(erreur: &str) -> (r: String)
    ensures
        r@ == "agentd injoignable : "@ + erreur@,
{
    let mut r = "agentd injoignable : ".to_owned();
    ajouter(&mut r, erreur);
    r
}

/// La décision que `capd` reçoit pour une réponse : accorder ou refuser. Les réponses qui passent
/// par le code d'approbation n'en transmettent pas d'ici.
pub fn decision_de(reponse: &Reponse) -> (r: Option<&'static str>)
    ensures
        match reponse {
            Reponse::Accepte => r matches Some(d) && d@ == "allow"@,
            Reponse::Refuse => r matches Some(d) && d@ == "deny"@,
            _ => r is None,
        },
{
    match reponse {
        Reponse::Accepte => Some("allow"),
        Reponse::Refuse => Some("deny"),
        _ => None,
    }
}

/// L'identifiant de la demande montrée : la plus ancienne, la première à égalité — la même règle
/// que celle qui la choisit. Vide quand rien n'attend.
pub fn identifiant(approbations: &[Approbation]) -> (r: String)
    ensures
        match plus_ancienne(approbations@, approbations@.len() as int) {
            Some(k) => r@ == approbations@[k].id@,
            None => r@.len() == 0,
        },
{
    match la_plus_ancienne(approbations) {
        Some(k) => approbations[k].id.clone(),
        None => String::new(),
    }
}

// ---------------------------------------------------------------------------------------------
// L'heure et la date, en temps universel.

/// Le premier instant que `time` sait dater : le 1er janvier de l'an −9999, à minuit.
pub const INSTANT_MIN: i64 = -377705116800;

/// Le dernier instant que `time` sait dater : le 31 décembre 9999, à 23:59:59.
pub const INSTANT_MAX: i64 = 253402300799;

/// Un instant, en secondes depuis l'époque Unix, que `time` sait dater.
pub open spec fn datable(t: i64) -> bool {
    INSTANT_MIN <= t <= INSTANT_MAX
}

/// L'heure d'un instant, en temps universel.
pub open spec fn heure_utc(t: i64) -> int {
    (t % 86400) / 3600
}

/// La minute d'un instant, en temps universel.
pub open spec fn minute_utc(t: i64) -> int {
    ((t % 86400) % 3600) / 60
}

/// Le jour de la semaine d'un instant, en temps universel, compté depuis le lundi.
pub open spec fn jour_de_semaine_utc(t: i64) -> int {
    (2440588 + t / 86400) % 7
}

/// L'année, le mois et le jour du calendrier grégorien proleptique (années astronomiques) du
/// `z`-ième jour compté depuis le 1er janvier 1970 : le calendrier se découpe en ères de
/// 400 ans, chacune commençant un 1er mars.
pub open spec fn date_civile(z: int) -> (int, int, int) {
    let z = z + 719468;
    let era = z / 146097;
    let doe = z - era * 146097;
    let yoe = (doe - doe / 1460 + doe / 36524 - doe / 146096) / 365;
    let doy = doe - (365 * yoe + yoe / 4 - yoe / 100);
    let mp = (5 * doy + 2) / 153;
    let d = doy - (153 * mp + 2) / 5 + 1;
    let m = if mp < 10 {
        mp + 3
    } else {
        mp - 9
    };
    (yoe + era * 400 + if m <= 2 {
        1int
    } else {
        0int
    }, m, d)
}

/// Le mois d'un instant en temps universel, de 1 à 12.
pub open spec fn mois_utc(t: i64) -> int {
    date_civile(t / 86400).1
}

/// Le jour du mois d'un instant en temps universel, de 1 à 31.
pub open spec fn jour_du_mois_utc(t: i64) -> int {
    date_civile(t / 86400).2
}

/// L'heure de `time::OffsetDateTime::hour`, pour l'instant donné en temps universel : le code de
/// `time` la tire des secondes écoulées dans le jour, divisées par 3600.
#[verifier::external_body]
fn heure_de(t: i64) -> (r: u8)
    requires
        datable(t),
    ensures
        r == heure_utc(t),
{
    match time::OffsetDateTime::from_unix_timestamp(t) {
        Ok(instant) => instant.hour(),
        Err(_) => 0,
    }
}

/// La minute de `time::OffsetDateTime::minute`, pour l'instant donné en temps universel : le reste
/// des secondes du jour par heure, divisé par 60.
#[verifier::external_body]
fn minute_de(t: i64) -> (r: u8)
    requires
        datable(t),
    ensures
        r == minute_utc(t),
{
    match time::OffsetDateTime::from_unix_timestamp(t) {
        Ok(instant) => instant.minute(),
        Err(_) => 0,
    }
}

/// Le jour de la semaine de `time::OffsetDateTime::weekday`, compté depuis le lundi par
/// `Weekday::number_days_from_monday` : `time` le tire du jour julien modulo 7.
#[verifier::external_body]
fn jour_de_semaine_de(t: i64) -> (r: u8)
    requires
        datable(t),
    ensures
        r == jour_de_semaine_utc(t),
{
    match time::OffsetDateTime::from_unix_timestamp(t) {
        Ok(instant) => instant.weekday().number_days_from_monday(),
        Err(_) => 0,
    }
}

/// Le mois de `time::OffsetDateTime::month`, en nombre de 1 à 12 : `time` tient le calendrier
/// grégorien proleptique, que `date_civile` écrit à partir du jour de l'instant.
#[verifier::external_body]
fn mois_de(t: i64) -> (r: u8)
    requires
        datable(t),
    ensures
        r == mois_utc(t),
        1 <= r <= 12,
{
    match time::OffsetDateTime::from_unix_timestamp(t) {
        Ok(instant) => instant.month() as u8,
        Err(_) => 1,
    }
}

/// Le jour du mois de `time::OffsetDateTime::day`, de 1 à 31, dans le même calendrier
/// grégorien proleptique que `date_civile`.
#[verifier::external_body]
fn jour_du_mois_de(t: i64) -> (r: u8)
    requires
        datable(t),
    ensures
        r == jour_du_mois_utc(t),
        1 <= r <= 31,
{
    match time::OffsetDateTime::from_unix_timestamp(t) {
        Ok(instant) => instant.day(),
        Err(_) => 1,
    }
}

/// L'heure affichée d'un instant : heures et minutes sur deux chiffres.
pub fn heure(t: i64) -> (r: String)
    requires
        datable(t),
    ensures
        r@ == deux_chiffres(heure_utc(t) as nat) + seq![':'] + deux_chiffres(minute_utc(t) as nat),
{
    let h = heure_de(t);
    let m = minute_de(t);
    let mut r = ecrire_deux_chiffres(h as u64);
    ajouter(&mut r, ":");
    let mm = ecrire_deux_chiffres(m as u64);
    ajouter(&mut r, mm.as_str());
    proof {
        reveal_strlit(":");
    }
    r
}

/// Les jours de la semaine, depuis le lundi.
pub open spec fn nom_du_jour(i: int) -> Seq<char> {
    if i == 0 {
        "lundi"@
    } else if i == 1 {
        "mardi"@
    } else if i == 2 {
        "mercredi"@
    } else if i == 3 {
        "jeudi"@
    } else if i == 4 {
        "vendredi"@
    } else if i == 5 {
        "samedi"@
    } else {
        "dimanche"@
    }
}

/// Les mois, depuis janvier (1).
pub open spec fn nom_du_mois(m: int) -> Seq<char> {
    if m == 1 {
        "janvier"@
    } else if m == 2 {
        "février"@
    } else if m == 3 {
        "mars"@
    } else if m == 4 {
        "avril"@
    } else if m == 5 {
        "mai"@
    } else if m == 6 {
        "juin"@
    } else if m == 7 {
        "juillet"@
    } else if m == 8 {
        "août"@
    } else if m == 9 {
        "septembre"@
    } else if m == 10 {
        "octobre"@
    } else if m == 11 {
        "novembre"@
    } else {
        "décembre"@
    }
}

fn jour_en_lettres(i: u8) -> (r: &'static str)
    requires
        i < 7,
    ensures
        r@ == nom_du_jour(i as int),
{
    if i == 0 {
        "lundi"
    } else if i == 1 {
        "mardi"
    } else if i == 2 {
        "mercredi"
    } else if i == 3 {
        "jeudi"
    } else if i == 4 {
        "vendredi"
    } else if i == 5 {
        "samedi"
    } else {
        "dimanche"
    }
}

fn mois_en_lettres(m: u8) -> (r: &'static str)
    requires
        1 <= m <= 12,
    ensures
        r@ == nom_du_mois(m as int),
{
    if m == 1 {
        "janvier"
    } else if m == 2 {
        "février"
    } else if m == 3 {
        "mars"
    } else if m == 4 {
        "avril"
    } else if m == 5 {
        "mai"
    } else if m == 6 {
        "juin"
    } else if m == 7 {
        "juillet"
    } else if m == 8 {
        "août"
    } else if m == 9 {
        "septembre"
    } else if m == 10 {
        "octobre"
    } else if m == 11 {
        "novembre"
    } else {
        "décembre"
    }
}

/// La date d'un instant, en français : le jour de la semaine, le quantième, le mois.
pub fn date(t: i64) -> (r: String)
    requires
        datable(t),
    ensures
        r@ == nom_du_jour(jour_de_semaine_utc(t)) + " "@ + decimal(jour_du_mois_utc(t) as nat)
            + " "@ + nom_du_mois(mois_utc(t) as int),
{
    let j = jour_de_semaine_de(t);
    let d = jour_du_mois_de(t);
    let m = mois_de(t);
    let mut r = jour_en_lettres(j).to_owned();
    ajouter(&mut r, " ");
    ajouter_decimal(&mut r, d as u64);
    ajouter(&mut r, " ");
    ajouter(&mut r, mois_en_lettres(m));
    r
}

} // verus!
