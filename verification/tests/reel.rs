use surface::fenetre::Reponse;
use surface::reel::{
    date, decision_de, heure, identifiant, isolation_de, isolation_montree, manque_pour_monter,
    panne_d_agentd, socket_du_journal, Capacites, INSTANT_MAX, INSTANT_MIN,
};
use surface::scene::Approbation;

#[test]
fn la_date_se_dit_en_francais() {
    let rendue = date(1_789_000_000);
    assert!(
        rendue.contains("septembre") || rendue.contains("juillet"),
        "mois en français attendu, obtenu : {rendue}"
    );
    assert!(
        !rendue.is_empty() && rendue.chars().next().is_some_and(char::is_lowercase),
        "obtenu : {rendue}"
    );
    assert_eq!(rendue, "jeudi 10 septembre");
    assert_eq!(date(0), "jeudi 1 janvier");
}

#[test]
fn l_heure_est_sur_deux_chiffres() {
    assert_eq!(heure(0), "00:00");
    assert_eq!(heure(1_789_000_000), "00:26");
    assert_eq!(heure(-60), "23:59");
}

#[test]
fn les_bornes_du_calendrier_se_datent() {
    assert_eq!(date(INSTANT_MIN), "lundi 1 janvier");
    assert_eq!(heure(INSTANT_MIN), "00:00");
    assert_eq!(date(INSTANT_MAX), "vendredi 31 décembre");
    assert_eq!(heure(INSTANT_MAX), "23:59");
    assert_eq!(date(951_782_400), "mardi 29 février");
}

#[test]
fn ce_qui_manque_se_dit_en_une_phrase() {
    let sans_rien = Capacites::default();
    let dit = manque_pour_monter(&sans_rien).expect("il manque des choses");
    assert!(dit.contains("espaces de noms"), "{dit}");
    assert!(dit.contains(" et "), "la liste doit se lire : {dit}");
    assert!(!dit.contains('\n'), "une ligne, pas un rapport : {dit}");
    assert_eq!(
        dit,
        "des espaces de noms utilisateur, Landlock, cgroups v2 et gVisor"
    );
}

#[test]
fn une_restriction_de_politique_se_distingue_d_une_absence() {
    let restreint = Capacites {
        max_level: 0,
        user_namespaces: false,
        landlock_abi: true,
        cgroups_v2: true,
        runsc: Some("/usr/bin/runsc".into()),
        userns_restreint_par_politique: true,
        ..Capacites::default()
    };
    let dit = manque_pour_monter(&restreint).expect("il manque quelque chose");
    assert!(dit.contains("politique"), "{dit}");
}

#[test]
fn au_niveau_deux_il_n_y_a_plus_rien_a_manquer() {
    let complet = Capacites {
        max_level: 2,
        ..Capacites::default()
    };
    assert!(manque_pour_monter(&complet).is_none());
}

#[test]
fn au_niveau_un_ce_sont_les_microvm_qui_manquent() {
    let gvisor = Capacites {
        max_level: 1,
        ..Capacites::default()
    };
    let dit = manque_pour_monter(&gvisor).expect("il manque des choses");
    assert!(dit.contains("kvm"), "{dit}");
    assert!(dit.contains("images d'invité"), "{dit}");
    let presque = Capacites {
        max_level: 1,
        kvm: true,
        firecracker: Some("/usr/bin/firecracker".into()),
        ..Capacites::default()
    };
    assert_eq!(manque_pour_monter(&presque).as_deref(), Some("les images d'invité"));
}

#[test]
fn sans_aucun_daemon_le_champ_est_vide_et_le_dit() {
    let isolation = isolation_montree(None, Some(panne_d_agentd("connexion refusée")));
    assert_eq!(isolation.niveau_max, 0);
    assert!(isolation
        .manque
        .as_deref()
        .is_some_and(|m| m.contains("agentd") || m.contains("inconnue")));
    let inconnue = isolation_montree(None, None);
    assert_eq!(inconnue.manque.as_deref(), Some("isolation inconnue"));
    let decrite = isolation_de(&Capacites {
        max_level: 300,
        ..Capacites::default()
    });
    assert_eq!(decrite.niveau_max, 0, "un niveau hors d'un octet ne se montre pas");
    assert!(decrite.manque.is_none());
}

#[test]
fn repondre_sans_decision_montree_ne_fait_rien() {
    assert_eq!(identifiant(&[]), "");
    assert_eq!(decision_de(&Reponse::Accepte), Some("allow"));
    assert_eq!(decision_de(&Reponse::Refuse), Some("deny"));
    assert_eq!(decision_de(&Reponse::RenoncerAuCode), None);
}

fn approbation(id: &str, created: i128) -> Approbation {
    Approbation {
        id: id.into(),
        task: "t1".into(),
        agent: "codex".into(),
        action: "Payer".into(),
        target: "SNCF Connect".into(),
        summary: "Payer le billet ?".into(),
        motif: None,
        irreversible: true,
        created,
    }
}

#[test]
fn la_reponse_va_a_la_demande_la_plus_ancienne() {
    let approbations = [approbation("recente", 50), approbation("ancienne", 10), approbation("aussi", 10)];
    assert_eq!(identifiant(&approbations), "ancienne");
    assert_eq!(socket_du_journal(None, "/run/ledger.sock".into()), "/run/ledger.sock");
    assert_eq!(socket_du_journal(Some("/tmp/l.sock".into()), "/run/ledger.sock".into()), "/tmp/l.sock");
}
