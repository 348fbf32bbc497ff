use surface::scene::{
    consequence, courants_de, decision_montree, etat, scene_de, Approbation, Courant, Etat,
    Isolation, Scene, State, Tache,
};

fn approbation(id: &str, action: &str, irreversible: bool, created: i128) -> Approbation {
    Approbation {
        id: id.to_owned(),
        task: "t1".to_owned(),
        agent: "codex".to_owned(),
        action: action.to_owned(),
        target: "SNCF Connect".to_owned(),
        summary: "Payer le billet ?".to_owned(),
        motif: None,
        irreversible,
        created,
    }
}

const SECONDE: i128 = 1_000_000_000;

#[test]
fn une_tache_en_pause_se_fige_comme_une_tache_empechee() {
    assert_eq!(etat(State::Paused), Etat::Bloque);
    assert_eq!(etat(State::Pending), Etat::Bloque);
    assert_eq!(etat(State::Running), Etat::Court);
    assert_eq!(etat(State::WaitingApproval), Etat::Attend);
    assert_eq!(etat(State::Done), Etat::Fini);
}

#[test]
fn une_consequence_irreversible_le_dit() {
    let approbation = approbation("a1", "Envoyer un paiement de 87,40 €", true, 0);
    let dit = consequence(&approbation);
    assert!(dit.contains("ne peut pas être annulée"), "{dit}");
    assert!(dit.contains("SNCF Connect"), "{dit}");
}

#[test]
fn c_est_la_plus_ancienne_qui_est_montree() {
    let maintenant = 1_000 * SECONDE;
    let approbations = [
        approbation("recente", "Envoyer un message", false, maintenant - 5 * SECONDE),
        approbation("ancienne", "Payer", true, maintenant - 300 * SECONDE),
        approbation("moyenne", "Supprimer", true, maintenant - 60 * SECONDE),
    ];
    let scene = scene_de(
        &[],
        &approbations,
        1,
        None,
        "14:37".to_owned(),
        "jeudi".to_owned(),
        maintenant,
    );
    let decision = scene.decision.expect("une décision attend");
    assert!(
        decision.consequence.starts_with("Payer"),
        "obtenu : {}",
        decision.consequence
    );
    assert!(
        decision.depuis_secondes >= 299,
        "l'attente doit être dite telle qu'elle est, obtenu {}",
        decision.depuis_secondes
    );
}

#[test]
fn sans_approbation_il_n_y_a_rien_a_trancher() {
    let scene = scene_de(&[], &[], 2, None, "14:37".to_owned(), "jeudi".to_owned(), 0);
    assert!(scene.decision.is_none());
    assert!(decision_montree(&[], 0).is_none());
}

#[test]
fn une_attente_future_ne_se_dit_pas_negative() {
    let a = [approbation("x", "Payer", false, 10 * SECONDE)];
    assert_eq!(decision_montree(&a, 0).unwrap().depuis_secondes, 0);
}

fn tache(id: &str, state: State, driver: Option<&str>) -> Tache {
    Tache {
        id: id.into(),
        intent: format!("mission {id}"),
        driver: driver.map(Into::into),
        agent: "prophet".into(),
        state,
        etapes: 3,
        secondes: 60,
        historique: 2,
    }
}

#[test]
fn ce_qui_est_fini_n_est_plus_surveille() {
    let taches = [
        tache("a", State::Running, Some("codex")),
        tache("b", State::Done, None),
        tache("c", State::Failed, None),
        tache("d", State::Cancelled, None),
        tache("e", State::WaitingApproval, None),
        tache("f", State::RolledBack, None),
    ];
    let courants = courants_de(&taches);
    let ids: Vec<&str> = courants.iter().map(|c| c.tache.as_str()).collect();
    assert_eq!(ids, ["a", "c", "e"]);
    assert_eq!(courants[0].agent, "codex");
    assert_eq!(courants[1].agent, "prophet");
    assert_eq!(courants[1].etat, Etat::Bloque);
    assert_eq!(courants[2].etat, Etat::Attend);
    assert_eq!(courants[0].task_state, Some(State::Running));
    assert_eq!(courants[0].task_revision, 2);
    let scene = scene_de(&taches, &[], 1, None, String::new(), String::new(), 0);
    assert_eq!(scene.actives(), 1);
    let ordre: Vec<&str> = scene.courants.iter().map(|c| c.tache.as_str()).collect();
    assert_eq!(ordre, ["e", "c", "a"], "ce qui attend, puis ce qui est empêché, puis le reste");
}

/// Un courant qui franchit `par_minute` étapes en une minute.
fn courant(tache: &str, etat: Etat, par_minute: u32) -> Courant {
    Courant {
        tache: tache.to_owned(),
        intitule: "quelque chose".to_owned(),
        agent: "codex".to_owned(),
        etat,
        etapes: par_minute,
        secondes: 60,
        task_state: None,
        task_revision: 0,
    }
}

/// `a` est plus vif que `b`.
fn plus_vif(a: (u128, u128), b: (u128, u128)) -> bool {
    a.0 * b.1 > b.0 * a.1
}

fn scene_de_courants(courants: Vec<Courant>) -> Scene {
    Scene {
        heure: "14:37".to_owned(),
        date: "jeudi".to_owned(),
        courants,
        decision: None,
        isolation: Isolation {
            niveau_max: 1,
            manque: None,
            reserve: None,
        },
    }
}

#[test]
fn un_courant_bloque_ne_bouge_pas() {
    let bloque = courant("t1", Etat::Bloque, 30);
    assert_eq!(bloque.vitesse().0, 0);
}

#[test]
fn un_courant_qui_attend_respire_encore() {
    let attend = courant("t1", Etat::Attend, 30);
    assert!(attend.vitesse().0 > 0);
    assert!(plus_vif(courant("t2", Etat::Court, 30).vitesse(), attend.vitesse()));
}

#[test]
fn la_vitesse_suit_le_debit_puis_sature() {
    let lent = courant("t1", Etat::Court, 4);
    let vif = courant("t2", Etat::Court, 30);
    let effrene = courant("t3", Etat::Court, 400);
    assert!(plus_vif(vif.vitesse(), lent.vitesse()));
    assert!(!plus_vif(vif.vitesse(), effrene.vitesse()));
    assert_eq!(effrene.vitesse(), (1, 1), "au-delà du seuil, la vitesse sature");
    assert_eq!(courant("t4", Etat::Court, 1).vitesse(), (1, 20), "et ne descend pas sous 5 %");
}

#[test]
fn le_debit_se_mesure_en_etapes_par_minute() {
    // 30 étapes en 60 secondes : 30 étapes par minute, soit 30/40 de la vitesse maximale.
    let v = courant("t1", Etat::Court, 30).vitesse();
    assert_eq!(v.0 * 40, 30 * v.1);
}

#[test]
fn une_tache_qui_vient_de_naitre_n_est_pas_figee() {
    let jeune = Courant {
        etapes: 0,
        secondes: 0,
        ..courant("t1", Etat::Court, 0)
    };
    assert!(jeune.vitesse().0 > 0);
    assert_eq!(jeune.vitesse(), (6, 40), "six étapes par minute lui sont prêtées");
}

#[test]
fn ce_qui_reclame_passe_devant() {
    let mut scene = scene_de_courants(vec![
        courant("rapide", Etat::Court, 38),
        courant("bloque", Etat::Bloque, 0),
        courant("lent", Etat::Court, 2),
    ]);
    scene.ordonner();
    assert_eq!(
        scene.courants[0].tache, "bloque",
        "ce qui est empêché doit occuper la place la plus lisible"
    );
    assert_eq!(scene.courants[1].tache, "rapide");
}

#[test]
fn l_ordre_est_stable_a_activite_egale() {
    let faire = || {
        scene_de_courants(vec![
            courant("bbb", Etat::Court, 10),
            courant("aaa", Etat::Court, 10),
        ])
    };
    let mut une = faire();
    une.ordonner();
    let mut deux = faire();
    deux.ordonner();
    assert_eq!(une.courants[0].tache, deux.courants[0].tache);
    assert_eq!(une.courants[0].tache, "aaa");
}

#[test]
fn les_identifiants_se_rangent_caractere_par_caractere() {
    let mut scene = scene_de_courants(vec![
        courant("t-10", Etat::Court, 10),
        courant("t-1", Etat::Court, 10),
        courant("t-9", Etat::Court, 10),
        courant("T-9", Etat::Court, 10),
    ]);
    scene.ordonner();
    let ordre: Vec<&str> = scene.courants.iter().map(|c| c.tache.as_str()).collect();
    assert_eq!(ordre, ["T-9", "t-1", "t-10", "t-9"]);
}

#[test]
fn deux_courants_qui_se_valent_gardent_leur_ordre_de_depart() {
    let nomme = |intitule: &str| Courant {
        intitule: intitule.to_owned(),
        ..courant("t", Etat::Court, 10)
    };
    let mut scene = scene_de_courants(vec![
        nomme("premier"),
        courant("a", Etat::Court, 20),
        nomme("second"),
    ]);
    scene.ordonner();
    let ordre: Vec<&str> = scene.courants.iter().map(|c| c.intitule.as_str()).collect();
    assert_eq!(ordre, ["quelque chose", "premier", "second"]);
}
