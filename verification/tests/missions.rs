use surface::missions::{
    LectureDuJournal, phrase_de_decision, trail_from, Accuse, Action, Detail, Evenement, Missions, Outcome, Sortie,
};
use surface::scene::{scene_de, Decision, State, Tache};

fn inspection(id: &str, state: State) -> Detail {
    Detail {
        id: id.into(),
        etat: state,
        historique: vec![],
        plan: None,
        etapes: 0,
        secondes: 60,
        can_start: state == State::Planned,
        can_cancel: !state.is_terminal(),
        can_apply: false,
        can_undo: false,
        publication: None,
        changements: vec![],
    }
}

fn evenement(seq: u64, kind: &str) -> Evenement {
    Evenement {
        seq: Some(seq),
        kind: Some(kind.into()),
        ..Evenement::default()
    }
}

fn appel(seq: u64, step: u64, tool: &str, target: Option<&str>) -> Evenement {
    Evenement {
        step: Some(step),
        tool: Some(tool.into()),
        target: target.map(Into::into),
        ..evenement(seq, "tool.call")
    }
}

fn resultat(seq: u64, step: u64, tool: &str, ok: bool, code: Option<&str>) -> Evenement {
    Evenement {
        step: Some(step),
        tool: Some(tool.into()),
        ok: Some(ok),
        error_code: code.map(Into::into),
        ..evenement(seq, "tool.result")
    }
}

fn refus(seq: u64, step: Option<u64>, reason: &str, path: Option<&str>) -> Evenement {
    Evenement {
        step,
        reason: Some(reason.into()),
        path: path.map(Into::into),
        ..evenement(seq, "policy.deny")
    }
}

fn requete(seq: u64, hote: &str, out: u64, inn: u64, statut: u64) -> Evenement {
    Evenement {
        host: Some(hote.into()),
        method: Some("CONNECT".into()),
        bytes_out: Some(out),
        bytes_in: Some(inn),
        status: Some(statut),
        ..evenement(seq, "net.request")
    }
}

fn refus_reseau(seq: u64, kind: &str, hote: &str, reason: &str) -> Evenement {
    Evenement {
        host: Some(hote.into()),
        reason: Some(reason.into()),
        ..evenement(seq, kind)
    }
}

fn sortie(hote: &str, sortis: u64, recus: u64) -> Option<Sortie> {
    Some(Sortie {
        hote: hote.into(),
        methode: "CONNECT".into(),
        sortis,
        recus,
    })
}

#[test]
fn une_decision_qui_attend_se_dit_une_fois_avec_le_motif_du_modele() {
    let mut missions = Missions::new(false, false);
    missions.set_announce(true);
    let decision = Decision {
        question: "Envoyer le paiement ?".to_owned(),
        consequence: "L'argent part et ne revient pas.".to_owned(),
        motif: Some("le tarif expire ce soir".to_owned()),
        tache: "t1".to_owned(),
        depuis_secondes: 3,
        irreversible: true,
    };
    missions.dire_la_decision(Some(&decision));
    assert_eq!(
        missions.take_announcement().as_deref(),
        Some(
            "Décision demandée par la mission t1. Envoyer le paiement L'argent part et ne revient pas. Le modèle dit : le tarif expire ce soir. Dites « accorde » ou « refuse »."
        )
    );
    // La même décision, image après image, ne se redit pas ; l'attente qui s'allonge non plus.
    let plus_tard = Decision {
        depuis_secondes: 40,
        ..decision.clone()
    };
    missions.dire_la_decision(Some(&plus_tard));
    assert!(missions.take_announcement().is_none());
    // Une autre question se dit ; sans motif, la phrase n'en invente pas.
    let autre = Decision {
        question: "Supprimer le dossier ?".to_owned(),
        motif: None,
        ..decision.clone()
    };
    missions.dire_la_decision(Some(&autre));
    let dite = missions.take_announcement().unwrap();
    assert!(
        dite.starts_with("Décision demandée par la mission t1. Supprimer le dossier"),
        "{dite}"
    );
    assert!(!dite.contains("Le modèle dit"), "{dite}");
    // Plus de décision, puis la même revient : elle se redit.
    missions.dire_la_decision(None);
    missions.dire_la_decision(Some(&decision));
    assert!(missions.take_announcement().is_some());
    // Lecture coupée : rien n'est dit.
    missions.set_announce(false);
    missions.dire_la_decision(None);
    missions.dire_la_decision(Some(&decision));
    assert!(missions.take_announcement().is_none());
    assert_eq!(
        phrase_de_decision(&autre),
        "Décision demandée par la mission t1. Supprimer le dossier L'argent part et ne revient pas. Dites « accorde » ou « refuse »."
    );
}

#[test]
fn changer_de_selection_ecarte_la_reponse_de_la_mission_precedente() {
    let mut missions = Missions::new(false, false);
    missions.select(Some("a"));
    let old = missions.revision;
    missions.select(Some("b"));
    missions.recevoir_inspection(old, Ok(inspection("a", State::Planned)));
    assert!(missions.snapshot().is_none());
    assert!(missions.command(Action::Start).is_err());
    let revision = missions.revision;
    missions.recevoir_inspection(revision, Ok(inspection("b", State::Running)));
    assert_eq!(missions.snapshot().unwrap().id, "b");
}

/// Une mission regardée pendant qu'elle court, puis finie : sa fin est à dire, une fois. Une
/// mission déjà finie quand on la choisit ne l'est pas, et l'écoute coupée ne dit rien.
#[test]
fn la_fin_d_une_mission_regardee_est_dite_une_fois() {
    let mut missions = Missions::new(false, false);
    missions.set_announce(true);
    missions.select(Some("a"));
    let r = missions.revision;
    assert!(!missions.recevoir_inspection(r, Ok(inspection("a", State::Running))));
    assert!(missions.take_announcement().is_none());
    assert!(missions.recevoir_inspection(r, Ok(inspection("a", State::Done))));
    missions.annoncer("Mission terminée.".into());
    assert_eq!(missions.take_announcement().as_deref(), Some("Mission terminée."));
    // Une relecture du même état ne redit rien.
    assert!(!missions.recevoir_inspection(r, Ok(inspection("a", State::Done))));
    // Une mission choisie déjà finie n'est pas lue.
    missions.select(Some("b"));
    let r = missions.revision;
    assert!(!missions.recevoir_inspection(r, Ok(inspection("b", State::Done))));
    // Écoute coupée : une fin regardée reste muette.
    missions.set_announce(false);
    missions.select(Some("c"));
    let r = missions.revision;
    for state in [State::Running, State::Failed] {
        assert!(!missions.recevoir_inspection(r, Ok(inspection("c", state))));
    }
    assert!(missions.take_announcement().is_none());
    // Revenue sur « a », relue courante puis finie : sa fin a déjà été dite.
    missions.set_announce(true);
    missions.select(Some("a"));
    let r = missions.revision;
    assert!(!missions.recevoir_inspection(r, Ok(inspection("a", State::Running))));
    assert!(!missions.recevoir_inspection(r, Ok(inspection("a", State::Done))));
}

#[test]
fn un_arret_acquitte_ne_devient_pas_une_fin_optimiste() {
    let mut missions = Missions::new(false, false);
    missions.select(Some("a"));
    missions.snapshot = Some(inspection("a", State::Running));
    missions.recevoir_action(
        "a".into(),
        Action::Cancel,
        Ok(Accuse {
            cancel_requested: Some("a".into()),
            ..Accuse::default()
        }),
    );
    assert_eq!(missions.snapshot().unwrap().etat, State::Running);
    assert!(missions.busy());
    assert!(!missions.notice().unwrap().error);
    assert!(missions.command(Action::Cancel).is_err());
    let revision = missions.revision;
    missions.recevoir_inspection(revision, Ok(inspection("a", State::Cancelled)));
    assert_eq!(missions.snapshot().unwrap().etat, State::Cancelled);
    assert!(!missions.busy());
    assert!(missions.notice().is_none());
}

#[test]
fn publier_et_annuler_exigent_les_droits_recus_et_un_acquittement_nominatif() {
    let mut missions = Missions::new(false, false);
    missions.select(Some("a"));
    let mut done = inspection("a", State::Done);
    assert!(missions.command(Action::Apply).is_err(), "détail absent");
    missions.snapshot = Some(done.clone());
    assert!(
        missions.command(Action::Apply).is_err(),
        "sans can_apply, aucune publication n'est envoyée"
    );
    done.can_apply = true;
    missions.snapshot = Some(done);
    // Sans socket, la commande est refusée avant tout envoi ; l'acquittement se vérifie seul.
    assert!(missions.command(Action::Apply).is_err());
    missions.recevoir_action(
        "a".into(),
        Action::Apply,
        Ok(Accuse {
            applied: Some("b".into()),
            ..Accuse::default()
        }),
    );
    let notice = missions.notice().unwrap();
    assert!(notice.error, "un acquittement pour une autre mission ne vaut rien");
    missions.recevoir_action(
        "a".into(),
        Action::Undo,
        Ok(Accuse {
            undone: Some("a".into()),
            ..Accuse::default()
        }),
    );
    let notice = missions.notice().unwrap();
    assert!(!notice.error, "{}", notice.text);
    assert!(notice.text.contains("annulée"), "{}", notice.text);
}

#[test]
fn une_commande_invalide_et_sa_relecture_ancienne_ne_confirment_rien() {
    let mut missions = Missions::new(false, false);
    missions.select(Some("a"));
    let old = missions.revision;
    missions.recevoir_action(
        "a".into(),
        Action::Start,
        Ok(Accuse {
            started: Some("b".into()),
            ..Accuse::default()
        }),
    );
    missions.recevoir_inspection(old, Ok(inspection("a", State::Planned)));
    assert!(missions.snapshot().is_none());
    assert!(missions.busy());
    assert!(missions.notice().unwrap().error);
    assert!(missions
        .notice()
        .unwrap()
        .text
        .contains("Aucun nouvel envoi automatique"));
    missions.select(Some("b"));
    assert!(missions.notice().is_none());
}

#[test]
fn une_erreur_de_lecture_retire_le_detail_et_ses_commandes() {
    let mut missions = Missions::new(false, false);
    missions.select(Some("a"));
    missions.snapshot = Some(inspection("a", State::Planned));
    let revision = missions.revision;
    missions.recevoir_inspection(revision, Err("service absent".into()));
    assert!(missions.snapshot().is_none());
    assert_eq!(missions.error().map(String::as_str), Some("service absent"));
    assert!(missions.command(Action::Start).is_err());
}

fn tache(id: &str, state: State, historique: usize) -> Tache {
    Tache {
        id: id.into(),
        intent: "Objectif de test".into(),
        driver: None,
        agent: "prophet".into(),
        state,
        etapes: 0,
        secondes: 60,
        historique,
    }
}

#[test]
fn liste_et_inspecteur_ne_montrent_pas_deux_etats_contradictoires() {
    let mut missions = Missions::new(false, false);
    let mut info = inspection("a", State::Cancelled);
    info.historique = vec![State::Pending, State::Planned, State::Running, State::Cancelled];
    let mut scene = scene_de(
        &[tache("a", State::Running, 1)],
        &[],
        0,
        None,
        String::new(),
        String::new(),
        0,
    );
    missions.snapshot = Some(info);
    assert!(missions.align_scene(&mut scene));
    assert_eq!(scene.courants[0].task_state, Some(State::Cancelled));
    assert_eq!(scene.actives(), 0);
    assert!(missions.snapshot().is_some());

    // Dans l'autre sens, une liste plus récente invalide l'ancien bouton de lancement.
    missions.snapshot = Some(inspection("a", State::Planned));
    assert!(!missions.align_scene(&mut scene));
    assert!(missions.snapshot().is_none());
    assert!(missions.command(Action::Start).is_err());
    assert_eq!(scene.courants[0].task_state, Some(State::Cancelled));

    // Une reprise repasse par Running : la simple présence dans l'historique ne date pas l'état.
    let mut paused = inspection("a", State::Paused);
    paused.historique = vec![State::Pending, State::Planned, State::Running, State::Paused];
    let mut scene = scene_de(
        &[tache("a", State::Running, 5)],
        &[],
        0,
        None,
        String::new(),
        String::new(),
        0,
    );
    missions.snapshot = Some(paused);
    assert!(!missions.align_scene(&mut scene));
    assert_eq!(scene.courants[0].task_state, Some(State::Running));
    assert!(missions.snapshot().is_none());
}

#[test]
fn une_lecture_et_une_commande_au_plus_sont_en_vol() {
    let mut missions = Missions::new(true, false);
    assert!(missions.lecture_a_lancer(true).is_none(), "rien n'est choisi");
    missions.select(Some("a"));
    let (id, revision) = missions.lecture_a_lancer(false).expect("la sélection se lit aussitôt");
    assert_eq!((id.as_str(), revision), ("a", missions.revision));
    assert!(missions.lecture_a_lancer(true).is_none(), "une lecture est en vol");
    let mut detail = inspection("a", State::Planned);
    detail.changements = vec!["docs/note.md".into()];
    missions.recevoir_inspection(revision, Ok(detail));
    assert!(missions.lecture_a_lancer(false).is_none(), "l'échéance n'est pas passée");
    assert_eq!(missions.command(Action::Start).as_deref(), Ok("a"));
    assert_eq!(Action::Start.methode(), "task.start");
    assert!(missions.busy());
    assert_eq!(
        missions.command(Action::Start).unwrap_err(),
        "Une commande attend encore sa confirmation."
    );
    assert!(missions.open_file("docs/note.md").is_err(), "la mission n'est pas finie");
    missions.brancher_journal();
    assert_eq!(missions.parcours_a_lire(false).map(|l| l.2), Some(0));
    assert!(missions.parcours_a_lire(true).is_none());
    missions.recevoir_parcours(missions.revision, Ok((vec![appel(4, 1, "fs.write", None)], true)));
    assert_eq!(missions.trail().len(), 1);
    assert_eq!(missions.parcours_a_lire(false).map(|l| l.2), Some(5));
}

#[test]
fn un_fichier_du_resultat_s_ouvre_dans_la_revue() {
    let mut missions = Missions::new(true, false);
    missions.select(Some("a"));
    let mut detail = inspection("a", State::Done);
    detail.changements = vec!["docs/note.md".into()];
    missions.recevoir_inspection(missions.revision, Ok(detail));
    assert_eq!(
        missions.open_file("ailleurs.md").unwrap_err(),
        "Ce fichier n'est pas disponible dans le résultat de la mission."
    );
    assert!(missions.open_file("docs/note.md").is_ok());
    assert_eq!(missions.files.path.as_deref(), Some("docs/note.md"));
    assert!(missions.files.loading());
    let (tache, chemin, _) = missions.files.a_lire(true).expect("la lecture part");
    assert_eq!((tache.as_str(), chemin.as_str()), ("a", "docs/note.md"));
}

#[test]
fn le_parcours_relie_chaque_appel_a_son_issue_sans_le_contenu() {
    let events = vec![
        appel(1, 1, "web.open", Some("exemple.fr")),
        resultat(2, 1, "web.open", true, None),
        appel(3, 2, "fs.write", Some("docs/note.txt")),
        resultat(4, 2, "fs.write", false, Some("PolicyDenied")),
        refus(5, None, "RevokedParent", Some("docs/note.txt")),
        evenement(6, "fs.commit"),
        Evenement {
            step: Some(3),
            missing: Some(vec!["~/docs/out/total.txt".into()]),
            ..evenement(7, "task.reminded")
        },
        // Un refus de capd à l'étape d'un appel devient l'issue de cet appel, qu'il arrive
        // avant ou après le résultat d'outil.
        appel(8, 4, "fs.write", Some("ailleurs/x.txt")),
        refus(9, Some(4), "NoGrant", None),
        resultat(10, 4, "fs.write", false, Some("PolicyDenied")),
        appel(11, 5, "fs.write", Some("ailleurs/y.txt")),
        resultat(12, 5, "fs.write", false, Some("PolicyDenied")),
        refus(13, Some(5), "NoGrant", None),
    ];
    let trail = trail_from(&events);
    assert_eq!(trail.len(), 7);
    assert_eq!(trail[5].tool, "fs.write");
    assert_eq!(trail[5].outcome, Outcome::Denied("NoGrant".into()));
    assert_eq!(trail[6].outcome, Outcome::Denied("NoGrant".into()));
    assert_eq!(trail[4].tool, "rappel");
    assert_eq!(trail[4].target.as_deref(), Some("~/docs/out/total.txt"));
    assert_eq!(trail[0].tool, "web.open");
    assert_eq!(trail[0].target.as_deref(), Some("exemple.fr"));
    assert_eq!(trail[0].outcome, Outcome::Success);
    assert_eq!(trail[1].outcome, Outcome::Error("PolicyDenied".into()));
    assert_eq!(trail[2].outcome, Outcome::Denied("RevokedParent".into()));
    assert_eq!(trail[3].tool, "publication");
}

#[test]
fn les_sorties_reseau_prennent_place_dans_le_parcours() {
    let events = vec![
        requete(1, "api.anthropic.com", 12_400, 48_000, 200),
        Evenement {
            method: Some("GET".into()),
            ..requete(2, "exemple.fr", 90, 512, 404)
        },
        refus_reseau(3, "net.deny", "ailleurs.fr", "no_grant"),
        refus_reseau(4, "net.exfil_suspected", "fuite.fr", "volume inhabituel"),
    ];
    let trail = trail_from(&events);
    assert_eq!(trail.len(), 4);
    assert!(trail.iter().all(|e| e.tool == "sortie"));
    assert_eq!(trail[0].sortie, sortie("api.anthropic.com", 12_400, 48_000));
    assert_eq!(trail[0].outcome, Outcome::Success);
    assert_eq!(trail[1].outcome, Outcome::Error("HTTP 404".into()));
    assert_eq!(trail[2].target.as_deref(), Some("ailleurs.fr"));
    assert_eq!(trail[2].outcome, Outcome::Denied("no_grant".into()));
    assert_eq!(
        trail[3].outcome,
        Outcome::Denied("exfiltration suspectée : volume inhabituel".into())
    );
    assert!(trail.iter().all(|e| e.fois == 1));
}

#[test]
fn des_sorties_successives_vers_le_meme_hote_se_reunissent_sur_une_ligne() {
    let events = vec![
        requete(1, "api.anthropic.com", 1_000, 4_000, 200),
        requete(2, "api.anthropic.com", 1_000, 4_000, 200),
        requete(3, "api.anthropic.com", 1_000, 4_000, 200),
        // Une autre issue ouvre une autre ligne.
        requete(4, "api.anthropic.com", 1_000, 4_000, 503),
        refus_reseau(5, "net.deny", "collecte.exemple", "no_grant"),
        refus_reseau(6, "net.deny", "collecte.exemple", "no_grant"),
        // Un geste de l'agent coupe la suite : la chronologie tient.
        appel(7, 1, "fs.write", Some("/maison/note.txt")),
        requete(8, "api.anthropic.com", 1_000, 4_000, 200),
        requete(9, "exemple.org", 1_000, 4_000, 200),
    ];
    let trail = trail_from(&events);
    let lignes: Vec<_> = trail
        .iter()
        .map(|e| (e.target.clone(), e.sortie.clone(), e.fois))
        .collect();
    assert_eq!(
        lignes,
        vec![
            (None, sortie("api.anthropic.com", 3_000, 12_000), 3),
            (None, sortie("api.anthropic.com", 1_000, 4_000), 1),
            (Some("collecte.exemple".to_owned()), None, 2),
            (Some("/maison/note.txt".to_owned()), None, 1),
            (None, sortie("api.anthropic.com", 1_000, 4_000), 1),
            (None, sortie("exemple.org", 1_000, 4_000), 1),
        ]
    );
    assert_eq!(trail[1].outcome, Outcome::Error("HTTP 503".into()));
    assert_eq!(trail[2].outcome, Outcome::Denied("no_grant".into()));
}

#[test]
fn relire_le_journal_ne_change_rien_a_ce_qui_est_lu() {
    let events = vec![
        appel(1, 1, "web.open", Some("exemple.fr")),
        resultat(2, 1, "web.open", true, None),
    ];
    let mut parcours = surface::missions::Parcours::new();
    parcours.ajouter(&events);
    let une_fois = parcours.gestes().to_vec();
    parcours.ajouter(&events);
    assert_eq!(parcours.gestes(), une_fois.as_slice());
    assert_eq!(parcours.suivant(), 3);
}

#[test]
fn une_longue_mission_se_rattrape_page_par_page() {
    let page = |debut: u64, n: u64| -> Vec<Evenement> {
        (debut..debut + n).map(|s| evenement(s, "fs.commit")).collect()
    };
    let mut lecture = LectureDuJournal::new(1);
    assert_eq!(lecture.page_a_lire(), Some((1, 400)));
    lecture.recevoir_page(page(1, 400));
    assert_eq!(lecture.page_a_lire(), Some((401, 400)));
    lecture.recevoir_page(page(401, 12));
    assert_eq!(lecture.finie, Some(false), "une page incomplète finit la relecture");
    assert_eq!(lecture.lus.len(), 412);
    assert!(lecture.page_a_lire().is_none());
    // Dix pages pleines : il reste à lire.
    let mut longue = LectureDuJournal::new(0);
    for k in 0..10 {
        longue.recevoir_page(page(k * 400, 400));
    }
    assert_eq!(longue.finie, Some(true));
    assert_eq!(longue.depuis, 4_000);
    // Une page sans numéro ne permet pas d'avancer.
    let mut muette = LectureDuJournal::new(7);
    muette.recevoir_page(vec![Evenement::default()]);
    assert_eq!((muette.finie, muette.lus.len(), muette.depuis), (Some(false), 0, 7));
}
