use surface::mission_details::Relance;
use surface::preparation::{plan_retrouve, Options, Plan, Preparation, ProfileView, Request};

fn demande(id: &str, model: &str) -> Request {
    Request {
        id: id.into(),
        intent: "Objectif humain".into(),
        profile: "docs".into(),
        model: model.into(),
    }
}

fn profil(id: &str, models: &[&str]) -> ProfileView {
    ProfileView {
        id: id.into(),
        name: id.to_uppercase(),
        description: String::new(),
        models: models.iter().map(|m| m.to_string()).collect(),
    }
}

#[test]
fn une_confirmation_incoherente_ne_permet_pas_de_selectionner_une_autre_mission() {
    let mut preparation = Preparation::new(false);
    preparation.attempt = Some(demande("attendu", "local"));
    preparation.pending = true;
    preparation.recevoir_plan(Ok(Plan {
        task: "autre".into(),
        intent: "Objectif humain".into(),
        reference: "local:local".into(),
        sandbox_level: 0,
    }));
    assert!(preparation.take_prepared().is_none());
    assert!(preparation.error().is_some());
    assert_eq!(preparation.attempted_id(), Some("attendu"));
    assert!(preparation.submit().is_err());
}

#[test]
fn un_brouillon_en_vol_ne_peut_pas_etre_efface() {
    let mut preparation = Preparation::new(false);
    preparation.intent = "À conserver".into();
    preparation.pending = true;
    preparation.reset();
    assert_eq!(preparation.intent, "À conserver");
}

#[test]
fn le_modele_d_une_tentative_incertaine_reste_celui_qui_a_ete_envoye() {
    let mut preparation = Preparation::new(false);
    preparation.profile = "docs".into();
    preparation.model = "envoye".into();
    preparation.attempt = Some(demande("tentative", "envoye"));
    preparation.options = Some(Options {
        profiles: vec![profil("docs", &["nouveau"])],
        model_error: None,
    });
    preparation.reconcile();
    assert!(!preparation.discover());
    assert_eq!(preparation.model, "envoye");
    assert!(!preparation.loading());
    assert!(preparation.error().is_none());
}

#[test]
fn une_preparation_part_une_fois_et_son_plan_se_retrouve() {
    let mut preparation = Preparation::new(true);
    assert!(preparation.discover());
    assert!(!preparation.discover(), "une découverte est en vol");
    preparation.recevoir_options(Ok(Options {
        profiles: vec![profil("docs", &["qwen", "llama"]), profil("code", &["codex"])],
        model_error: None,
    }));
    assert_eq!(preparation.profile, "docs");
    assert_eq!(preparation.model, "qwen");
    assert_eq!(preparation.selected().map(|p| p.id.as_str()), Some("docs"));
    preparation.profile = "code".into();
    preparation.reconcile();
    assert_eq!(preparation.model, "codex", "un modèle d'un autre profil n'est pas repris");
    preparation.intent = "  Ranger les notes  ".into();
    let envoyee = preparation.submit().expect("la préparation part");
    assert!(envoyee.id.starts_with("mission-") && envoyee.id.len() == 34, "{}", envoyee.id);
    assert_eq!(envoyee.intent, "Ranger les notes");
    assert_eq!((envoyee.profile.as_str(), envoyee.model.as_str()), ("code", "codex"));
    assert!(preparation.pending());
    assert_eq!(
        preparation.submit().unwrap_err(),
        "Ce brouillon a déjà été envoyé ou attend une réponse."
    );
    assert!(preparation.recover().is_none(), "rien ne part pendant l'attente");
    preparation.recevoir_plan(Err("Le service ne répond pas dans le délai.".into()));
    assert_eq!(
        preparation.error().map(String::as_str),
        Some("Préparation non confirmée : Le service ne répond pas dans le délai.")
    );
    assert!(preparation.submit().is_err(), "une erreur ne provoque jamais une seconde création");
    let id = preparation.recover().expect("seul le plan de la tentative est recherché");
    assert_eq!(id, envoyee.id);
    let plan = Plan {
        task: envoyee.id.clone(),
        intent: "Ranger les notes".into(),
        reference: "local:codex".into(),
        sandbox_level: 1,
    };
    let retrouve = plan_retrouve(&id, &id, Some(plan)).unwrap();
    preparation.recevoir_plan(Ok(retrouve));
    assert!(preparation.error().is_none());
    assert_eq!(preparation.take_prepared().map(|p| p.sandbox_level), Some(1));
    assert!(preparation.take_prepared().is_none(), "transmis une seule fois");
    assert_eq!(
        plan_retrouve("a", "b", None).unwrap_err(),
        "Référence de mission incohérente."
    );
    assert_eq!(
        plan_retrouve("a", "a", None).unwrap_err(),
        "Aucun plan conservé pour cette référence."
    );
}

#[test]
fn sans_service_ni_catalogue_rien_ne_part() {
    let mut preparation = Preparation::new(false);
    assert!(!preparation.discover());
    assert_eq!(
        preparation.error().map(String::as_str),
        Some("La préparation de missions n'est pas connectée à un service.")
    );
    assert_eq!(preparation.submit().unwrap_err(), "Service de mission absent.");
    let mut connectee = Preparation::new(true);
    assert_eq!(connectee.submit().unwrap_err(), "Choisissez un contexte de travail.");
    connectee.recevoir_options(Ok(Options {
        profiles: vec![profil("docs", &[])],
        model_error: None,
    }));
    assert_eq!(
        connectee.submit().unwrap_err(),
        "Choisissez un modèle disponible pour ce contexte."
    );
    connectee.recevoir_options(Err("Catalogue de mission illisible.".into()));
    assert!(connectee.options().is_none());
}

#[test]
fn une_relance_repasse_par_la_preparation_sans_ecraser_un_envoi_en_vol() {
    let relance = || Relance {
        intent: "Rédiger la note".into(),
        model: "qwen".into(),
        profile: Some("documents".into()),
    };
    let mut preparation = Preparation::new(true);
    preparation.attempt = Some(demande("ancienne", "local"));
    assert!(preparation.relancer(relance()), "le catalogue est redemandé");
    assert!(preparation.attempted_id().is_none());
    assert_eq!(preparation.intent, "Rédiger la note");
    assert_eq!(preparation.model, "qwen");
    assert_eq!(preparation.profile, "documents");
    // En vol, la préparation est seulement montrée.
    let mut en_vol = Preparation::new(true);
    en_vol.attempt = Some(demande("envoyee", "local"));
    en_vol.intent = "Objectif envoyé".into();
    en_vol.pending = true;
    assert!(!en_vol.relancer(relance()));
    assert_eq!(en_vol.intent, "Objectif envoyé");
    assert_eq!(en_vol.attempted_id(), Some("envoyee"));
}

#[test]
fn l_objectif_de_l_accueil_devient_celui_de_la_preparation() {
    let mut preparation = Preparation::new(true);
    let mut blanc = "   ".to_owned();
    assert!(!preparation.depuis_l_accueil(&mut blanc));
    assert!(!preparation.loading());
    let mut brouillon = "  Ranger le dossier  ".to_owned();
    assert!(preparation.depuis_l_accueil(&mut brouillon));
    assert_eq!(preparation.intent, "Ranger le dossier");
    assert!(brouillon.is_empty());
    // Une tentative gardée pour sa reprise n'est pas écrasée.
    let mut gardee = Preparation::new(true);
    gardee.attempt = Some(demande("reprise", "local"));
    gardee.error = Some("Préparation non confirmée : délai".into());
    gardee.intent = "Objectif gardé".into();
    let mut brouillon = "Autre chose".to_owned();
    assert!(!gardee.depuis_l_accueil(&mut brouillon));
    assert_eq!(gardee.intent, "Objectif gardé");
    assert_eq!(brouillon, "Autre chose");
}

#[test]
fn une_demande_du_dialogue_devient_un_objectif() {
    let mut preparation = Preparation::new(true);
    assert!(preparation.depuis_la_conversation("  ", Some("Dernière demande")));
    assert_eq!(preparation.intent, "Dernière demande");
    let mut autre = Preparation::new(false);
    assert!(!autre.depuis_la_conversation("Ma demande", None));
    assert_eq!(autre.intent, "Ma demande");
    assert!(autre.error().is_some());
}
