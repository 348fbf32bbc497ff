use surface::atelier::{
    AuMoteurMontre, EtatDuPoids, Origine, catalogue_d_exemple, clients_d_exemple, refus_de_commande, Atelier, AuMoteur, CommandeDePoids,
    EntreeCatalogue, Evenement, Mesure, Page, Relecture, Role, Servi, SuiviDePoids, Tour,
};

fn mesure(texte: &str) -> Mesure {
    Mesure {
        texte: texte.into(),
        jetons_entrants: 1,
        jetons_sortants: 1,
        duree_ms: 1,
        premier_jeton_ms: None,
        oublies: 0,
    }
}

fn tour_fini(demande: &str, reponse: &str) -> Tour {
    Tour {
        demande: demande.into(),
        modele: "m".into(),
        reponse: reponse.into(),
        mesure: Some(mesure(reponse)),
        erreur: None,
    }
}

fn entree(id: &str, installed: bool, etat_au_moteur: Option<&str>) -> EntreeCatalogue {
    EntreeCatalogue {
        id: id.into(),
        installed,
        au_moteur: etat_au_moteur.map(|e| AuMoteur {
            nom: id.into(),
            etat: Some(e.into()),
        }),
        ..EntreeCatalogue::default()
    }
}

#[test]
fn une_reponse_tardive_ne_contamine_pas_la_nouvelle_conversation() {
    let mut atelier = Atelier::nouveau("http://127.0.0.1:1/v1".into(), false);
    atelier.nouvelle();
    atelier.recevoir(Evenement::Fragment(0, "ancien résultat".into()));
    assert!(atelier.tours.is_empty());
    assert!(!atelier.generation);
}

#[test]
fn une_longue_conversation_envoie_ses_tours_recents_au_lieu_de_s_arreter() {
    // Soixante échanges d'un kilo-octet : la conversation continue, avec les tours les plus
    // récents qui tiennent, et dit combien de messages sont restés de côté.
    let mut atelier = Atelier::nouveau("http://127.0.0.1:1/v1".into(), false);
    for i in 0..60 {
        atelier.tours.push(tour_fini(
            &format!("question {i} {}", "q".repeat(500)),
            &format!("réponse {i} {}", "r".repeat(500)),
        ));
    }
    atelier.brouillon = "Et maintenant ?".into();
    let (history, omis) = atelier.historique().unwrap();
    let taille: usize = history.iter().map(|m| m.content.len()).sum();
    assert!(taille <= 32_768, "{taille}");
    assert!(omis > 0 && omis % 2 == 0, "{omis}");
    assert_eq!(history.len() + omis, 60 * 2 + 1);
    assert_eq!(history[0].role, Role::User);
    assert_eq!(history[0].role.nom(), "user");
    assert!(history[0]
        .content
        .starts_with(&format!("question {}", omis / 2)));
    assert_eq!(history.last().unwrap().content, "Et maintenant ?");
    // Une conversation courte part entière.
    let mut courte = Atelier::nouveau("http://127.0.0.1:1/v1".into(), false);
    courte.tours.push(tour_fini("Bonjour", "Salut"));
    courte.brouillon = "Ça va ?".into();
    let (history, omis) = courte.historique().unwrap();
    assert_eq!((history.len(), omis), (3, 0));
}

#[test]
fn le_modele_absent_et_le_contexte_trop_grand_ne_declenchent_pas_de_requete() {
    let mut atelier = Atelier::nouveau("http://127.0.0.1:1/v1".into(), false);
    atelier.brouillon = "Bonjour".into();
    assert!(atelier.envoyer().is_none());
    assert!(!atelier.generation);
    assert!(atelier.erreur.is_some());
    atelier.brouillon = "a".repeat(16_385);
    assert!(atelier.historique().is_err());
}

#[test]
fn le_budget_garde_le_tour_suivant_dehors_et_les_tours_inacheves_ne_partent_pas() {
    let mut atelier = Atelier::nouveau("e".into(), false);
    // Un tour interrompu n'a pas de mesure : il ne part pas.
    atelier.tours.push(Tour {
        demande: "perdu".into(),
        modele: "m".into(),
        reponse: "partiel".into(),
        mesure: None,
        erreur: Some("coupé".into()),
    });
    atelier.tours.push(tour_fini(&"a".repeat(21_000), "b"));
    atelier.tours.push(tour_fini(&"c".repeat(10_000), "d"));
    atelier.brouillon = "e".repeat(2_000);
    let (history, omis) = atelier.historique().unwrap();
    // 2 000 + 10 001 tiennent ; ajouter 21 001 dépasserait 32 768.
    assert_eq!(omis, 2);
    assert_eq!(history.len(), 3);
    assert_eq!(history[0].content.len(), 10_000);
    assert_eq!(history[1].role, Role::Assistant);
    assert_eq!(history[1].content, "d");
    let mut long = Atelier::nouveau("e".into(), false);
    for _ in 0..200 {
        long.tours.push(tour_fini("q", "r"));
    }
    long.brouillon = "x".into();
    assert_eq!(
        long.historique().unwrap_err(),
        "Cette conversation atteint sa limite. Ouvrez une nouvelle conversation ou raccourcissez la demande."
    );
}

#[test]
fn un_envoi_ouvre_un_tour_et_seule_sa_generation_le_remplit() {
    let mut atelier = Atelier::nouveau("e".into(), false);
    atelier.recevoir(Evenement::Modeles(Ok(vec!["qwen".into(), "llama".into()])));
    assert_eq!(atelier.choisi, "qwen");
    assert!(atelier.envoyer().is_none(), "un brouillon vide ne part pas");
    atelier.brouillon = "  Bonjour  ".into();
    let envoi = atelier.envoyer().expect("la demande part");
    assert_eq!(envoi.id, 1);
    assert_eq!(envoi.modele, "qwen");
    assert_eq!(envoi.omis, 0);
    assert_eq!(envoi.historique.len(), 1);
    assert_eq!(envoi.historique[0].content, "  Bonjour  ");
    assert!(atelier.generation);
    assert_eq!(atelier.page, Page::Conversation);
    assert!(atelier.brouillon.is_empty());
    assert_eq!(atelier.tours.len(), 1);
    assert!(atelier.envoyer().is_none(), "pas de seconde génération en même temps");
    atelier.recevoir(Evenement::Fragment(1, "Sal".into()));
    atelier.recevoir(Evenement::Fragment(1, "ut".into()));
    atelier.recevoir(Evenement::Fragment(7, " d'ailleurs".into()));
    assert_eq!(atelier.tours[0].reponse, "Salut");
    atelier.recevoir(Evenement::Fin(1, Ok(mesure("Salut !"))));
    assert!(!atelier.generation);
    assert_eq!(atelier.tours[0].reponse, "Salut !");
    assert!(atelier.tours[0].mesure.is_some());
    // Un modèle qui disparaît de la liste est remplacé par le premier ; une panne vide tout.
    atelier.recevoir(Evenement::Modeles(Ok(vec!["llama".into()])));
    assert_eq!(atelier.choisi, "llama");
    atelier.recevoir(Evenement::Modeles(Err("moteur muet".into())));
    assert!(atelier.modeles.is_empty() && atelier.choisi.is_empty());
    assert_eq!(atelier.erreur.as_deref(), Some("moteur muet"));
}

#[test]
fn une_generation_interrompue_garde_sa_reponse_partielle() {
    let mut atelier = Atelier::nouveau("e".into(), false);
    atelier.modeles = vec!["m".into()];
    atelier.choisi = "m".into();
    atelier.brouillon = "Écris".into();
    let envoi = atelier.envoyer().unwrap();
    atelier.recevoir(Evenement::Fragment(envoi.id, "Début".into()));
    atelier.recevoir(Evenement::Fin(
        envoi.id,
        Err("Génération interrompue. La réponse est partielle.".into()),
    ));
    assert_eq!(atelier.tours[0].reponse, "Début");
    assert!(atelier.tours[0].mesure.is_none());
    assert!(atelier.tours[0].erreur.is_some());
    // Ce tour n'a pas de mesure : il ne partira pas avec la suite.
    atelier.brouillon = "Suite".into();
    let (history, omis) = atelier.historique().unwrap();
    assert_eq!((history.len(), omis), (1, 0));
}

#[test]
fn un_poids_pose_fait_relire_les_poids_et_un_poids_servi_les_modeles() {
    let mut atelier = Atelier::nouveau("e".into(), false);
    assert!(atelier.lire_les_poids());
    atelier.recevoir(Evenement::Poids(Some(Servi {
        rang: Some(0),
        fenetre: Some(4096),
    })));
    assert!(atelier.poids_lus);
    atelier.recevoir(Evenement::Catalogue(Ok(vec![entree("a", true, None)])));
    assert_eq!(atelier.poids_poses(), vec!["a".to_owned()]);
    assert!(!atelier.lecture_des_poids && !atelier.poids_lus, "un poids posé fait relire");
    assert!(!atelier.redecouvrir);
    atelier.recevoir(Evenement::Catalogue(Ok(vec![
        entree("a", true, Some("loaded")),
        entree("b", false, Some("loading")),
    ])));
    assert_eq!(atelier.poids_servis(), vec!["a".to_owned()]);
    assert!(atelier.a_redecouvrir());
    assert!(!atelier.a_redecouvrir(), "une seule fois");
    // Relire le même catalogue ne redemande rien.
    atelier.recevoir(Evenement::Catalogue(Ok(vec![
        entree("a", true, Some("loaded")),
        entree("b", false, Some("loading")),
    ])));
    assert!(!atelier.redecouvrir);
    atelier.recevoir(Evenement::ErreurDePoids(refus_de_commande("b", "refusé par capd")));
    assert_eq!(atelier.erreur_de_poids.as_deref(), Some("b : refusé par capd"));
}

#[test]
fn un_telechargement_fait_relire_le_catalogue_plus_souvent() {
    let mut atelier = Atelier::nouveau("e".into(), false);
    assert_eq!(atelier.delai_de_relecture(), 5000);
    assert_eq!(atelier.relire_le_catalogue(None), Relecture::Demandee);
    assert_eq!(
        atelier.relire_le_catalogue(None),
        Relecture::Aucune,
        "une lecture court déjà"
    );
    let mut en_cours = entree("x", false, None);
    en_cours.pull = Some(SuiviDePoids {
        state: "running".into(),
        received: 1,
        total: Some(2),
        error: None,
    });
    assert!(en_cours.en_cours());
    atelier.recevoir(Evenement::Catalogue(Ok(vec![en_cours])));
    assert_eq!(atelier.delai_de_relecture(), 500);
    assert_eq!(atelier.relire_le_catalogue(Some(499)), Relecture::Aucune);
    assert_eq!(atelier.relire_le_catalogue(Some(500)), Relecture::Demandee);
}

#[test]
fn une_demonstration_ne_lit_rien_et_montre_ses_exemples() {
    let mut atelier = Atelier::nouveau("e".into(), true);
    assert!(!atelier.decouvrir());
    assert!(!atelier.sonder_les_clients());
    assert_eq!(atelier.clients.len(), 3);
    assert!(!atelier.sonder_les_clients(), "une seule sonde");
    assert!(!atelier.lire_les_poids());
    assert!(atelier.poids_lus);
    assert_eq!(atelier.relire_le_catalogue(None), Relecture::Exemple);
    let catalogue = catalogue_d_exemple();
    assert_eq!(atelier.poids_poses(), vec!["qwen3-1.7b-q8".to_owned()]);
    assert_eq!(atelier.poids_servis(), vec!["qwen3-1.7b-q8".to_owned()]);
    assert!(catalogue[1].en_cours() && !catalogue[0].en_cours());
    assert!(atelier.commander_un_poids("qwen3-1.7b-q8").is_none());
    assert!(clients_d_exemple()[0].connected);
    atelier.brouillon = "Bonjour".into();
    assert!(atelier.envoyer().is_none());
}

#[test]
fn une_commande_rend_ce_que_le_moteur_disait_du_poids() {
    let mut atelier = Atelier::nouveau("e".into(), false);
    atelier.recevoir(Evenement::Catalogue(Ok(vec![
        entree("a", true, None),
        entree("b", true, Some("loaded")),
    ])));
    atelier.erreur_de_poids = Some("ancien refus".into());
    let avant = atelier.commander_un_poids("b").expect("la commande part");
    assert_eq!(avant.map(|m| m.nom), Some("b".to_owned()));
    assert!(atelier.erreur_de_poids.is_none());
    assert!(atelier.lecture_du_catalogue);
    assert_eq!(atelier.commander_un_poids("inconnu"), Some(None));
    assert_eq!(CommandeDePoids::Telecharger.methode(), Some("model.pull"));
    assert_eq!(CommandeDePoids::Arreter.methode(), Some("model.cancel"));
    assert_eq!(CommandeDePoids::Retirer.methode(), Some("model.remove"));
    assert_eq!(CommandeDePoids::Servir.methode(), None);
    assert!(AuMoteur {
        nom: "m".into(),
        etat: Some("loaded".into())
    }
    .charge());
    assert!(!AuMoteur {
        nom: "m".into(),
        etat: Some("loading".into())
    }
    .charge());
}

#[test]
fn une_nouvelle_conversation_repart_de_l_accueil() {
    let mut atelier = Atelier::nouveau("e".into(), false);
    atelier.tours.push(tour_fini("a", "b"));
    atelier.brouillon = "brouillon".into();
    atelier.erreur = Some("x".into());
    atelier.page = Page::Modeles;
    let avant = atelier.numero;
    atelier.nouvelle();
    assert!(atelier.tours.is_empty() && atelier.brouillon.is_empty());
    assert!(atelier.erreur.is_none());
    assert_eq!(atelier.page, Page::Accueil);
    assert_eq!(atelier.numero, avant + 1);
    assert_eq!(Page::default(), Page::Accueil);
}

#[test]
fn une_entree_du_catalogue_dit_d_abord_ce_qui_court_puis_ce_qui_est_pose() {
    let catalogue = catalogue_d_exemple();
    assert_eq!(
        catalogue[1].etat(false),
        EtatDuPoids::EnCours {
            recus: 397_000_000,
            total: Some(640_000_000)
        }
    );
    assert_eq!(
        catalogue[0].etat(false),
        EtatDuPoids::Pose {
            origine: Origine::Telecharge,
            au_moteur: AuMoteurMontre::Servi("qwen3-1.7b".into())
        }
    );
    assert_eq!(catalogue[2].etat(false), EtatDuPoids::Disponible);
    assert_eq!(catalogue[2].etat(true), EtatDuPoids::TropGrand);
    let mut fourni = entree("f", false, Some("loading"));
    fourni.provided = Some("/nix/store/modele.gguf".into());
    assert_eq!(
        fourni.etat(true),
        EtatDuPoids::Pose {
            origine: Origine::Fourni,
            au_moteur: AuMoteurMontre::Chargement("f".into())
        }
    );
    let mut echoue = entree("e", false, None);
    echoue.pull = Some(SuiviDePoids {
        state: "failed".into(),
        received: 10,
        total: None,
        error: Some("empreinte fausse".into()),
    });
    echoue.partial_bytes = Some(10);
    assert_eq!(echoue.etat(false), EtatDuPoids::Echec("empreinte fausse".into()));
    echoue.pull = None;
    assert_eq!(echoue.etat(true), EtatDuPoids::Interrompu(10));
}
