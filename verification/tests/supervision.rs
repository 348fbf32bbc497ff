use surface::arret::Arret;
use surface::atelier::ClientCard;
use surface::fenetre::Reponse;
use surface::scene::{Courant, Decision, Etat, Isolation, Reserve, Scene};
use surface::supervision::{
    bouton_d_arret, erreur_de_l_ordre, etat_du_client, geste_de_l_ordre, groupes,
    lire_inventaire, oubli, reserve_en_mots, visibles_et_selection, EtatDuClient, Filtre, Geste,
    Ordre,
};

#[test]
fn un_grand_nombre_se_lit_par_groupes_de_trois() {
    assert_eq!(groupes(7), "7");
    assert_eq!(groupes(40_960), "40\u{202f}960");
    assert_eq!(groupes(1_048_576), "1\u{202f}048\u{202f}576");
}

#[test]
fn la_reserve_se_dit_pleine_partielle_ou_vide() {
    let pleine = Reserve {
        pretes: 2,
        cible: 2,
        erreur: None,
    };
    assert!(reserve_en_mots(&pleine).starts_with("Réserve : 2 microVM prêtes sur 2"));
    let une = Reserve {
        pretes: 1,
        cible: 2,
        erreur: None,
    };
    assert!(reserve_en_mots(&une).starts_with("Réserve : 1 microVM prête sur 2"));
    let vide = Reserve {
        pretes: 0,
        cible: 2,
        erreur: Some("instantané refusé".into()),
    };
    assert!(reserve_en_mots(&vide).contains("instantané refusé"));
    assert!(reserve_en_mots(&vide).contains("à froid"));
}

#[test]
fn l_oubli_de_la_conversation_se_dit_au_singulier_comme_au_pluriel() {
    assert!(oubli(1).starts_with("Le premier message"));
    assert!(oubli(6).starts_with("Les 6 premiers messages"));
}

#[test]
fn les_filtres_ne_transforment_pas_un_blocage_en_execution() {
    let c = Courant {
        tache: "a".into(),
        intitule: "mission".into(),
        agent: "local".into(),
        etat: Etat::Bloque,
        etapes: 3,
        secondes: 60,
        task_state: None,
        task_revision: 0,
    };
    assert!(Filtre::Attention.inclut(&c));
    assert!(!Filtre::Actives.inclut(&c));
    assert!(!Filtre::Terminees.inclut(&c));
}

#[test]
fn un_releve_se_lit_avec_ses_manques_et_sans_ses_vides() {
    let releve = lire_inventaire(
        "  processeur : 8 cœurs, AMD Ryzen 5\n\n! son : aucune carte détectée\n  TPM : présent\n",
    );
    assert_eq!(
        releve,
        vec![
            (false, "processeur : 8 cœurs, AMD Ryzen 5".to_owned()),
            (true, "son : aucune carte détectée".to_owned()),
            (false, "TPM : présent".to_owned()),
        ]
    );
    assert!(lire_inventaire("").is_empty());
}

/// Les libellés que le pilote donne à une connexion requise et à une session non vérifiée.
const CONNEXION_REQUISE: &str = "connexion requise";
const INCONNUE: &str = "état inconnu";

#[test]
fn la_carte_d_un_client_ne_repete_pas_son_etat_et_dit_une_sonde_incertaine() {
    let carte = |present: bool, connection: &str, connected: bool| ClientCard {
        driver: "codex".into(),
        present,
        version: None,
        connection: connection.to_owned(),
        connected,
    };
    let etat = |c: &ClientCard| etat_du_client(c, CONNEXION_REQUISE, INCONNUE);
    let (e, label, conseil) = etat(&carte(true, CONNEXION_REQUISE, false));
    assert_eq!(e, EtatDuClient::AConnecter);
    assert_eq!(label, "Installé, connexion requise");
    assert!(!conseil.contains("connexion requise"), "{conseil}");
    let (e, label, _) = etat(&carte(true, INCONNUE, false));
    assert_eq!(e, EtatDuClient::Incertain);
    assert_eq!(label, "Installé, session non vérifiée");
    let (e, label, _) = etat(&carte(true, "diagnostic en échec", false));
    assert_eq!(e, EtatDuClient::Incertain);
    assert_eq!(label, "Installé, diagnostic en échec");
    assert_eq!(etat(&carte(true, "connecté", true)).0, EtatDuClient::Pret);
    assert_eq!(etat(&carte(false, "client absent", false)).0, EtatDuClient::Absent);
    assert_eq!(
        etat(&carte(false, "client absent", false)).1,
        "Absent de cette machine"
    );
}

fn page(decision: Option<&str>) -> Scene {
    let courant = |tache: &str, intitule: &str, agent: &str, etat| Courant {
        tache: tache.into(),
        intitule: intitule.into(),
        agent: agent.into(),
        etat,
        etapes: 3,
        secondes: 60,
        task_state: None,
        task_revision: 0,
    };
    Scene {
        heure: "14:37".into(),
        date: "jeudi".into(),
        courants: vec![
            courant("a", "Réserver un billet", "codex", Etat::Court),
            courant("b", "Comparer les offres", "gemini", Etat::Bloque),
            courant("c", "Relire la branche", "local", Etat::Attend),
            courant("d", "Résumer la nuit", "codex", Etat::Fini),
        ],
        decision: decision.map(|t| Decision {
            question: "Payer ?".into(),
            consequence: "L'argent part.".into(),
            motif: None,
            tache: t.into(),
            depuis_secondes: 3,
            irreversible: true,
        }),
        isolation: Isolation {
            niveau_max: 1,
            manque: None,
            reserve: None,
        },
    }
}

#[test]
fn la_recherche_compare_sans_blancs_ni_majuscules() {
    let (v, s) = visibles_et_selection(&page(None), Filtre::Toutes, "  BILLET ", None);
    assert_eq!(v, [0]);
    assert_eq!(s.as_deref(), Some("a"));
    let (v, _) = visibles_et_selection(&page(None), Filtre::Toutes, "RÉSUMER", None);
    assert_eq!(v, [3]);
    let (v, _) = visibles_et_selection(&page(None), Filtre::Toutes, "codex", None);
    assert_eq!(v, [0, 3]);
    let (v, s) = visibles_et_selection(&page(None), Filtre::Toutes, "introuvable", Some("a"));
    assert!(v.is_empty());
    assert_eq!(s, None);
}

#[test]
fn la_selection_reste_visible_sinon_la_decision_puis_ce_qui_reclame() {
    let tout = |selection, decision| {
        visibles_et_selection(&page(decision), Filtre::Toutes, "", selection).1
    };
    assert_eq!(tout(Some("d"), Some("c")).as_deref(), Some("d"));
    assert_eq!(tout(Some("zz"), Some("c")).as_deref(), Some("c"));
    assert_eq!(tout(None, None).as_deref(), Some("b"));
    let (v, s) = visibles_et_selection(&page(Some("b")), Filtre::Actives, "", Some("b"));
    assert_eq!(v, [0]);
    assert_eq!(s.as_deref(), Some("a"));
    let (v, s) = visibles_et_selection(&page(None), Filtre::Terminees, "", None);
    assert_eq!(v, [3]);
    assert_eq!(s.as_deref(), Some("d"));
}

#[test]
fn les_espaces_fines_tombent_tous_les_quatre_caracteres_depuis_la_fin() {
    for n in [1u64, 12, 123, 1_234, 12_345, 123_456, 1_234_567, u64::MAX] {
        let r: Vec<char> = groupes(n).chars().collect();
        let chiffres = n.to_string().len();
        assert_eq!(r.len(), chiffres + (chiffres - 1) / 3);
        for (q, c) in r.iter().enumerate() {
            assert_eq!(*c == '\u{202f}', q > 0 && (r.len() - q) % 4 == 0, "{n} à {q}");
        }
    }
}

#[test]
fn le_bouton_d_arret_n_apparait_que_s_il_y_a_quelque_chose_a_arreter() {
    let mut arret = Arret::connect();
    assert_eq!(bouton_d_arret(&page(None), &arret), Some("Tout arrêter"));
    let mut vide = page(None);
    vide.courants.clear();
    assert_eq!(bouton_d_arret(&vide, &arret), None);
    arret.demander();
    assert!(arret.confirmer());
    assert_eq!(bouton_d_arret(&vide, &arret), Some("Arrêt…"));
}

#[test]
fn accorder_a_la_voix_ne_vaut_que_si_une_decision_est_montree() {
    assert_eq!(geste_de_l_ordre(Ordre::Accorder, true), Geste::Repondre(Reponse::Accepte));
    assert_eq!(geste_de_l_ordre(Ordre::Refuser, true), Geste::Repondre(Reponse::Refuse));
    assert_eq!(
        geste_de_l_ordre(Ordre::Refuser, false),
        Geste::Signaler("« accorde » / « refuse » : aucune décision n'attend.".into())
    );
    assert_eq!(geste_de_l_ordre(Ordre::Preparer, false), Geste::Preparer);
    assert_eq!(geste_de_l_ordre(Ordre::Lancer, true), Geste::Lancer);
    assert_eq!(geste_de_l_ordre(Ordre::Resultat, true), Geste::DireLeResultat);
    assert_eq!(geste_de_l_ordre(Ordre::Ouvrir("notes".into()), true), Geste::Ouvrir("notes".into()));
    assert_eq!(geste_de_l_ordre(Ordre::Intention, true), Geste::Rien);
}

#[test]
fn l_echec_d_un_ordre_se_dit_avec_l_ordre() {
    assert_eq!(
        erreur_de_l_ordre(&Ordre::Preparer, "Service de mission absent."),
        "« prépare » : Service de mission absent."
    );
    assert_eq!(
        erreur_de_l_ordre(&Ordre::Lancer, "Aucune mission choisie."),
        "« lance la mission » : Aucune mission choisie."
    );
    assert_eq!(
        erreur_de_l_ordre(&Ordre::Ouvrir("notes".into()), ""),
        "« ouvre notes » : pas de lanceur du bureau sur cette machine."
    );
}
