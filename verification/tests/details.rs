use surface::mission_details::{
    commandes, issue_en_mots, limited, motif_lisible, nature, pluriel, publication, status,
    Nature,
};
use surface::missions::{controler_le_detail, Action, Detail, Outcome, TrailEntry};
use surface::presence::Demande;
use surface::scene::{Courant, Decision, Etat, Isolation, Scene, State, WorkspaceState};
use surface::supervision::{a_arreter, empreinte_decision, statut, statut_mission};

fn courant(id: &str, etat: Etat, task_state: Option<State>) -> Courant {
    Courant {
        tache: id.into(),
        intitule: "mission".into(),
        agent: "codex".into(),
        etat,
        etapes: 0,
        secondes: 60,
        task_state,
        task_revision: 0,
    }
}

fn scene(courants: Vec<Courant>, decision: Option<Decision>) -> Scene {
    Scene {
        heure: "14:37".into(),
        date: "jeudi".into(),
        courants,
        decision,
        isolation: Isolation {
            niveau_max: 1,
            manque: None,
            reserve: None,
        },
    }
}

#[test]
fn un_texte_trop_long_se_coupe_d_un_point_de_suspension() {
    assert_eq!(limited("Objectif", 90), "Objectif");
    assert_eq!(limited("Réserver un billet", 7), "Réserve…");
    assert_eq!(limited("", 0), "");
    assert_eq!(pluriel(1), "");
    assert_eq!(pluriel(2), "s");
}

#[test]
fn chaque_etat_et_chaque_issue_se_disent_en_mots() {
    assert_eq!(status(State::WaitingApproval), "Votre décision");
    assert_eq!(status(State::RolledBack), "Changements annulés");
    assert!(publication(WorkspaceState::Committed).starts_with("Versions publiées"));
    assert_eq!(issue_en_mots(&Outcome::Pending), "en cours");
    assert_eq!(issue_en_mots(&Outcome::Success), "réussi");
    assert_eq!(issue_en_mots(&Outcome::Error("E42".into())), "en erreur (E42)");
    assert!(issue_en_mots(&Outcome::Denied("NoGrant".into())).starts_with("refusé ("));
    assert_eq!(motif_lisible("NoGrant"), "aucun droit ne le permet");
    assert_eq!(motif_lisible("RevokedParent"), "droits retirés");
    let geste = |tool: &str| TrailEntry {
        seq: 0,
        step: None,
        tool: tool.into(),
        target: None,
        outcome: Outcome::Success,
        fois: 1,
        sortie: None,
    };
    assert_eq!(nature(&geste("refus")), Nature::Refus);
    assert_eq!(nature(&geste("annulation")), Nature::Publication);
    assert_eq!(nature(&geste("sortie")), Nature::Sortie);
    assert_eq!(nature(&geste("fs.write")), Nature::Appel);
}

#[test]
fn l_arret_d_urgence_compte_ce_qui_n_est_pas_fini() {
    let s = scene(
        vec![
            courant("a", Etat::Court, Some(State::Running)),
            courant("b", Etat::Fini, None),
            courant("c", Etat::Bloque, Some(State::Failed)),
            courant("d", Etat::Attend, None),
        ],
        None,
    );
    assert_eq!(a_arreter(&s), 2);
    assert_eq!(statut_mission(&s.courants[2]), "Échec");
    assert_eq!(statut_mission(&s.courants[3]), statut(Etat::Attend));
}

#[test]
fn l_empreinte_d_une_decision_change_avec_elle() {
    let d = Decision {
        question: "Payer ?".into(),
        consequence: "L'argent part.".into(),
        motif: None,
        tache: "t1".into(),
        depuis_secondes: 3,
        irreversible: true,
    };
    let avant = empreinte_decision(&scene(vec![], Some(d.clone())));
    assert_eq!(avant.as_deref(), Some("t1\0Payer ?\0L'argent part.\0true\0"));
    let plus_tard = empreinte_decision(&scene(
        vec![],
        Some(Decision {
            depuis_secondes: 40,
            ..d.clone()
        }),
    ));
    assert_eq!(avant, plus_tard, "l'attente qui s'allonge ne change pas la décision");
    let motivee = empreinte_decision(&scene(
        vec![],
        Some(Decision {
            motif: Some("urgent".into()),
            ..d
        }),
    ));
    assert_ne!(avant, motivee);
    assert!(empreinte_decision(&scene(vec![], None)).is_none());
}

#[test]
fn un_detail_recu_doit_etre_celui_de_la_mission_demandee() {
    let detail = |id: &str, plan: Option<&str>, can_start: bool, etat: State| Detail {
        id: id.into(),
        etat,
        historique: vec![],
        plan: plan.map(Into::into),
        etapes: 0,
        secondes: 60,
        can_start,
        can_cancel: false,
        can_apply: false,
        can_undo: false,
        publication: None,
        changements: vec![],
    };
    assert!(controler_le_detail("a", detail("a", Some("a"), true, State::Planned)).is_ok());
    assert!(controler_le_detail("a", detail("b", None, false, State::Running)).is_err());
    assert!(controler_le_detail("a", detail("a", Some("b"), false, State::Running)).is_err());
    assert_eq!(
        controler_le_detail("a", detail("a", None, true, State::Running)).unwrap_err(),
        "Le détail reçu ne correspond pas à la mission demandée."
    );
}

#[test]
fn un_code_se_choisit_sans_decision() {
    let d = Demande::definir_seulement();
    assert!(d.definir);
    assert!(d.sans_decision());
    let avec = Demande {
        id: "a1".into(),
        portee: "once".into(),
        message: String::new(),
        definir: false,
    };
    assert!(!avec.sans_decision());
}

#[test]
fn les_commandes_de_l_en_tete_disent_ce_qu_elles_reprennent() {
    let detail = |etat: State, cancel: bool, apply: bool, undo: bool, publication| Detail {
        id: "m".into(),
        etat,
        historique: vec![],
        plan: None,
        etapes: 0,
        secondes: 60,
        can_start: false,
        can_cancel: cancel,
        can_apply: apply,
        can_undo: undo,
        publication,
        changements: vec![],
    };
    assert_eq!(
        commandes(&detail(State::Planned, true, false, false, None)),
        [(Action::Cancel, "Annuler le plan")]
    );
    assert_eq!(
        commandes(&detail(State::Running, true, false, false, None)),
        [(Action::Cancel, "Arrêter")]
    );
    assert_eq!(
        commandes(&detail(State::Done, false, true, false, Some(WorkspaceState::Open))),
        [(Action::Apply, "Appliquer à mes documents")]
    );
    assert_eq!(
        commandes(&detail(State::Done, false, true, true, Some(WorkspaceState::Applying))),
        [
            (Action::Apply, "Reprendre la publication"),
            (Action::Undo, "Annuler la publication")
        ]
    );
    assert_eq!(
        commandes(&detail(State::Done, false, false, true, Some(WorkspaceState::Undoing))),
        [(Action::Undo, "Reprendre l'annulation")]
    );
    assert!(commandes(&detail(State::Done, false, false, false, None)).is_empty());
}
