use surface::mission_details::{
    cible_depuis, dernier_geste, duree_observee, enfants_de, relance, Tab,
};
use surface::missions::{Outcome, TrailEntry};
use surface::scene::{Courant, Etat, State};

fn geste(tool: &str, outcome: Outcome) -> TrailEntry {
    TrailEntry {
        seq: 0,
        step: None,
        tool: tool.into(),
        target: None,
        outcome,
        fois: 1,
        sortie: None,
    }
}

#[test]
fn le_dernier_geste_passe_les_sorties_relayees_mais_pas_un_refus() {
    let mut trail = vec![geste("fs.write", Outcome::Success), geste("sortie", Outcome::Success)];
    assert_eq!(dernier_geste(&trail).unwrap().tool, "fs.write");
    trail.push(geste("sortie", Outcome::Denied("no_grant".into())));
    assert_eq!(
        dernier_geste(&trail).unwrap().outcome,
        Outcome::Denied("no_grant".into())
    );
    assert!(dernier_geste(&[geste("sortie", Outcome::Success)]).is_none());
}

#[test]
fn la_duree_d_une_mission_se_dit_comme_on_la_dit() {
    assert_eq!(duree_observee(0), "moins d'une seconde");
    assert_eq!(duree_observee(42), "42 s");
    assert_eq!(duree_observee(185), "3 min 05 s");
    assert_eq!(duree_observee(4_320), "1 h 12 min");
}

#[test]
fn seule_une_mission_racine_echouee_ou_arretee_se_relance() {
    let relancee = relance(
        State::Failed,
        false,
        "Rédiger la note",
        Some("local:qwen3-1.7b"),
        Some("documents"),
    )
    .unwrap();
    assert_eq!(relancee.intent, "Rédiger la note");
    assert_eq!(relancee.model, "qwen3-1.7b");
    assert_eq!(relancee.profile.as_deref(), Some("documents"));
    // Un client officiel garde son palier.
    let client = relance(State::Cancelled, false, "Coder", Some("driver:codex@opus"), None).unwrap();
    assert_eq!(client.model, "codex@opus");
    assert_eq!(client.profile, None);
    for state in [State::Planned, State::Running, State::Done] {
        assert!(relance(state, false, "x", None, None).is_none(), "{state:?}");
    }
    assert!(relance(State::Failed, true, "x", None, None).is_none());
    assert!(relance(State::Failed, false, "  ", None, None).is_none());
}

#[test]
fn une_cible_du_dossier_de_l_humain_se_lit_depuis_le_tilde() {
    assert_eq!(
        cible_depuis("/home/pilot/Documents/Prophet/note.txt", "/home/pilot"),
        "~/Documents/Prophet/note.txt"
    );
    assert_eq!(cible_depuis("/home/pilot/Documents/x", "/home/pilot/"), "~/Documents/x");
    // Un voisin qui partage le préfixe n'est pas le dossier de l'humain.
    assert_eq!(cible_depuis("/home/pilote/secret", "/home/pilot"), "/home/pilote/secret");
    assert_eq!(cible_depuis("exemple.fr", "/home/pilot"), "exemple.fr");
    assert_eq!(cible_depuis("/etc/passwd", ""), "/etc/passwd");
}

fn courant(id: &str, agent: &str) -> Courant {
    Courant {
        tache: id.to_owned(),
        intitule: format!("mission {id}"),
        agent: agent.to_owned(),
        etat: Etat::Court,
        etapes: 0,
        secondes: 60,
        task_state: None,
        task_revision: 0,
    }
}

#[test]
fn les_sous_missions_sont_celles_dont_l_identifiant_prolonge_le_sien() {
    let courants = vec![
        courant("duo", "driver:codex"),
        courant("duo.1", "driver:gemini"),
        courant("duo.1.1", "local:qwen3-1.7b"),
        courant("duo-bis", "driver:codex"),
        courant("autre.1", "driver:codex"),
    ];
    let enfants: Vec<&str> = enfants_de("duo", &courants)
        .iter()
        .map(|c| c.tache.as_str())
        .collect();
    assert_eq!(enfants, ["duo.1", "duo.1.1"]);
    assert!(enfants_de("autre", &courants).len() == 1);
    assert!(enfants_de("duo-bis", &courants).is_empty());
}

#[test]
fn sans_choix_l_onglet_suit_l_etat_de_la_mission() {
    assert_eq!(Tab::Auto.montre(State::Planned), Tab::Plan);
    assert_eq!(Tab::Auto.montre(State::Running), Tab::Result);
    assert_eq!(Tab::Auto.montre(State::Done), Tab::Result);
    assert_eq!(Tab::History.montre(State::Planned), Tab::History);
    assert_eq!(Tab::Files.montre(State::Done), Tab::Files);
}
