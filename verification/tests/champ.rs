use surface::champ::{rubans, RUBANS_MAX};
use surface::scene::{Courant, Etat};

fn courant(tache: &str, etat: Etat, par_minute: u32) -> Courant {
    Courant {
        tache: tache.to_owned(),
        intitule: "quelque chose".to_owned(),
        agent: "codex".to_owned(),
        etat,
        etapes: par_minute,
        secondes: 60,
        task_state: None,
        task_revision: 0,
    }
}

fn plus_vif(a: (u128, u128), b: (u128, u128)) -> bool {
    a.0 * b.1 > b.0 * a.1
}

#[test]
fn mille_missions_ne_font_pas_mille_rubans_et_ce_qui_reclame_passe_devant() {
    let mut courants: Vec<Courant> = (0..1000)
        .map(|n| courant(&format!("{n:04}"), Etat::Court, 5))
        .collect();
    courants.push(courant("bloquee", Etat::Bloque, 0));
    courants.push(courant("vive", Etat::Court, 40));
    let r = rubans(&courants, Some("0500"));
    assert_eq!(r.len(), RUBANS_MAX);
    assert_eq!(courants[r[0]].tache, "0500", "la mission choisie est toujours dessinée");
    assert!(courants[r[1]].reclame(), "ce qui réclame l'humain vient ensuite");
    assert_eq!(courants[r[1]].tache, "bloquee");
    assert!(
        plus_vif(courants[r[2]].vitesse(), courants[r[3]].vitesse()),
        "puis la plus vive avant les autres"
    );
    assert_eq!(courants[r[2]].tache, "vive");
    assert_eq!(r.iter().filter(|&&i| courants[i].tache == "0500").count(), 1, "un seul accent");
    let suite: Vec<&str> = r[3..].iter().map(|&i| courants[i].tache.as_str()).collect();
    assert_eq!(suite, ["0000", "0001", "0002", "0003", "0004", "0005", "0006"]);
}

#[test]
fn peu_de_missions_ont_chacune_leur_ruban_dans_l_ordre_de_la_scene() {
    let courants = vec![
        courant("lente", Etat::Court, 3),
        courant("attend", Etat::Attend, 0),
        courant("finie", Etat::Fini, 0),
        courant("vive", Etat::Court, 30),
    ];
    let r = rubans(&courants, None);
    assert_eq!(r, [1, 3, 0, 2]);
    let choisie = rubans(&courants, Some("finie"));
    assert_eq!(choisie, [2, 1, 3, 0]);
    assert!(rubans(&[], Some("x")).is_empty());
}
