use surface::disposition::{contenus, Contenu};

#[test]
fn ce_qui_ne_tient_pas_n_est_pas_entasse() {
    let douze = contenus(12, 6, false);
    let courants = douze
        .iter()
        .filter(|c| matches!(c, Contenu::Courant(_)))
        .count();
    assert_eq!(courants, 6);
    assert_eq!(
        contenus(2, 6, false),
        vec![
            Contenu::Courant(0),
            Contenu::Courant(1),
            Contenu::Isolation,
            Contenu::Horloge
        ]
    );
    // Même sur un écran trop court, le courant le plus urgent reste.
    assert_eq!(contenus(3, 0, false)[0], Contenu::Courant(0));
    assert_eq!(contenus(3, 0, false).len(), 3);
}

#[test]
fn sans_decision_rien_ne_s_interpose_au_centre() {
    assert!(!contenus(4, 6, false).contains(&Contenu::Decision));
    assert_eq!(contenus(4, 6, true).last(), Some(&Contenu::Decision));
    assert_eq!(contenus(0, 6, true), vec![Contenu::Isolation, Contenu::Horloge, Contenu::Decision]);
}
