use surface::arret::{issue, Arret, ReponseArret};

#[test]
fn la_reponse_du_service_se_dit_en_une_phrase() {
    let i = issue(&ReponseArret {
        cancel_requested: 2,
        cancelled: 1,
        errors: 0,
    });
    assert_eq!(
        i.texte,
        "Arrêt d'urgence : 2 missions s'arrêtent (l'état final confirmera chaque arrêt) ; 1 plan annulé."
    );
    assert!(!i.erreur);
    let i = issue(&ReponseArret {
        cancel_requested: 0,
        cancelled: 0,
        errors: 1,
    });
    assert!(i.erreur);
    assert!(i.texte.contains("1 mission a résisté"), "{}", i.texte);
    let i = issue(&ReponseArret::default());
    assert!(i.texte.contains("rien à arrêter"), "{}", i.texte);
}

#[test]
fn rien_ne_part_sans_confirmation_et_une_scene_d_exemple_n_arrete_rien() {
    let mut arret = Arret::default();
    arret.demander();
    assert!(arret.confirmation());
    arret.renoncer();
    assert!(!arret.confirmation() && !arret.en_cours() && arret.issue().is_none());
    arret.demander();
    arret.confirmer();
    assert!(!arret.en_cours(), "sans raccord, rien n'est envoyé");
    assert!(arret.issue().unwrap().texte.contains("Scène d'exemple"));
}

#[test]
fn un_arret_raccorde_part_une_fois_et_dit_sa_reponse() {
    let mut arret = Arret::connect();
    arret.demander();
    assert!(arret.confirmer());
    assert!(arret.en_cours());
    arret.recevoir(Ok(ReponseArret {
        cancel_requested: 1,
        cancelled: 0,
        errors: 0,
    }));
    assert!(!arret.en_cours());
    assert!(arret.issue().unwrap().texte.contains("1 mission s'arrête"));
    arret.ecarter();
    assert!(arret.issue().is_none());
}
