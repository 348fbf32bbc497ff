use surface::atelier::Page;
use surface::fenetre::{doit_redessiner, ErreurFenetre, Options};
use surface::gpu::ErreurGpu;
use surface::rendu::ErreurRendu;

#[test]
fn un_ecran_inchange_n_est_pas_redessine_mais_une_etape_ou_une_demande_le_sont() {
    let derniere = Some(4);
    assert!(!doit_redessiner(false, derniere, 4), "rien n'a changé");
    assert!(doit_redessiner(false, derniere, 5), "une étape s'est franchie");
    assert!(doit_redessiner(true, derniere, 4), "l'interface l'a demandé");
    assert!(doit_redessiner(false, None, 4), "la première image se dessine");
}

#[test]
fn les_options_habituelles_visent_le_moteur_local() {
    let o = Options::habituelles(None);
    assert_eq!(o.endpoint, "http://127.0.0.1:8080/v1");
    assert_eq!(o.page, Page::Accueil);
    assert!(!o.demonstration && !o.fenetree && !o.mouvement_reduit && !o.champ_complet);
    assert!(o.accent.is_none());
    assert_eq!(Options::habituelles(Some("http://x/v1".into())).endpoint, "http://x/v1");
}

#[test]
fn un_contexte_graphique_absent_est_nomme() {
    let gpu = ErreurGpu::AucunAdaptateur("aucun pilote".into());
    assert!(gpu.message().starts_with("aucun adaptateur graphique : aucun pilote."));
    assert!(gpu.message().contains("lavapipe"));
    let fenetre: ErreurFenetre = ErreurGpu::Surface("refusée".into()).into();
    assert_eq!(fenetre.message(), "surface d'affichage impossible : refusée");
    assert_eq!(
        ErreurFenetre::Boucle("x".into()).message(),
        "boucle d'évènements : x"
    );
    let rendu: ErreurRendu = ErreurGpu::Peripherique("non".into()).into();
    assert_eq!(rendu.message(), "périphérique refusé par le pilote : non");
    assert!(ErreurRendu::AucunePolice.message().contains("aucune police disponible"));
    assert_eq!(ErreurRendu::Texte("t".into()).message(), "texte impossible à préparer : t");
    assert_eq!(
        ErreurGpu::Lecture("l".into()).message(),
        "l'image rendue n'a pas pu être relue : l"
    );
}
