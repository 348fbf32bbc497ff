use surface::theme::palette;
use surface::theme::{accents, voile, Accent, Teinte};

#[test]
fn le_fond_n_est_jamais_un_noir_absolu() {
    // Un voile posé sur un noir absolu ne l'assombrit plus : l'examen d'une décision ne se
    // verrait pas au coin de l'écran, et un dégradé y écraserait ses derniers pas.
    assert!(palette::fond().r() > 0 && palette::fond().g() > 0 && palette::fond().b() > 0);
}

#[test]
fn un_accent_se_retrouve_par_son_nom_et_un_inconnu_ne_casse_rien() {
    assert_eq!(Accent::par_nom("Or").map(|a| a.nom), Some("or"));
    assert_eq!(Accent::par_nom(" jade ").map(|a| a.nom), Some("jade"));
    assert!(Accent::par_nom("fuchsia").is_none());
    assert_eq!(Accent::defaut().nom, "arc");
    let liste = accents();
    let noms: std::collections::BTreeSet<_> = liste.iter().map(|a| a.nom).collect();
    assert_eq!(noms.len(), liste.len(), "deux accents portent le même nom");
}

#[test]
fn un_voile_premultiplie_ses_canaux() {
    let v = voile(Teinte::from_rgb(200, 100, 0), 128);
    assert_eq!(v.a(), 128);
    assert_eq!(v.r(), 100);
    assert_eq!(v.g(), 50);
}

#[test]
fn les_fils_d_un_accent_sont_son_vif_voile() {
    let blanc = Teinte::from_rgb(255, 255, 255);
    let v = voile(blanc, 128);
    assert_eq!((v.r(), v.g(), v.b(), v.a()), (128, 128, 128, 128));
    let arc = Accent::defaut();
    assert_eq!(arc.fil, voile(arc.vif, 58));
    assert_eq!(arc.fil_vif, voile(arc.vif, 196));
    assert_eq!(arc.lueur, voile(arc.vif, 26));
    assert_eq!(voile(Teinte::from_rgb(96, 226, 255), 58).r(), 21);
}

#[test]
fn chaque_accent_a_ses_teintes_et_le_premier_est_l_arc() {
    let liste = accents();
    let noms: Vec<&str> = liste.iter().map(|a| a.nom).collect();
    assert_eq!(noms, ["arc", "or", "plasma", "jade", "nacre"]);
    assert_eq!(liste[1].vif, Teinte::from_rgb(236, 196, 108));
    assert_eq!(Accent::par_nom("NACRE").map(|a| a.titre), Some("Nacre"));
    assert!(Accent::par_nom("").is_none());
}
