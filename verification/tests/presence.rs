use surface::presence::EtatDuCode;

#[test]
fn le_verrou_du_code_se_dit_en_minutes_entamees() {
    let verrou = |s| EtatDuCode {
        defini: true,
        verrou_s: Some(s),
    };
    assert_eq!(
        verrou(61).titre(),
        "Verrouillé après trop de codes faux : encore 2 min."
    );
    assert_eq!(
        verrou(60).titre(),
        "Verrouillé après trop de codes faux : encore 1 min."
    );
    assert_eq!(
        verrou(0).titre(),
        "Verrouillé après trop de codes faux : encore 0 min."
    );
    assert_eq!(
        verrou(-200).titre(),
        "Verrouillé après trop de codes faux : encore -2 min."
    );
}

#[test]
fn sans_verrou_le_code_se_dit_defini_ou_a_choisir() {
    let etat = |defini| EtatDuCode {
        defini,
        verrou_s: None,
    };
    assert_eq!(etat(true).titre(), "Votre code d'approbation est défini.");
    assert_eq!(
        etat(false).titre(),
        "Aucun code d'approbation n'est encore choisi."
    );
}
