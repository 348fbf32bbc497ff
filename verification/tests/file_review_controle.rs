use surface::file_review::{
    document, ChangeKind, ChangeReview, FileChange, FilePreview, Kind, PreviewContent, Review,
};

fn texte(t: &str) -> FilePreview {
    FilePreview {
        hash: "empreinte".into(),
        size: t.len() as u64,
        mode: 33152,
        content: PreviewContent::Text { text: t.into() },
    }
}

fn ajout(task: &str, path: &str) -> ChangeReview {
    ChangeReview {
        task: task.into(),
        file: FileChange {
            path: path.into(),
            kind: ChangeKind::Added,
            before: None,
            after: Some(texte("é")),
        },
    }
}

#[test]
fn une_reponse_ne_peut_pas_changer_la_mission_le_fichier_ou_les_versions() {
    let value = ajout("a", "note.txt");
    assert!(document(value.clone(), "a", "note.txt").is_ok());
    assert!(document(value.clone(), "b", "note.txt").is_err());
    assert!(document(value.clone(), "a", "autre.txt").is_err());
    let mut missing = value.clone();
    missing.file.after = None;
    assert!(document(missing, "a", "note.txt").is_err());
    let mut wrong_kind = value.clone();
    wrong_kind.file.kind = ChangeKind::Modified;
    assert!(document(wrong_kind, "a", "note.txt").is_err());
    let mut truncated = value;
    if let Some(after) = truncated.file.after.as_mut() {
        after.size = 1;
    }
    assert!(document(truncated, "a", "note.txt").is_err());
}

#[test]
fn un_document_verifie_porte_sa_comparaison() {
    let mut modifie = ajout("a", "docs/note.txt");
    modifie.file.kind = ChangeKind::Modified;
    modifie.file.before = Some(texte("un\ndeux\n"));
    modifie.file.after = Some(texte("un\ntrois\n"));
    let d = document(modifie.clone(), "a", "docs//note.txt").expect("même fichier");
    let lignes = d.lines.expect("deux textes se comparent");
    let genres: Vec<Kind> = lignes.rows.iter().map(|r| r.kind).collect();
    assert_eq!(genres, [Kind::Equal, Kind::Removed, Kind::Added]);
    // Un contenu qui n'est pas du texte ne se compare pas.
    let mut binaire = modifie.clone();
    binaire.file.after = Some(FilePreview {
        content: PreviewContent::Binary,
        ..texte("x")
    });
    assert!(document(binaire, "a", "docs/note.txt").unwrap().lines.is_none());
    // Un octet nul ou un aperçu de plus de 64 Kio trahit un contenu incohérent.
    let mut nul = modifie.clone();
    nul.file.after = Some(texte("a\0b"));
    assert_eq!(
        document(nul, "a", "docs/note.txt").err().as_deref(),
        Some("Taille ou contenu incohérent dans l'aperçu.")
    );
    let mut enorme = modifie;
    enorme.file.after = Some(texte(&"x".repeat(65_537)));
    assert!(document(enorme, "a", "docs/note.txt").is_err());
}

#[test]
fn une_ancienne_lecture_ne_remplace_pas_la_nouvelle_selection() {
    let mut view = Review::default();
    view.select(Some("a"));
    view.open("one.txt".into());
    let previous = view.revision;
    view.flight = Some(previous);
    view.select(Some("b"));
    view.open("two.txt".into());
    view.recevoir(previous, Err("Ancienne erreur".into()));
    assert!(view.a_lire(false).is_none());
    assert_eq!(view.path.as_deref(), Some("two.txt"));
    assert!(view.error.is_none());
    assert!(view.document.is_none());
    assert!(view.flight.is_none());
    assert!(view.needed);
}

#[test]
fn la_reponse_de_la_lecture_courante_est_montree() {
    let mut view = Review::default();
    view.select(Some("a"));
    view.open("note.txt".into());
    assert!(view.loading());
    let (tache, chemin, revision) = view.a_lire(true).expect("la lecture part");
    assert_eq!((tache.as_str(), chemin.as_str()), ("a", "note.txt"));
    assert!(view.a_lire(true).is_none(), "une lecture est en vol");
    view.recevoir(revision, Ok(document(ajout("a", "note.txt"), "a", "note.txt").unwrap()));
    assert!(view.document.is_some());
    assert!(!view.loading());
    view.select(Some("a"));
    assert!(view.document.is_some(), "la même mission ne change rien");
    view.select(None);
    assert!(view.document.is_none() && view.path.is_none());
}
