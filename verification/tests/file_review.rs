use surface::file_review::{lines, Kind};

#[test]
fn un_long_document_conserve_ses_lignes_communes() {
    let prefix = "Ligne conservée\n".repeat(1200);
    let suffix = "Suite conservée\n".repeat(1200);
    let before = format!("{prefix}Ancienne phrase\n{suffix}");
    let after = format!("{prefix}Nouvelle phrase\n{suffix}");
    let comparison = lines(&before, &after);
    assert!(!comparison.grouped);
    let rows = comparison.rows;
    assert_eq!(rows.iter().filter(|r| r.kind == Kind::Equal).count(), 2400);
    assert_eq!(rows.iter().filter(|r| r.kind == Kind::Added).count(), 1);
    assert_eq!(rows.iter().filter(|r| r.kind == Kind::Removed).count(), 1);
    assert!(
        lines(&before, &before)
            .rows
            .iter()
            .all(|r| r.kind == Kind::Equal)
    );
}

#[test]
fn les_lignes_reconstituent_les_deux_textes_sans_perdre_les_espaces() {
    for (before, after) in [
        ("a\na\nb\n", "a\nb\na\n"),
        ("é\r\n\ttexte\n", "é\n  texte"),
        ("", "ajout"),
        ("suppression", ""),
    ] {
        let rows = lines(before, after).rows;
        assert_eq!(
            rows.iter()
                .filter(|r| r.before.is_some())
                .map(|r| r.text.as_str())
                .collect::<String>(),
            before
        );
        assert_eq!(
            rows.iter()
                .filter(|r| r.after.is_some())
                .map(|r| r.text.as_str())
                .collect::<String>(),
            after
        );
    }
    let before = "a\n".repeat(1200);
    let after = "b\n".repeat(1200);
    let comparison = lines(&before, &after);
    assert!(comparison.grouped);
    let rows = comparison.rows;
    assert_eq!(rows.len(), 2400);
    assert_eq!(
        rows.iter()
            .filter(|r| r.after.is_some())
            .map(|r| r.text.as_str())
            .collect::<String>(),
        after
    );
}

#[test]
fn une_ligne_changee_au_milieu_se_lit_retiree_puis_ajoutee() {
    let c = lines("a\nb\nc\n", "a\nx\nc\n");
    let vues: Vec<(Option<usize>, Option<usize>, Kind, &str)> = c
        .rows
        .iter()
        .map(|r| (r.before, r.after, r.kind, r.text.as_str()))
        .collect();
    assert_eq!(
        vues,
        vec![
            (Some(1), Some(1), Kind::Equal, "a\n"),
            (Some(2), None, Kind::Removed, "b\n"),
            (None, Some(2), Kind::Added, "x\n"),
            (Some(3), Some(3), Kind::Equal, "c\n"),
        ]
    );
}

#[test]
fn l_alignement_garde_la_plus_longue_suite_commune() {
    // « a b a » contre « b a b » : deux lignes communes au mieux.
    let c = lines("a\nb\na\n", "b\na\nb\n");
    assert!(!c.grouped);
    assert_eq!(c.rows.iter().filter(|r| r.kind == Kind::Equal).count(), 2);
}

#[test]
fn les_lignes_numerotent_chaque_texte_en_entier() {
    let rows = lines("x\na\nb\nx\n", "x\nb\na\nx\n").rows;
    let avant: Vec<usize> = rows.iter().filter_map(|r| r.before).collect();
    let apres: Vec<usize> = rows.iter().filter_map(|r| r.after).collect();
    assert_eq!(avant, [1, 2, 3, 4]);
    assert_eq!(apres, [1, 2, 3, 4]);
    assert_eq!(rows.iter().filter(|r| r.kind == Kind::Equal).count(), 3);
    for r in &rows {
        assert!(r.before.is_some() || r.after.is_some());
        assert_eq!(r.kind == Kind::Equal, r.before.is_some() && r.after.is_some());
    }
}
