use rahgozar::form::FormState;
use rahgozar::profiles::{
    active_label, backup_extension, bar_controls, copy_name, first_message, next_backup_try,
    profile_document, save_as_offer, save_step, start_store, switch_message, takes_effect,
    ApplyOutcome, ManageAction, ManageState, RowMode, SaveAction, SavePhase, StoreLoad,
};

fn texts(items: &[&str]) -> Vec<String> {
    items.iter().map(|s| s.to_string()).collect()
}

const REFUSAL: &str = "profiles.json on disk is unreadable; refusing to overwrite. Move it aside \
                       manually, then restart.";

#[test]
fn an_unreadable_store_is_not_written() {
    assert!(start_store(&StoreLoad::Loaded).load_ok);
    let s = start_store(&StoreLoad::Corrupt {
        message: "eof".into(),
        backup: Ok("/b".into()),
    });
    assert!(s.load_ok);
    assert_eq!(
        s.message,
        Some("profiles.json was unreadable (eof); backed up to /b".to_string())
    );
    let s = start_store(&StoreLoad::Corrupt {
        message: "eof".into(),
        backup: Err("io".into()),
    });
    assert!(!s.load_ok);
    assert_eq!(
        s.message.unwrap(),
        "profiles.json was unreadable (eof) and backup also failed (io). Profile saves are \
         disabled until you move the file aside manually."
    );
    let s = start_store(&StoreLoad::Unreadable { error: "perm".into() });
    assert!(!s.load_ok);
    assert_eq!(
        s.message.unwrap(),
        "profiles.json could not be loaded (perm). Profile saves are disabled to avoid \
         clobbering the on-disk file."
    );
    assert_eq!(
        first_message(Some("a".into()), Some("b".into())),
        Some("a".to_string())
    );
    assert_eq!(first_message(None, Some("b".into())), Some("b".to_string()));
}

#[test]
fn backups_get_names_of_their_own() {
    assert_eq!(backup_extension("12", 0), "json.corrupt-12");
    assert_eq!(backup_extension("12", 3), "json.corrupt-12-3");
    assert_eq!(next_backup_try(0, true), Some(1));
    assert_eq!(next_backup_try(0, false), None);
    assert_eq!(next_backup_try(998, true), Some(999));
    assert_eq!(next_backup_try(999, true), None);
}

#[test]
fn the_bar_is_gated() {
    let b = bar_controls(false, true, &texts(&["a"]));
    assert!(b.switch && b.save_as && b.manage);
    let b = bar_controls(true, true, &texts(&["a"]));
    assert!(!b.switch && !b.save_as && b.manage);
    let b = bar_controls(false, false, &texts(&["a"]));
    assert!(b.switch && !b.save_as && !b.manage);
    assert!(!bar_controls(false, true, &texts(&[])).manage);
    assert_eq!(active_label(""), "(none)");
    assert_eq!(active_label("home"), "home");
}

#[test]
fn switches_are_told() {
    let failed = ApplyOutcome::Failed { error: "e".into() };
    assert!(!takes_effect(&failed));
    assert_eq!(switch_message("p", &failed, None), "Switch failed: e");
    assert!(takes_effect(&ApplyOutcome::Applied));
    assert_eq!(
        switch_message("p", &ApplyOutcome::Applied, None),
        "Switched to profile 'p'"
    );
    assert_eq!(
        switch_message("p", &ApplyOutcome::Applied, Some("w")),
        "Switched to 'p' but: w"
    );
    let partial = ApplyOutcome::ConfigOnly { error: "e".into() };
    assert!(takes_effect(&partial));
    assert_eq!(
        switch_message("p", &partial, None),
        "Switched to 'p' (live config updated) but profile pointer save failed: e"
    );
    assert_eq!(
        switch_message("p", &partial, Some("w")),
        "Switched to 'p' (live config updated) but pointer save failed: e; also: w"
    );
}

#[test]
fn a_profile_is_offered_and_made() {
    let o = save_as_offer(" home ", &texts(&["home"]));
    assert_eq!(o.name, Some("home".to_string()));
    assert!(o.overwrite);
    let o = save_as_offer("  ", &texts(&["home"]));
    assert!(o.name.is_none() && !o.overwrite);
    let mut f = FormState::fresh_install_defaults();
    assert_eq!(profile_document(false, &f).unwrap_err(), REFUSAL);
    assert_eq!(
        profile_document(true, &f).unwrap_err(),
        "Form is invalid: Apps Script ID is required"
    );
    f.mode = "direct".into();
    let v = profile_document(true, &f).unwrap();
    assert_eq!(v.get("mode").and_then(|m| m.as_str()), Some("direct"));
}

#[test]
fn the_configuration_is_written_before_the_store() {
    let mut p = SavePhase::Prepared;
    assert!(matches!(save_step(&mut p, Ok(())), SaveAction::WriteConfig));
    assert!(matches!(save_step(&mut p, Ok(())), SaveAction::WriteStore));
    assert!(matches!(save_step(&mut p, Ok(())), SaveAction::Commit));
    assert!(matches!(save_step(&mut p, Ok(())), SaveAction::Ignore));

    let mut p = SavePhase::Prepared;
    match save_step(&mut p, Err("exists".into())) {
        SaveAction::Fail { message } => assert_eq!(message, "exists"),
        _ => panic!("expected a failure"),
    }
    assert_eq!(p, SavePhase::Finished);

    let mut p = SavePhase::WritingConfig;
    match save_step(&mut p, Err("io".into())) {
        SaveAction::Fail { message } => assert_eq!(message, "write config.json failed: io"),
        _ => panic!("expected a failure"),
    }

    let mut p = SavePhase::WritingStore;
    match save_step(&mut p, Err("io".into())) {
        SaveAction::FailAfterConfig { message } => assert_eq!(
            message,
            "Live config saved, but writing the profile entry failed: io. Retry to save the \
             profile."
        ),
        _ => panic!("expected a failure"),
    }
}

#[test]
fn copies_get_free_names() {
    assert_eq!(copy_name(&texts(&["a"]), "a"), "a (copy)");
    assert_eq!(copy_name(&texts(&["a", "a (copy)"]), "a"), "a (copy 2)");
    assert_eq!(
        copy_name(&texts(&["a", "a (copy)", "a (copy 2)", "a (copy 4)"]), "a"),
        "a (copy 3)"
    );
}

#[test]
fn profiles_are_managed() {
    let mut s = ManageState::new();
    assert_eq!(s.row_mode("a"), RowMode::Plain);
    s.rename_clicked("a".into());
    assert_eq!(s.row_mode("a"), RowMode::Rename);
    assert_eq!(s.row_mode("b"), RowMode::Plain);
    s.rename_buf.push(("a".into(), "new".into()));
    s.rename_buf.push(("b".into(), "other".into()));
    s.rename_cancelled("a");
    assert_eq!(s.rename_buf.len(), 1);
    assert_eq!(s.rename_buf[0].0, "b");
    s.delete_clicked("a".into());
    assert_eq!(s.row_mode("a"), RowMode::ConfirmDelete);
    s.rename_clicked("a".into());
    assert_eq!(s.row_mode("a"), RowMode::Rename, "renaming comes first");
    s.rename_cancelled("a");
    s.delete_cancelled();
    assert_eq!(s.row_mode("a"), RowMode::Plain);
    s.refused();
    assert_eq!(s.error.as_deref(), Some(REFUSAL));
}

#[test]
fn the_store_changes_only_if_it_was_written() {
    let mut s = ManageState::new();
    s.delete_clicked("a".into());
    let delete = ManageAction::Delete("a".into());
    assert!(!s.finished(&delete, Err("gone".into()), Ok(())));
    assert_eq!(s.error.as_deref(), Some("gone"));
    assert!(!s.finished(&delete, Ok(()), Err("io".into())));
    assert_eq!(s.error.as_deref(), Some("save failed: io"));
    assert_eq!(s.row_mode("a"), RowMode::ConfirmDelete);
    assert!(s.finished(&delete, Ok(()), Ok(())));
    assert_eq!(s.error, None);
    assert_eq!(s.row_mode("a"), RowMode::Plain);
    s.rename_clicked("b".into());
    s.rename_buf.push(("b".into(), "c".into()));
    let rename = ManageAction::CommitRename {
        from: "b".into(),
        to: "c".into(),
    };
    assert!(s.finished(&rename, Ok(()), Ok(())));
    assert!(s.rename_buf.is_empty() && s.renaming.is_none());
    assert!(s.finished(&ManageAction::Duplicate("b".into()), Ok(()), Ok(())));
}

#[test]
fn renaming_starts_from_the_present_name() {
    let mut s = ManageState::new();
    assert_eq!(s.rename_row("a"), 0);
    s.rename_buf[0].1 = "new".into();
    assert_eq!(s.rename_row("b"), 1);
    assert_eq!(s.rename_row("a"), 0);
    assert_eq!(s.rename_buf, [("a".into(), "new".into()), ("b".into(), "b".into())]);
}
