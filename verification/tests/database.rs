use kotomori::database::{
    SCHEMA_VERSION, SaveError, SaveStep, SchemaError, migrations_to_apply, save_step, sqlite_times,
    update_outcome,
};

#[test]
fn migrations_create_schema() {
    let plan = migrations_to_apply(0).unwrap();
    assert_eq!(plan, [1]);
    assert_eq!(*plan.last().unwrap(), SCHEMA_VERSION);
    assert_eq!(i64::try_from(*plan.last().unwrap()).unwrap(), i64::try_from(SCHEMA_VERSION).unwrap());
}

#[test]
fn unsupported_schema_is_rejected() {
    assert_eq!(
        migrations_to_apply(2).unwrap_err().message(),
        "database schema version 2 is unsupported; expected 1",
    );
}

#[test]
fn current_schema_needs_no_migration() {
    assert_eq!(migrations_to_apply(1).unwrap(), Vec::<usize>::new());
}

#[test]
fn negative_schema_is_rejected() {
    assert_eq!(migrations_to_apply(-3).unwrap_err(), SchemaError::Unsupported { version: -3 });
    assert_eq!(
        migrations_to_apply(i64::MIN).unwrap_err().message(),
        "database schema version -9223372036854775808 is unsupported; expected 1",
    );
}

#[test]
fn saving_updates_a_saved_session_and_inserts_a_new_one() {
    assert_eq!(save_step(Some(7)), SaveStep::Update { id: 7 });
    assert_eq!(save_step(None), SaveStep::Insert);
}

#[test]
fn an_update_that_changes_no_row_finds_the_session_gone() {
    assert_eq!(update_outcome(3, 1), Ok(()));
    let error = update_outcome(3, 0).unwrap_err();
    assert_eq!(error, SaveError::Missing { id: 3 });
    assert_eq!(error.message(), "session `3` no longer exists");
}

#[test]
fn session_times_must_fit_sqlite_integers() {
    assert_eq!(sqlite_times(1, 2), Ok((1, 2)));
    assert_eq!(sqlite_times(u64::MAX, 2), Err(SaveError::CreatedOutOfRange));
    assert_eq!(sqlite_times(1, u64::MAX), Err(SaveError::UpdatedOutOfRange));
    assert_eq!(
        SaveError::UpdatedOutOfRange.message(),
        "session update time exceeds SQLite integer range"
    );
}
