use chat_store::errors::Error;
use chat_store::migration::plan;
use chat_store::migration::SchemaState;
use chat_store::migration::Step;
use chat_store::schema::group_contacts_table;
use chat_store::schema::group_members_table;
use chat_store::schema::group_messages_table;
use chat_store::schema::groups_table;
use chat_store::schema::table_def_eq;
use chat_store::schema::users_table;
use chat_store::schema::ColumnDef;
use chat_store::schema::TableDef;

const TABLE_NAMES: [&str; 8] = [
    "users",
    "messages",
    "contacts",
    "auth_tokens",
    "groups",
    "group_members",
    "group_contacts",
    "group_messages",
];

#[test]
fn plan_has_two_ascending_steps() {
    let p = plan();
    assert_eq!(p.len(), 2);
    assert_eq!(p[0].version, 1);
    assert_eq!(p[1].version, 2);
    assert_eq!(p[0].description, "create_initial_tables");
    assert_eq!(p[1].description, "create_group_tables");
    assert_eq!(p[0].tables.len(), 4);
    assert_eq!(p[1].tables.len(), 4);
}

#[test]
fn fresh_apply_reaches_version_2_with_eight_tables() {
    let mut state = SchemaState::new();
    assert_eq!(state.version(), 0);
    assert_eq!(state.table_count(), 0);
    let v = state.apply(&plan()).unwrap();
    assert_eq!(v, 2);
    assert_eq!(state.version(), 2);
    assert_eq!(state.table_count(), 8);
    for name in TABLE_NAMES {
        assert!(state.has_table(&name.to_string()));
    }
}

#[test]
fn reapply_is_a_noop() {
    let mut state = SchemaState::new();
    let first = state.apply(&plan()).unwrap();
    assert_eq!(first, 2);
    let again = state.apply(&plan()).unwrap();
    assert_eq!(again, 2);
    assert_eq!(state.version(), 2);
    assert_eq!(state.table_count(), 8);
}

#[test]
fn out_of_order_plan_gives_identical_schema() {
    let p = plan();
    let mut reversed: Vec<Step> = plan();
    reversed.reverse();
    assert_eq!(reversed[0].version, 2);

    let mut in_order = SchemaState::new();
    assert_eq!(in_order.apply(&p).unwrap(), 2);
    let mut shuffled = SchemaState::new();
    assert_eq!(shuffled.apply(&reversed).unwrap(), 2);

    assert_eq!(shuffled.version(), in_order.version());
    assert_eq!(shuffled.table_count(), in_order.table_count());
    for i in 0..in_order.tables.len() {
        assert!(table_def_eq(&in_order.tables[i], &shuffled.tables[i]));
    }
}

#[test]
fn duplicate_versions_are_rejected_before_anything_runs() {
    let mut duplicated: Vec<Step> = plan();
    let mut extra = plan();
    let mut second = extra.remove(1);
    second.version = 1;
    duplicated.push(second);
    let mut state = SchemaState::new();
    match state.apply(&duplicated) {
        Err(Error::DuplicateVersion(v)) => assert_eq!(v, 1),
        other => panic!("expected a duplicate-version error, got {:?}", other),
    }
    assert_eq!(state.version(), 0);
    assert_eq!(state.table_count(), 0);
}

/// A step whose second table definition clashes with an already-present
/// table of a different shape.
fn corrupted_step_two() -> Step {
    let mut conflicting: TableDef = users_table();
    conflicting.columns = Vec::<ColumnDef>::new();
    Step {
        version: 2,
        description: "create_group_tables".to_string(),
        tables: vec![
            groups_table(),
            conflicting,
            group_contacts_table(),
            group_messages_table(),
        ],
    }
}

#[test]
fn failing_step_leaves_no_partial_state_and_retries_cleanly() {
    let mut state = SchemaState::new();
    let mut step_one_only = plan();
    step_one_only.truncate(1);
    assert_eq!(state.apply(&step_one_only).unwrap(), 1);
    assert_eq!(state.table_count(), 4);

    let bad_plan = vec![corrupted_step_two()];
    match state.apply(&bad_plan) {
        Err(Error::StepExecutionFailed { version, table }) => {
            assert_eq!(version, 2);
            assert_eq!(table, "users");
        }
        other => panic!("expected a step-execution failure, got {:?}", other),
    }
    // The marker stays at 1 and none of the failing step's tables
    // survive, not even the one created before the conflict was hit.
    assert_eq!(state.version(), 1);
    assert_eq!(state.table_count(), 4);
    assert!(!state.has_table(&"groups".to_string()));

    // A subsequent run of the intact plan retries step 2 cleanly.
    assert_eq!(state.apply(&plan()).unwrap(), 2);
    assert_eq!(state.table_count(), 8);
    assert!(state.has_table(&"groups".to_string()));
}

#[test]
fn recreating_an_existing_table_is_a_noop() {
    let mut state = SchemaState::new();
    assert_eq!(state.apply(&plan()).unwrap(), 2);
    let retry = Step {
        version: 3,
        description: "recreate_users".to_string(),
        tables: vec![users_table(), group_members_table()],
    };
    assert_eq!(state.apply(&vec![retry]).unwrap(), 3);
    assert_eq!(state.version(), 3);
    assert_eq!(state.table_count(), 8);
}
