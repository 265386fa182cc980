use tenebrous_dicebot::db::keys::{
    altered_count, convert_i32, convert_u32, convert_u64, create_new_key, create_old_key,
    extract_v1_entry, i32_to_bytes, metadata_key, parse_v1_key, room_and_user_of_key, to_key,
    v0_variable_key, migration_batch, migration_batch_from_scan, variable_count_batch, BatchOp, DataError, MigrationError, UserAndRoom, UserVariableEntry,
};
use tenebrous_dicebot::db::migrations::migration;
use tenebrous_dicebot::db::variables::RoomVariables;
use tenebrous_dicebot::models::{Account, AccountStatus, TransientUser, User};

#[test]
fn user_and_room_key_separates_with_fe() {
    let key = UserAndRoom("ab", "c").to_vec();
    assert_eq!(vec![b'a', b'b', 0xfe, b'c'], key);
}

#[test]
fn stored_i32_reads_back() {
    for v in [0, 1, -1, 5, -1000, i32::MAX, i32::MIN, 123456789].iter() {
        let bytes = i32_to_bytes(*v);
        assert_eq!(v.to_le_bytes().to_vec(), bytes);
        assert_eq!(Ok(*v), convert_i32(&bytes));
    }
}

#[test]
fn wrong_length_is_a_schema_violation() {
    assert_eq!(Err(DataError::I32SchemaViolation), convert_i32(&[1, 2, 3]));
    assert_eq!(Err(DataError::I32SchemaViolation), convert_u32(&[1, 2, 3, 4, 5]));
    assert_eq!(Err(DataError::I32SchemaViolation), convert_u64(&[1]));
}

#[test]
fn unsigned_conversions() {
    assert_eq!(Ok(0x04030201), convert_u32(&[1, 2, 3, 4]));
    assert_eq!(Ok(0x0102030405060708), convert_u64(&[1, 2, 3, 4, 5, 6, 7, 8]));
}

#[test]
fn alter_room_variable_count_test() {
    //addition
    let count = altered_count(None, 5);
    assert_eq!(5, count);

    //subtraction
    assert_eq!(2, altered_count(Some(count), -3));
}

#[test]
fn alter_room_variable_count_cannot_go_below_0_test() {
    assert_eq!(0, altered_count(Some(1), -1000));
    assert_eq!(0, altered_count(None, -1000));
}

#[test]
fn nullable_password_migration_text() {
    let sql = migration();
    assert!(sql.contains("CREATE TABLE IF NOT EXISTS \"accounts2\""));
    assert!(sql.contains("ALTER TABLE accounts2 RENAME TO accounts;"));
}

#[test]
fn accounts_report_status() {
    let user = User {
        username: "u".to_string(),
        password: None,
        active_room: None,
        account_status: AccountStatus::AwaitingActivation,
    };
    let registered = Account::Registered(user.clone());
    assert!(registered.is_registered());
    assert_eq!(AccountStatus::AwaitingActivation, registered.account_status());
    assert_eq!(Some(&user), registered.registered_user());
    assert_eq!(None, registered.transient_user());

    let transient = Account::Transient(TransientUser { username: "t".to_string() });
    assert!(!transient.is_registered());
    assert_eq!(AccountStatus::NotRegistered, transient.account_status());
    assert_eq!(None, transient.registered_user());
    assert_eq!(Some(TransientUser { username: "t".to_string() }), transient.transient_user());
}

#[test]
fn defaults_are_unregistered() {
    assert_eq!(AccountStatus::NotRegistered, AccountStatus::default());
    assert_eq!(Account::Transient(TransientUser { username: "".to_string() }), Account::default());
    let u = User::unregistered("abc");
    assert_eq!("abc", u.username);
    assert_eq!(AccountStatus::NotRegistered, u.account_status);
    assert_eq!(User::default().username, "");
}

#[test]
fn keyspace_keys_join_with_colon() {
    assert_eq!(b"metadata:migration_version".to_vec(), metadata_key("migration_version"));
    assert_eq!(b"a:b".to_vec(), to_key("a", "b"));
    assert_eq!(b"roomuservar".to_vec(), v0_variable_key("room", "user", "var"));
}

#[test]
fn variable_keys_of_both_layouts() {
    let entry = UserVariableEntry {
        room_id: "r".to_string(),
        username: "u".to_string(),
        variable_name: "v".to_string(),
        value: vec![1, 0, 0, 0],
    };
    let prefix = [b'p', 0xff];
    assert_eq!(vec![b'p', 0xff, b'r', 0xff, b'u', 0xff, b'v'], create_old_key(&prefix, &entry));
    assert_eq!(vec![b'p', 0xff, b'r', 0xfe, b'u', 0xff, b'v'], create_new_key(&prefix, &entry));
}

#[test]
fn second_layout_keys_are_read() {
    let key = [b'p', 0xff, b'r', 0xff, b'u', 0xff, b'v', b'w'];
    assert_eq!(Ok(("r".to_string(), "u".to_string(), "vw".to_string())), parse_v1_key(&key));
    assert_eq!(Ok(("r".to_string(), "u".to_string())), room_and_user_of_key(&key));
    let entry = extract_v1_entry(&key, vec![5, 0, 0, 0]).unwrap();
    assert_eq!("vw", entry.variable_name);
    assert_eq!(vec![5, 0, 0, 0], entry.value);
    let bad = MigrationError::MigrationFailed("a key violates utf8 schema".to_string());
    assert_eq!(Err(bad.clone()), parse_v1_key(&[b'p', 0xff, b'r', 0xff, b'u']));
    assert_eq!(Err(bad), parse_v1_key(&[b'p', 0xff, 0xc3, 0xff, b'u', 0xff, b'v']));
}

#[test]
fn data_errors_have_messages() {
    assert_eq!("value does not exist for key: k", DataError::KeyDoesNotExist("k".to_string()).message());
    assert_eq!("too many entries", DataError::TooManyEntries.message());
}

#[test]
fn empty_db_reports_0_room_variable_count_test() {
    let variables = RoomVariables::new();
    assert_eq!(0, variables.variable_count());
}

#[test]
fn set_user_variable_increments_count() {
    let mut variables = RoomVariables::new();
    variables.set_user_variable("myvariable", 5).expect("could not insert variable");
    assert_eq!(1, variables.variable_count());
}

#[test]
fn update_user_variable_does_not_increment_count() {
    let mut variables = RoomVariables::new();
    variables.set_user_variable("myvariable", 5).expect("could not insert variable");
    variables.set_user_variable("myvariable", 10).expect("could not update variable");
    assert_eq!(1, variables.variable_count());
    assert_eq!(Ok(10), variables.get_user_variable("myvariable"));
}

#[test]
fn set_and_get_variable_test() {
    let mut variables = RoomVariables::new();
    variables.set_user_variable("myvariable", 5).expect("could not insert variable");
    let value = variables.get_user_variable("myvariable").expect("could not get value");
    assert_eq!(5, value);
}

#[test]
fn cannot_set_more_than_100_variables_per_room() {
    let mut variables = RoomVariables::new();
    for c in 0..100 {
        variables.set_user_variable(&format!("myvariable{}", c), 5).expect("could not insert variable");
    }
    let result = variables.set_user_variable("myvariable101", 5);
    assert!(result.is_err());
    assert!(matches!(result, Err(DataError::TooManyEntries)));
    assert_eq!(100, variables.variable_count());
}

#[test]
fn delete_variable_test() {
    let mut variables = RoomVariables::new();
    variables.set_user_variable("myvariable", 5).expect("could not insert variable");
    variables.set_user_variable("other", 7).expect("could not insert variable");
    variables.delete_user_variable("myvariable").expect("could not delete value");
    let result = variables.get_user_variable("myvariable");
    assert!(result.is_err());
    assert!(matches!(result, Err(DataError::KeyDoesNotExist(_))));
    assert_eq!(Ok(7), variables.get_user_variable("other"));
    assert_eq!(1, variables.variable_count());
}

#[test]
fn get_missing_variable_returns_key_does_not_exist() {
    let variables = RoomVariables::new();
    let result = variables.get_user_variable("myvariable");
    assert!(result.is_err());
    assert!(matches!(result, Err(DataError::KeyDoesNotExist(_))));
}

#[test]
fn remove_missing_variable_returns_key_does_not_exist() {
    let mut variables = RoomVariables::new();
    let result = variables.delete_user_variable("myvariable");
    assert!(result.is_err());
    assert!(matches!(result, Err(DataError::KeyDoesNotExist(_))));
}

#[test]
fn migration_batch_moves_each_variable() {
    let entries = vec![
        UserVariableEntry {
            room_id: "r".to_string(),
            username: "u".to_string(),
            variable_name: "v".to_string(),
            value: vec![1, 0, 0, 0],
        },
        UserVariableEntry {
            room_id: "s".to_string(),
            username: "w".to_string(),
            variable_name: "x".to_string(),
            value: vec![2, 0, 0, 0],
        },
    ];
    let batch = migration_batch(&[b'p', 0xff], &entries);
    assert_eq!(
        vec![
            BatchOp::Remove(vec![b'p', 0xff, b'r', 0xff, b'u', 0xff, b'v']),
            BatchOp::Insert(vec![b'p', 0xff, b'r', 0xfe, b'u', 0xff, b'v'], vec![1, 0, 0, 0]),
            BatchOp::Remove(vec![b'p', 0xff, b's', 0xff, b'w', 0xff, b'x']),
            BatchOp::Insert(vec![b'p', 0xff, b's', 0xfe, b'w', 0xff, b'x'], vec![2, 0, 0, 0]),
        ],
        batch
    );
    assert!(migration_batch(&[0xff], &[]).is_empty());
}

#[test]
fn migration_from_scan_moves_all_or_nothing() {
    let good = vec![(vec![b'p', 0xff, b'r', 0xff, b'u', 0xff, b'v'], vec![5, 0, 0, 0])];
    assert_eq!(
        Ok(vec![
            BatchOp::Remove(vec![b'p', 0xff, b'r', 0xff, b'u', 0xff, b'v']),
            BatchOp::Insert(vec![b'p', 0xff, b'r', 0xfe, b'u', 0xff, b'v'], vec![5, 0, 0, 0]),
        ]),
        migration_batch_from_scan(&[b'p', 0xff], &good)
    );
    let mut bad = good.clone();
    bad.push((vec![b'p', 0xff, b'r', 0xff, b'u'], vec![1, 0, 0, 0]));
    assert_eq!(
        Err(MigrationError::MigrationFailed("a key violates utf8 schema".to_string())),
        migration_batch_from_scan(&[b'p', 0xff], &bad)
    );
}

#[test]
fn variable_count_batch_counts_each_room_and_user() {
    let keys = vec![
        vec![b'p', 0xff, b'r', 0xff, b'u', 0xff, b'a'],
        vec![b'p', 0xff, b's', 0xff, b'u', 0xff, b'a'],
        vec![b'p', 0xff, b'r', 0xff, b'u', 0xff, b'b'],
    ];
    let mut count_key_r = vec![b'p', 0xff, b'r', 0xff, b'u', 0xff];
    count_key_r.extend_from_slice(b"variable_count");
    let mut count_key_s = vec![b'p', 0xff, b's', 0xff, b'u', 0xff];
    count_key_s.extend_from_slice(b"variable_count");
    assert_eq!(
        Ok(vec![
            BatchOp::Insert(count_key_r, vec![2, 0, 0, 0]),
            BatchOp::Remove(b"ruvariable_count".to_vec()),
            BatchOp::Insert(count_key_s, vec![1, 0, 0, 0]),
            BatchOp::Remove(b"suvariable_count".to_vec()),
        ]),
        variable_count_batch(&[b'p', 0xff], &keys)
    );
    let bad = vec![vec![b'p', 0xff, b'r']];
    assert_eq!(
        Err(MigrationError::MigrationFailed("a key violates utf8 schema".to_string())),
        variable_count_batch(&[b'p', 0xff], &bad)
    );
}

#[test]
fn verify_password_fails_with_no_password() {
    let user = User::default();
    assert_eq!(user.password_verified(Ok(true)), false);
}

#[test]
fn password_check_outcome_decides() {
    let user = User { password: Some("hash".to_string()), ..User::default() };
    assert!(user.password_verified(Ok(true)));
    assert!(!user.password_verified(Ok(false)));
    assert!(!user.password_verified(Err("invalid hash".to_string())));
}
