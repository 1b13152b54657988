use db_mocker::datatype::Datatype;
use db_mocker::schema::{Column, InvalidOperation, Table, User, UserType, VirtualDatabase};

#[test]
fn names_are_lowercased() {
    let t = Table::new("Users");
    assert_eq!(t.get_name(), "users");
    let mut c = Column::new("ID", Datatype::Int32);
    assert_eq!(c.get_name(), "id");
    c.set_name("FullName");
    assert_eq!(c.get_name(), "fullname");
}

#[test]
fn datatype_defaults_to_int32() {
    assert_eq!(Datatype::default(), Datatype::Int32);
}

#[test]
fn auto_increment_rejected_on_varchar() {
    let mut c = Column::new("name", Datatype::Varchar(255));
    let r = c.set_auto_increment(true);
    assert_eq!(r, Err(InvalidOperation::AutoIncrementNotInteger));
    assert!(!c.get_auto_increment());
}

#[test]
fn auto_increment_allowed_on_integer() {
    let mut c = Column::new("id", Datatype::Uint64);
    assert_eq!(c.set_auto_increment(true), Ok(()));
    assert!(c.get_auto_increment());
    assert_eq!(c.set_auto_increment(false), Ok(()));
    assert!(!c.get_auto_increment());
}

#[test]
fn set_datatype_guards_auto_increment() {
    let mut c = Column::new("id", Datatype::Int32);
    c.set_auto_increment(true).unwrap();
    let r = c.set_datatype(Datatype::Varchar(10));
    assert_eq!(r, Err(InvalidOperation::AutoIncrementNotInteger));
    assert_eq!(*c.get_datatype(), Datatype::Int32);
    assert_eq!(c.set_datatype(Datatype::Int64), Ok(()));
}

#[test]
fn add_primary_key_unknown_column_fails() {
    let mut t = Table::new("users");
    t.add_column(Column::new("id", Datatype::Int32)).unwrap();
    let r = t.add_primary_key("missing");
    assert_eq!(r, Err(InvalidOperation::UnknownColumn));
    assert!(t.list_primary_keys().is_empty());
}

#[test]
fn add_primary_key_is_case_insensitive_and_deduplicated() {
    let mut t = Table::new("users");
    t.add_column(Column::new("id", Datatype::Int32)).unwrap();
    assert_eq!(t.add_primary_key("ID"), Ok(()));
    assert_eq!(t.add_primary_key("id"), Ok(()));
    assert_eq!(t.list_primary_keys().len(), 1);
    assert_eq!(t.list_primary_keys()[0], "id");
}

#[test]
fn remove_primary_key_removes_only_the_named_column() {
    let mut t = Table::new("users");
    t.add_column(Column::new("id", Datatype::Int32)).unwrap();
    t.add_column(Column::new("org", Datatype::Int32)).unwrap();
    t.add_primary_key("id").unwrap();
    t.add_primary_key("org").unwrap();
    t.remove_primary_key("id");
    assert_eq!(t.list_primary_keys().len(), 1);
    assert_eq!(t.list_primary_keys()[0], "org");
    t.remove_primary_key("never-there");
    assert_eq!(t.list_primary_keys().len(), 1);
}

#[test]
fn duplicate_column_rejected_case_insensitively() {
    let mut t = Table::new("users");
    t.add_column(Column::new("id", Datatype::Int32)).unwrap();
    let r = t.add_column(Column::new("ID", Datatype::Int64));
    assert_eq!(r, Err(InvalidOperation::DuplicateColumn));
    assert_eq!(t.list_columns().len(), 1);
}

#[test]
fn second_auto_increment_column_rejected() {
    let mut t = Table::new("users");
    let mut a = Column::new("id", Datatype::Int32);
    a.set_auto_increment(true).unwrap();
    t.add_column(a).unwrap();
    let mut b = Column::new("seq", Datatype::Int32);
    b.set_auto_increment(true).unwrap();
    assert_eq!(t.add_column(b), Err(InvalidOperation::DuplicateAutoIncrement));
    assert_eq!(t.list_columns().len(), 1);
}

#[test]
fn foreign_key_checks_origin_against_siblings() {
    let mut customers = Table::new("customers");
    customers.add_column(Column::new("id", Datatype::Int32)).unwrap();
    let siblings = vec![customers];

    let mut orders = Table::new("orders");
    orders.add_column(Column::new("customer_id", Datatype::Int32)).unwrap();

    assert_eq!(orders.add_foreign_key("customer_id", "customers", "id", &siblings), Ok(()));
    assert_eq!(orders.list_foreign_keys().len(), 1);
    let fk = &orders.list_foreign_keys()[0];
    assert_eq!(fk.local_column, "customer_id");
    assert_eq!(fk.origin_table, "customers");
    assert_eq!(fk.origin_column, "id");

    // the same edge twice leaves the table unchanged
    assert_eq!(orders.add_foreign_key("customer_id", "customers", "id", &siblings), Ok(()));
    assert_eq!(orders.list_foreign_keys().len(), 1);

    // unknown origin table
    assert_eq!(
        orders.add_foreign_key("customer_id", "nowhere", "id", &siblings),
        Err(InvalidOperation::UnknownTable)
    );
    // unknown origin column
    assert_eq!(
        orders.add_foreign_key("customer_id", "customers", "uuid", &siblings),
        Err(InvalidOperation::UnknownColumn)
    );
    // unknown local column
    assert_eq!(
        orders.add_foreign_key("ghost", "customers", "id", &siblings),
        Err(InvalidOperation::UnknownColumn)
    );
}

#[test]
fn foreign_key_may_reference_own_table() {
    let mut employees = Table::new("employees");
    employees.add_column(Column::new("id", Datatype::Int32)).unwrap();
    employees.add_column(Column::new("manager_id", Datatype::Int32)).unwrap();
    let siblings: Vec<Table> = Vec::new();
    assert_eq!(employees.add_foreign_key("manager_id", "employees", "id", &siblings), Ok(()));
}

#[test]
fn remove_foreign_key_removes_the_triple() {
    let mut customers = Table::new("customers");
    customers.add_column(Column::new("id", Datatype::Int32)).unwrap();
    let siblings = vec![customers];
    let mut orders = Table::new("orders");
    orders.add_column(Column::new("customer_id", Datatype::Int32)).unwrap();
    orders.add_foreign_key("customer_id", "customers", "id", &siblings).unwrap();
    orders.remove_foreign_key("customer_id", "customers", "id");
    assert!(orders.list_foreign_keys().is_empty());
}

#[test]
fn uniques_require_existing_columns() {
    let mut t = Table::new("users");
    t.add_column(Column::new("email", Datatype::Varchar(200))).unwrap();
    assert_eq!(t.add_unique("EMAIL"), Ok(()));
    assert_eq!(t.add_unique("email"), Ok(()));
    assert_eq!(t.list_uniques().len(), 1);
    assert_eq!(t.add_unique("phone"), Err(InvalidOperation::UnknownColumn));
    t.remove_unique("email");
    assert!(t.list_uniques().is_empty());
}

#[test]
fn index_preserves_declared_column_order() {
    let mut t = Table::new("events");
    t.add_column(Column::new("day", Datatype::Date)).unwrap();
    t.add_column(Column::new("kind", Datatype::Int16)).unwrap();
    let cols = vec!["KIND".to_string(), "day".to_string()];
    assert_eq!(t.add_index(&cols), Ok(()));
    assert_eq!(t.list_indices().len(), 1);
    assert_eq!(t.list_indices()[0].columns, vec!["kind".to_string(), "day".to_string()]);

    let empty: Vec<String> = Vec::new();
    assert_eq!(t.add_index(&empty), Err(InvalidOperation::EmptyIndex));
    let bad = vec!["day".to_string(), "missing".to_string()];
    assert_eq!(t.add_index(&bad), Err(InvalidOperation::UnknownColumn));
    assert_eq!(t.list_indices().len(), 1);
}

#[test]
fn dataset_row_count_round_trips() {
    let mut t = Table::new("users");
    assert_eq!(t.get_dataset_row_count(), None);
    t.set_dataset_row_count(Some(500));
    assert_eq!(t.get_dataset_row_count(), Some(500));
    t.set_dataset_row_count(None);
    assert_eq!(t.get_dataset_row_count(), None);
}

#[test]
fn database_rejects_duplicate_table_names() {
    let mut db = VirtualDatabase::new("shop");
    let mut a = Table::new("users");
    a.add_column(Column::new("id", Datatype::Int32)).unwrap();
    db.add_table(a).unwrap();
    let b = Table::new("USERS");
    assert_eq!(db.add_table(b), Err(InvalidOperation::DuplicateTableName));
    assert_eq!(db.list_tables().len(), 1);
}

#[test]
fn database_rejects_duplicate_users_by_name_and_host() {
    let mut db = VirtualDatabase::new("shop");
    db.add_user(User::new("alice", "pw1", "localhost", UserType::Admin)).unwrap();
    // same name, other host: a different user
    db.add_user(User::new("alice", "pw2", "%", UserType::CRUD)).unwrap();
    let dup = User::new("alice", "pw3", "localhost", UserType::CRUD);
    assert_eq!(db.add_user(dup), Err(InvalidOperation::DuplicateUser));
    assert_eq!(db.list_users().len(), 2);
    db.remove_user("alice", "%");
    assert_eq!(db.list_users().len(), 1);
}

#[test]
fn get_table_and_remove_table_are_case_insensitive() {
    let mut db = VirtualDatabase::new("shop");
    let mut t = Table::new("Users");
    t.add_column(Column::new("id", Datatype::Int32)).unwrap();
    db.add_table(t).unwrap();
    assert!(db.get_table("USERS").is_some());
    assert!(db.get_table("nobody").is_none());
    db.remove_table("useRS");
    assert!(db.get_table("users").is_none());
    assert!(db.list_tables().is_empty());
}
