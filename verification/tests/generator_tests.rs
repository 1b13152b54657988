use db_mocker::datatype::Datatype;
use db_mocker::generator::{
    dialect_for, generate_create_database, generate_create_table, generate_create_user, Dialect,
    GenerationError, Value,
};
use db_mocker::schema::{Column, Table, User, UserType, VirtualDatabase};
use db_mocker::settings::DbmsType;

fn text(s: &str) -> Value {
    Value::Text(s.to_string())
}

/// The end-to-end scenario: a database `shop` with one table
/// `users(id INT AUTO_INCREMENT, name VARCHAR(50) NOT NULL, PRIMARY KEY(id))`,
/// rendered with every identifier and size bound through a placeholder.
#[test]
fn shop_users_renders_exactly() {
    let mut db = VirtualDatabase::new("shop");
    let mut users = Table::new("users");
    let mut id = Column::new("id", Datatype::Int32);
    id.set_auto_increment(true).unwrap();
    users.add_column(id).unwrap();
    let mut name = Column::new("name", Datatype::Varchar(50));
    name.set_not_null(true);
    users.add_column(name).unwrap();
    users.add_primary_key("id").unwrap();
    db.add_table(users).unwrap();

    let stmts = generate_create_database(&db, &Dialect::mysql()).unwrap();
    assert_eq!(stmts.len(), 2);

    assert_eq!(stmts[0].template, "CREATE DATABASE ?;");
    assert_eq!(stmts[0].parameters, vec![text("shop")]);

    assert_eq!(
        stmts[1].template,
        "CREATE TABLE ? (? INT AUTO_INCREMENT, ? VARCHAR (?) NOT NULL, PRIMARY KEY (?));"
    );
    assert_eq!(
        stmts[1].parameters,
        vec![text("users"), text("id"), text("name"), Value::Uint(50), text("id")]
    );
}

#[test]
fn create_user_and_grant_render_per_role() {
    let admin = User::new("root_like", "secret", "localhost", UserType::Admin);
    let (create, grant) = generate_create_user(&admin, "shop");
    assert_eq!(create.template, "CREATE USER '?'@'?' IDENTIFIED BY '?';");
    assert_eq!(create.parameters, vec![text("root_like"), text("localhost"), text("secret")]);
    assert_eq!(grant.template, "GRANT ALL ON ?.* TO '?'@'?' WITH GRANT OPTION;");
    assert_eq!(grant.parameters, vec![text("shop"), text("root_like"), text("localhost")]);

    let worker = User::new("worker", "pw", "%", UserType::CRUD);
    let (_, grant2) = generate_create_user(&worker, "shop");
    assert_eq!(grant2.template, "GRANT INSERT, SELECT, UPDATE, DELETE ON ?.* TO '?'@'?';");
    assert_eq!(grant2.parameters, vec![text("shop"), text("worker"), text("%")]);
}

#[test]
fn statements_keep_the_mandatory_order() {
    let mut db = VirtualDatabase::new("shop");
    db.add_user(User::new("alice", "pw", "localhost", UserType::Admin)).unwrap();
    db.add_user(User::new("bob", "pw", "%", UserType::CRUD)).unwrap();
    let mut t = Table::new("users");
    t.add_column(Column::new("id", Datatype::Int32)).unwrap();
    db.add_table(t).unwrap();

    let stmts = generate_create_database(&db, &Dialect::mysql()).unwrap();
    assert_eq!(stmts.len(), 6);
    assert!(stmts[0].template.starts_with("CREATE DATABASE"));
    assert!(stmts[1].template.starts_with("CREATE USER"));
    assert!(stmts[2].template.starts_with("GRANT ALL"));
    assert!(stmts[3].template.starts_with("CREATE USER"));
    assert!(stmts[4].template.starts_with("GRANT INSERT"));
    assert!(stmts[5].template.starts_with("CREATE TABLE"));
    assert_eq!(stmts[1].parameters[0], text("alice"));
    assert_eq!(stmts[3].parameters[0], text("bob"));
}

#[test]
fn empty_column_list_is_a_generation_error() {
    let t = Table::new("hollow");
    let r = generate_create_table(&t, &Dialect::mysql());
    assert_eq!(r, Err(GenerationError::EmptyColumnList("hollow".to_string())));
}

#[test]
fn empty_enum_value_list_is_a_generation_error() {
    let mut db = VirtualDatabase::new("shop");
    let mut t = Table::new("prefs");
    t.add_column(Column::new("ok_col", Datatype::Int32)).unwrap();
    t.add_column(Column::new("theme", Datatype::Enum(Vec::new()))).unwrap();
    db.add_table(t).unwrap();
    let r = generate_create_database(&db, &Dialect::mysql());
    assert_eq!(
        r,
        Err(GenerationError::EmptyValueList("prefs".to_string(), "theme".to_string()))
    );
}

#[test]
fn enum_and_set_bind_each_declared_value() {
    let mut t = Table::new("prefs");
    t.add_column(Column::new(
        "theme",
        Datatype::Enum(vec!["light".to_string(), "dark".to_string()]),
    ))
    .unwrap();
    t.add_column(Column::new("tags", Datatype::SetOf(vec!["a".to_string()]))).unwrap();
    let stmt = generate_create_table(&t, &Dialect::mysql()).unwrap();
    assert_eq!(stmt.template, "CREATE TABLE ? (? ENUM ('?', '?'), ? SET ('?'));");
    assert_eq!(
        stmt.parameters,
        vec![
            text("prefs"),
            text("theme"),
            text("light"),
            text("dark"),
            text("tags"),
            text("a"),
        ]
    );
}

#[test]
fn full_table_renders_every_clause_in_order() {
    let mut customers = Table::new("customers");
    customers.add_column(Column::new("id", Datatype::Int32)).unwrap();
    let siblings = vec![customers];

    let mut t = Table::new("orders");
    let mut id = Column::new("id", Datatype::Uint64);
    id.set_auto_increment(true).unwrap();
    t.add_column(id).unwrap();
    t.add_column(Column::new("customer_id", Datatype::Int32)).unwrap();
    let mut note = Column::new("note", Datatype::Varchar(100));
    note.set_default("none");
    t.add_column(note).unwrap();
    t.add_primary_key("id").unwrap();
    t.add_foreign_key("customer_id", "customers", "id", &siblings).unwrap();
    t.add_unique("note").unwrap();
    t.add_index(&vec!["customer_id".to_string(), "id".to_string()]).unwrap();

    let stmt = generate_create_table(&t, &Dialect::mysql()).unwrap();
    assert_eq!(
        stmt.template,
        "CREATE TABLE ? (? BIGINT UNSIGNED AUTO_INCREMENT, ? INT, ? VARCHAR (?) DEFAULT ?, \
         PRIMARY KEY (?), FOREIGN KEY (?) REFERENCES ?(?), UNIQUE (?), INDEX (?, ?));"
    );
    assert_eq!(
        stmt.parameters,
        vec![
            text("orders"),
            text("id"),
            text("customer_id"),
            text("note"),
            Value::Uint(100),
            text("none"),
            text("id"),
            text("customer_id"),
            text("customers"),
            text("id"),
            text("note"),
            text("customer_id"),
            text("id"),
        ]
    );
}

/// Every primary-key, unique and index column name bound in the generated
/// DDL is present in the table's column list.
#[test]
fn generated_key_names_reference_existing_columns() {
    let mut t = Table::new("events");
    t.add_column(Column::new("id", Datatype::Int64)).unwrap();
    t.add_column(Column::new("day", Datatype::Date)).unwrap();
    t.add_column(Column::new("kind", Datatype::Int16)).unwrap();
    t.add_primary_key("id").unwrap();
    t.add_unique("day").unwrap();
    t.add_index(&vec!["kind".to_string(), "day".to_string()]).unwrap();

    let stmt = generate_create_table(&t, &Dialect::mysql()).unwrap();
    let column_names: Vec<&str> = t.list_columns().iter().map(|c| c.get_name()).collect();
    // every bound value past the column definitions names a declared column
    for v in &stmt.parameters[4..] {
        match v {
            Value::Text(n) => assert!(column_names.contains(&n.as_str()), "dangling name {n}"),
            Value::Uint(_) => panic!("no numeric values belong to key clauses here"),
        }
    }
}

/// Regenerating from the same model yields byte-identical statements.
#[test]
fn generation_is_deterministic() {
    let mut db = VirtualDatabase::new("shop");
    db.add_user(User::new("alice", "pw", "localhost", UserType::Admin)).unwrap();
    let mut t = Table::new("users");
    t.add_column(Column::new("id", Datatype::Int32)).unwrap();
    t.add_primary_key("id").unwrap();
    db.add_table(t).unwrap();

    let a = generate_create_database(&db, &Dialect::mysql()).unwrap();
    let b = generate_create_database(&db, &Dialect::mysql()).unwrap();
    assert_eq!(a, b);
}

/// A table's CREATE TABLE statement does not depend on where the table
/// stands among its siblings: the FOREIGN KEY clause names the declared
/// origin verbatim either way.
#[test]
fn table_statement_is_independent_of_declaration_order() {
    let mut customers = Table::new("customers");
    customers.add_column(Column::new("id", Datatype::Int32)).unwrap();
    let mut orders = Table::new("orders");
    orders.add_column(Column::new("customer_id", Datatype::Int32)).unwrap();
    orders
        .add_foreign_key("customer_id", "customers", "id", &vec![customers.clone()])
        .unwrap();

    let mut db1 = VirtualDatabase::new("shop");
    db1.add_table(customers.clone()).unwrap();
    db1.add_table(orders.clone()).unwrap();

    let mut db2 = VirtualDatabase::new("shop");
    db2.add_table(orders).unwrap();
    db2.add_table(customers).unwrap();

    let s1 = generate_create_database(&db1, &Dialect::mysql()).unwrap();
    let s2 = generate_create_database(&db2, &Dialect::mysql()).unwrap();
    // orders is last in db1, first in db2
    assert_eq!(s1[2], s2[1]);
    // and its FOREIGN KEY values name the declared origin verbatim
    let fk_params = &s1[2].parameters[2..5];
    assert_eq!(fk_params, &[text("customer_id"), text("customers"), text("id")]);
}

#[test]
fn dialect_lookup_covers_every_datatype() {
    let d = dialect_for(&DbmsType::MySQL);
    let cases = vec![
        (Datatype::Int8, "TINYINT"),
        (Datatype::Uint8, "TINYINT UNSIGNED"),
        (Datatype::Int16, "SMALLINT"),
        (Datatype::Uint16, "SMALLINT UNSIGNED"),
        (Datatype::Int32, "INT"),
        (Datatype::Uint32, "INT UNSIGNED"),
        (Datatype::Int64, "BIGINT"),
        (Datatype::Uint64, "BIGINT UNSIGNED"),
        (Datatype::Float, "FLOAT"),
        (Datatype::Double, "DOUBLE"),
        (Datatype::Boolean, "BOOLEAN"),
        (Datatype::Date, "DATE"),
        (Datatype::Time, "TIME"),
        (Datatype::DateTime, "DATETIME"),
        (Datatype::Year, "YEAR"),
    ];
    for (dt, sql) in cases {
        let mut t = Table::new("probe");
        t.add_column(Column::new("c", dt)).unwrap();
        let stmt = generate_create_table(&t, &d).unwrap();
        assert_eq!(stmt.template, format!("CREATE TABLE ? (? {sql});"));
    }
}
