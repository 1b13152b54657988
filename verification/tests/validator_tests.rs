use db_mocker::datatype::Datatype;
use db_mocker::generator::{generate_create_table, Dialect, Value};
use db_mocker::schema::{Column, Table, User, UserType, VirtualDatabase};
use db_mocker::validator::{validate, validate_name, Finding, FindingKind, Location, Severity};

fn has_finding(findings: &[Finding], f: &Finding) -> bool {
    findings.iter().any(|x| x == f)
}

#[test]
fn validate_name_rejects_reserved_words_case_insensitively() {
    assert!(!validate_name("select"));
    assert!(!validate_name("SELECT"));
    assert!(!validate_name("Table"));
    assert!(!validate_name("vArChAr"));
    assert!(validate_name("customers"));
    assert!(validate_name(""));
}

#[test]
fn user_validate_flags_reserved_name() {
    let u = User::new("drop", "pw", "localhost", UserType::CRUD);
    let findings = u.validate();
    assert_eq!(findings.len(), 1);
    assert_eq!(
        findings[0],
        Finding {
            severity: Severity::Error,
            location: Location::User("drop".to_string()),
            kind: FindingKind::ReservedName,
        }
    );
}

#[test]
fn missing_primary_key_is_a_warning() {
    let mut db = VirtualDatabase::new("shop");
    let mut t = Table::new("logs");
    t.add_column(Column::new("message", Datatype::Varchar(100))).unwrap();
    db.add_table(t).unwrap();
    let findings = validate(&db);
    assert!(has_finding(
        &findings,
        &Finding {
            severity: Severity::Warning,
            location: Location::Table("logs".to_string()),
            kind: FindingKind::MissingPrimaryKey,
        }
    ));
}

#[test]
fn reserved_and_digit_and_empty_names_are_flagged() {
    let mut db = VirtualDatabase::new("shop");
    let mut t = Table::new("table");
    t.add_column(Column::new("1st", Datatype::Int32)).unwrap();
    t.add_column(Column::new("", Datatype::Int32)).unwrap();
    db.add_table(t).unwrap();
    let findings = validate(&db);
    assert!(has_finding(
        &findings,
        &Finding {
            severity: Severity::Error,
            location: Location::Table("table".to_string()),
            kind: FindingKind::ReservedName,
        }
    ));
    assert!(has_finding(
        &findings,
        &Finding {
            severity: Severity::Warning,
            location: Location::Column("table".to_string(), "1st".to_string()),
            kind: FindingKind::NameStartsWithDigit,
        }
    ));
    assert!(has_finding(
        &findings,
        &Finding {
            severity: Severity::Error,
            location: Location::Column("table".to_string(), "".to_string()),
            kind: FindingKind::EmptyName,
        }
    ));
}

#[test]
fn incompatible_defaults_are_errors() {
    let mut db = VirtualDatabase::new("shop");
    let mut t = Table::new("prefs");

    let mut theme = Column::new("theme", Datatype::Enum(vec!["light".to_string(), "dark".to_string()]));
    theme.set_default("blue");
    t.add_column(theme).unwrap();

    let mut count = Column::new("count", Datatype::Int32);
    count.set_default("12a");
    t.add_column(count).unwrap();

    let mut offset = Column::new("offset_ms", Datatype::Int32);
    offset.set_default("-5");
    t.add_column(offset).unwrap();

    let mut unsigned = Column::new("tries", Datatype::Uint8);
    unsigned.set_default("-5");
    t.add_column(unsigned).unwrap();

    let mut nick = Column::new("nick", Datatype::Varchar(3));
    nick.set_default("much too long");
    t.add_column(nick).unwrap();

    let mut flag = Column::new("flag", Datatype::Boolean);
    flag.set_default("true");
    t.add_column(flag).unwrap();

    let mut small = Column::new("small", Datatype::Int8);
    small.set_default("999");
    t.add_column(small).unwrap();

    let mut floor = Column::new("floor_val", Datatype::Int8);
    floor.set_default("-128");
    t.add_column(floor).unwrap();

    let mut ceil = Column::new("ceil_val", Datatype::Int8);
    ceil.set_default("128");
    t.add_column(ceil).unwrap();

    let mut byte_max = Column::new("byte_max", Datatype::Uint8);
    byte_max.set_default("255");
    t.add_column(byte_max).unwrap();

    let mut byte_over = Column::new("byte_over", Datatype::Uint8);
    byte_over.set_default("256");
    t.add_column(byte_over).unwrap();

    let mut wide = Column::new("wide", Datatype::Uint64);
    wide.set_default("18446744073709551615");
    t.add_column(wide).unwrap();

    let mut wider = Column::new("wider", Datatype::Uint64);
    wider.set_default("18446744073709551616");
    t.add_column(wider).unwrap();

    db.add_table(t).unwrap();
    let findings = validate(&db);

    let bad = |col: &str| Finding {
        severity: Severity::Error,
        location: Location::Column("prefs".to_string(), col.to_string()),
        kind: FindingKind::IncompatibleDefault,
    };
    assert!(has_finding(&findings, &bad("theme")));
    assert!(has_finding(&findings, &bad("count")));
    assert!(!has_finding(&findings, &bad("offset_ms")));
    assert!(has_finding(&findings, &bad("tries")));
    assert!(has_finding(&findings, &bad("nick")));
    assert!(!has_finding(&findings, &bad("flag")));
    assert!(has_finding(&findings, &bad("small")));
    assert!(!has_finding(&findings, &bad("floor_val")));
    assert!(has_finding(&findings, &bad("ceil_val")));
    assert!(!has_finding(&findings, &bad("byte_max")));
    assert!(has_finding(&findings, &bad("byte_over")));
    assert!(!has_finding(&findings, &bad("wide")));
    assert!(has_finding(&findings, &bad("wider")));
}

/// Float and temporal defaults are screened lexically: decimal shape for
/// floats, `YYYY-MM-DD` / `HH:MM:SS` / `YYYY-MM-DD HH:MM:SS` with plain
/// field ranges for dates and times, four digits for years.
#[test]
fn temporal_and_float_defaults_are_screened() {
    let mut db = VirtualDatabase::new("shop");
    let mut t = Table::new("probes");

    let cases: Vec<(&str, Datatype, &str, bool)> = vec![
        ("f_plain", Datatype::Float, "7", true),
        ("f_point", Datatype::Float, "3.25", true),
        ("f_neg", Datatype::Double, "-0.5", true),
        ("f_alpha", Datatype::Float, "zzz", false),
        ("f_trail", Datatype::Float, "1.", false),
        ("f_lead", Datatype::Double, ".5", false),
        ("f_two_points", Datatype::Float, "1.2.3", false),
        ("d_ok", Datatype::Date, "2024-06-01", true),
        ("d_alpha", Datatype::Date, "zzz", false),
        ("d_month", Datatype::Date, "2024-13-01", false),
        ("d_day", Datatype::Date, "2024-01-32", false),
        ("d_zero_month", Datatype::Date, "2024-00-10", false),
        ("t_ok", Datatype::Time, "23:59:59", true),
        ("t_hour", Datatype::Time, "24:00:00", false),
        ("dt_ok", Datatype::DateTime, "2024-06-01 12:30:00", true),
        ("dt_sep", Datatype::DateTime, "2024-06-01T12:30:00", false),
        ("y_ok", Datatype::Year, "2024", true),
        ("y_short", Datatype::Year, "24", false),
        ("y_alpha", Datatype::Year, "abcd", false),
    ];
    for (name, dt, default, _) in &cases {
        let mut c = Column::new(name, dt.clone());
        c.set_default(default);
        t.add_column(c).unwrap();
    }
    db.add_table(t).unwrap();
    let findings = validate(&db);
    for (name, _, _, fits) in &cases {
        let f = Finding {
            severity: Severity::Error,
            location: Location::Column("probes".to_string(), name.to_string()),
            kind: FindingKind::IncompatibleDefault,
        };
        assert_eq!(!has_finding(&findings, &f), *fits, "wrong verdict for {name}");
    }
}

/// Name legality covers table, column and user names only: the database's
/// own name is carried into the generated statements, never screened.
#[test]
fn database_name_is_not_screened() {
    let mut db = VirtualDatabase::new("select");
    let mut t = Table::new("users");
    t.add_column(Column::new("id", Datatype::Int32)).unwrap();
    t.add_primary_key("id").unwrap();
    db.add_table(t).unwrap();
    let findings = validate(&db);
    assert!(findings.is_empty(), "unexpected findings: {:?}", findings);
}

#[test]
fn varchar_length_zero_is_a_warning() {
    let mut db = VirtualDatabase::new("shop");
    let mut t = Table::new("odd");
    t.add_column(Column::new("blank", Datatype::Varchar(0))).unwrap();
    db.add_table(t).unwrap();
    let findings = validate(&db);
    assert!(has_finding(
        &findings,
        &Finding {
            severity: Severity::Warning,
            location: Location::Column("odd".to_string(), "blank".to_string()),
            kind: FindingKind::VarcharLengthZero,
        }
    ));
}

/// A foreign key whose origin table has left the database is reported as an
/// error at that foreign key's location — and the generator, if invoked
/// regardless, still renders well-formed FOREIGN KEY SQL.
#[test]
fn dangling_foreign_key_is_reported_but_still_renders() {
    let mut customers = Table::new("customers");
    customers.add_column(Column::new("id", Datatype::Int32)).unwrap();
    let siblings = vec![customers];

    let mut orders = Table::new("orders");
    orders.add_column(Column::new("customer_id", Datatype::Int32)).unwrap();
    orders.add_primary_key("customer_id").unwrap();
    orders.add_foreign_key("customer_id", "customers", "id", &siblings).unwrap();

    // the database never receives the customers table
    let mut db = VirtualDatabase::new("shop");
    db.add_table(orders).unwrap();

    let findings = validate(&db);
    assert!(has_finding(
        &findings,
        &Finding {
            severity: Severity::Error,
            location: Location::ForeignKey("orders".to_string(), 0),
            kind: FindingKind::UnknownForeignKeyTable,
        }
    ));

    let stmt = generate_create_table(&db.list_tables()[0], &Dialect::mysql()).unwrap();
    assert_eq!(
        stmt.template,
        "CREATE TABLE ? (? INT, PRIMARY KEY (?), FOREIGN KEY (?) REFERENCES ?(?));"
    );
    assert_eq!(
        stmt.parameters,
        vec![
            Value::Text("orders".to_string()),
            Value::Text("customer_id".to_string()),
            Value::Text("customer_id".to_string()),
            Value::Text("customer_id".to_string()),
            Value::Text("customers".to_string()),
            Value::Text("id".to_string()),
        ]
    );
}

#[test]
fn foreign_key_to_renamed_origin_column_is_reported() {
    let mut customers = Table::new("customers");
    customers.add_column(Column::new("id", Datatype::Int32)).unwrap();
    let siblings = vec![customers];

    let mut orders = Table::new("orders");
    orders.add_column(Column::new("customer_id", Datatype::Int32)).unwrap();
    orders.add_foreign_key("customer_id", "customers", "id", &siblings).unwrap();

    // the database holds a customers table whose column was renamed after
    // the edge was declared
    let mut db = VirtualDatabase::new("shop");
    let mut renamed = Table::new("customers");
    renamed.add_column(Column::new("uuid", Datatype::Int32)).unwrap();
    db.add_table(renamed).unwrap();
    db.add_table(orders).unwrap();

    let findings = validate(&db);
    assert!(has_finding(
        &findings,
        &Finding {
            severity: Severity::Error,
            location: Location::ForeignKey("orders".to_string(), 0),
            kind: FindingKind::UnknownForeignKeyColumn,
        }
    ));
}

#[test]
fn clean_schema_yields_no_findings() {
    let mut db = VirtualDatabase::new("shop");
    db.add_user(User::new("alice", "pw", "localhost", UserType::Admin)).unwrap();
    let mut t = Table::new("users");
    let mut id = Column::new("id", Datatype::Int32);
    id.set_auto_increment(true).unwrap();
    t.add_column(id).unwrap();
    t.add_primary_key("id").unwrap();
    db.add_table(t).unwrap();
    let findings = validate(&db);
    assert!(findings.is_empty(), "unexpected findings: {:?}", findings);
}
