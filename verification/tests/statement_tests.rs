use streamdb::ast::{Ident, ObjectName, Parser, ParserError, SqlOption, Token, Value};
use streamdb::statement::{
    AstOption, AstString, DropMode, DropStatement, ParseTo, RowFormat, SourceSchema,
    SourceSchemaV2, UserOption,
};

fn opt(key: &str, value: Value) -> SqlOption {
    let idents = key.split('.').map(|p| Ident::new(p.to_string())).collect();
    SqlOption { name: ObjectName(idents), value }
}

fn string_opt(key: &str, value: &str) -> SqlOption {
    opt(key, Value::SingleQuotedString(value.to_string()))
}

#[test]
fn object_name_renders_dotted() {
    let name = ObjectName(vec![Ident::new("schema".to_string()), Ident::new("location".to_string())]);
    assert_eq!(name.real_value(), "schema.location");
}

#[test]
fn json_format_needs_no_options() {
    let schema = SourceSchemaV2::new(RowFormat::Json, vec![]);
    let (resolved, opts) = schema.into_source_schema().expect("a schema");
    assert!(matches!(resolved, SourceSchema::Json));
    assert!(opts.is_empty());
}

#[test]
fn protobuf_format_resolves_registry() {
    let options = vec![
        string_opt("message", "inventory.customers"),
        string_opt("schema.registry", "http://localhost:8081"),
    ];
    let schema = SourceSchemaV2::new(RowFormat::Protobuf, options);
    let (resolved, _) = schema.into_source_schema().expect("a schema");
    match resolved {
        SourceSchema::Protobuf(p) => {
            assert_eq!(p.message_name.0, "inventory.customers");
            assert_eq!(p.row_schema_location.0, "http://localhost:8081");
            assert!(p.use_schema_registry);
        },
        _ => panic!("expected a protobuf schema"),
    }
}

#[test]
fn protobuf_format_requires_message() {
    let options = vec![string_opt("schema.location", "file:///x.proto")];
    let schema = SourceSchemaV2::new(RowFormat::Protobuf, options);
    assert!(schema.into_source_schema().is_err());
}

#[test]
fn avro_rejects_both_location_and_registry() {
    let options = vec![
        string_opt("schema.location", "file:///x.avsc"),
        string_opt("schema.registry", "http://localhost:8081"),
    ];
    let schema = SourceSchemaV2::new(RowFormat::Avro, options);
    assert!(schema.into_source_schema().is_err());
}

#[test]
fn debezium_avro_requires_registry() {
    let options = vec![string_opt("schema.location", "file:///x.avsc")];
    let schema = SourceSchemaV2::new(RowFormat::DebeziumAvro, options);
    assert!(schema.into_source_schema().is_err());
    let options = vec![string_opt("schema.registry", "http://localhost:8081")];
    let schema = SourceSchemaV2::new(RowFormat::DebeziumAvro, options);
    let (resolved, _) = schema.into_source_schema().expect("a schema");
    match resolved {
        SourceSchema::DebeziumAvro(d) => {
            assert_eq!(d.row_schema_location.0, "http://localhost:8081");
        },
        _ => panic!("expected a debezium avro schema"),
    }
}

#[test]
fn csv_format_reads_delimiter_and_header() {
    let options = vec![
        string_opt("delimiter", ","),
        string_opt("without_header", "false"),
    ];
    let schema = SourceSchemaV2::new(RowFormat::Csv, options);
    let (resolved, _) = schema.into_source_schema().expect("a schema");
    match resolved {
        SourceSchema::Csv(c) => {
            assert_eq!(c.delimiter, b',');
            assert!(c.has_header);
        },
        _ => panic!("expected a csv schema"),
    }
    let options = vec![
        string_opt("delimiter", "|"),
        string_opt("without_header", "true"),
    ];
    let schema = SourceSchemaV2::new(RowFormat::Csv, options);
    let (resolved, _) = schema.into_source_schema().expect("a schema");
    match resolved {
        SourceSchema::Csv(c) => {
            assert_eq!(c.delimiter, b'|');
            assert!(!c.has_header);
        },
        _ => panic!("expected a csv schema"),
    }
}

#[test]
fn csv_rejects_long_delimiter() {
    let options = vec![string_opt("delimiter", ",,")];
    let schema = SourceSchemaV2::new(RowFormat::Csv, options);
    assert!(schema.into_source_schema().is_err());
}

#[test]
fn null_option_value_is_rejected() {
    let options = vec![opt("message", Value::Null)];
    let schema = SourceSchemaV2::new(RowFormat::Json, options);
    assert!(schema.into_source_schema().is_err());
}

#[test]
fn later_duplicate_option_wins() {
    let options = vec![
        string_opt("schema.registry", "http://first:8081"),
        string_opt("schema.registry", "http://second:8081"),
    ];
    let schema = SourceSchemaV2::new(RowFormat::Avro, options);
    let (resolved, _) = schema.into_source_schema().expect("a schema");
    match resolved {
        SourceSchema::Avro(a) => {
            assert_eq!(a.row_schema_location.0, "http://second:8081");
            assert!(a.use_schema_registry);
        },
        _ => panic!("expected an avro schema"),
    }
}

#[test]
fn boolean_option_value_becomes_text() {
    let options = vec![opt("schema.registry", Value::Boolean(true))];
    let schema = SourceSchemaV2::new(RowFormat::Avro, options);
    let (resolved, _) = schema.into_source_schema().expect("a schema");
    match resolved {
        SourceSchema::Avro(a) => assert_eq!(a.row_schema_location.0, "true"),
        _ => panic!("expected an avro schema"),
    }
}

#[test]
fn drop_statement_parses() {
    let tokens = vec![
        Token::Word("TABLE".to_string()),
        Token::Word("IF".to_string()),
        Token::Word("EXISTS".to_string()),
        Token::Word("schema".to_string()),
        Token::Period,
        Token::Word("table".to_string()),
        Token::Word("CASCADE".to_string()),
    ];
    let mut parser = Parser::new(tokens);
    let stmt = DropStatement::parse_to(&mut parser).expect("a drop statement");
    assert!(stmt.if_exists);
    assert_eq!(stmt.object_name.real_value(), "schema.table");
    assert!(matches!(stmt.drop_mode, AstOption::Present(DropMode::Cascade)));
}

#[test]
fn drop_statement_without_mode() {
    let tokens = vec![Token::Word("VIEW".to_string()), Token::Word("v1".to_string())];
    let mut parser = Parser::new(tokens);
    let stmt = DropStatement::parse_to(&mut parser).expect("a drop statement");
    assert!(!stmt.if_exists);
    assert_eq!(stmt.object_name.real_value(), "v1");
    assert!(matches!(stmt.drop_mode, AstOption::Absent));
}

#[test]
fn drop_statement_rejects_bad_object() {
    let tokens = vec![Token::Word("GIZMO".to_string())];
    let mut parser = Parser::new(tokens);
    assert!(matches!(
        DropStatement::parse_to(&mut parser),
        Err(ParserError::ParserError(_))
    ));
}

#[test]
fn ast_string_parses_literal() {
    let tokens = vec![Token::SingleQuotedString("hello".to_string())];
    let mut parser = Parser::new(tokens);
    let s = AstString::parse_to(&mut parser).expect("a literal");
    assert_eq!(s.0, "hello");
    assert_eq!(s.to_sql_string(), "'hello'");
}

#[test]
fn user_option_renders() {
    assert_eq!(UserOption::SuperUser.to_sql_string(), "SUPERUSER");
    assert_eq!(UserOption::NoLogin.to_sql_string(), "NOLOGIN");
    assert_eq!(
        UserOption::Password(Some(AstString("secret".to_string()))).to_sql_string(),
        "PASSWORD 'secret'"
    );
    assert_eq!(UserOption::Password(None).to_sql_string(), "PASSWORD NULL");
    assert_eq!(
        UserOption::EncryptedPassword(AstString("hash".to_string())).to_sql_string(),
        "ENCRYPTED PASSWORD 'hash'"
    );
}

#[test]
fn drop_mode_renders() {
    assert_eq!(DropMode::Cascade.to_sql_string(), "CASCADE");
    assert_eq!(DropMode::Restrict.to_sql_string(), "RESTRICT");
}
