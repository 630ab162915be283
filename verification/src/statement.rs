//! The statement forms of the SQL dialect that concern sources, sinks,
//! connections and users, and the translation of a parsed row-format
//! clause into a source schema.

use vstd::prelude::*;
use crate::ast::{ColumnDef, Ident, ObjectName, ObjectType, Parser, ParserError, Query, SqlOption,
    SourceWatermark, TableConstraint, Token, Value, EmitMode, name_key};

verus! {

/// Consumes tokens from the parser into a syntax-tree node.
pub trait ParseTo: Sized {
    fn parse_to(parser: &mut Parser) -> (r: Result<Self, ParserError>)
        requires
            old(parser).wf(),
        ensures
            final(parser).wf(),
            final(parser).tokens@ == old(parser).tokens@,
    ;
}

/// A string literal; it renders with single quotes.
#[derive(Debug)]
pub struct AstString(pub String);

impl Clone for AstString {
    /// A cloned literal holds the same characters.
    fn clone(&self) -> (r: AstString)
        ensures
            r == *self,
    {
        AstString(self.0.clone())
    }
}

impl AstString {
    /// Renders the literal inside single quotes.
    pub fn to_sql_string(&self) -> (r: String)
        ensures
            r@ == seq!['\''] + self.0@ + seq!['\''],
    {
        let mut r = String::from_str("'");
        r.append(self.0.as_str());
        r.append("'");
        proof {
            reveal_strlit("'");
            assert("'"@ =~= seq!['\'']);
        }
        r
    }
}

impl ParseTo for AstString {
    /// Reads one string literal.
    fn parse_to(parser: &mut Parser) -> (r: Result<AstString, ParserError>) {
        match parser.parse_literal_string() {
            Result::Ok(s) => Result::Ok(AstString(s)),
            Result::Err(e) => Result::Err(e),
        }
    }
}

/// A list of nodes that renders space-separated.
#[derive(Clone, Debug)]
pub struct AstVec<T>(pub Vec<T>);

/// `Option` in syntax-tree form, so that a missing part renders as
/// nothing.
#[derive(Clone, Debug)]
pub enum AstOption<T> {
    /// No value.
    Absent,
    /// Some value `T`.
    Present(T),
}

impl<T> AstOption<T> {
    pub fn into_option(self) -> (r: Option<T>)
        ensures
            match self {
                AstOption::Present(t) => r == Option::Some(t),
                AstOption::Absent => r is None,
            },
    {
        match self {
            AstOption::Present(t) => Option::Some(t),
            AstOption::Absent => Option::None,
        }
    }
}

impl<T: ParseTo> ParseTo for AstOption<T> {
    /// Tries the inner form; failure means absence.
    fn parse_to(parser: &mut Parser) -> (r: Result<AstOption<T>, ParserError>) {
        match T::parse_to(parser) {
            Result::Ok(t) => Result::Ok(AstOption::Present(t)),
            Result::Err(_) => Result::Ok(AstOption::Absent),
        }
    }
}

/// The WITH list of a CREATE statement.
#[derive(Clone, Debug)]
pub struct WithProperties(pub Vec<SqlOption>);

/// A ROW SCHEMA LOCATION clause.
#[derive(Clone, Debug)]
pub struct RowSchemaLocation {
    pub value: AstString,
}

/// How rows of a source are encoded, as written after ROW FORMAT.
#[derive(Clone, Copy, Debug, PartialEq, Eq, Structural)]
pub enum RowFormat {
    Protobuf,
    Json,
    DebeziumJson,
    DebeziumMongoJson,
    UpsertJson,
    Avro,
    UpsertAvro,
    Maxwell,
    CanalJson,
    Csv,
    DebeziumAvro,
    Bytes,
    Native,
}

/// A protobuf-encoded source: the message and where its schema lives.
#[derive(Clone, Debug)]
pub struct ProtobufSchema {
    pub message_name: AstString,
    pub row_schema_location: AstString,
    pub use_schema_registry: bool,
}

/// An avro-encoded source: where its schema lives.
#[derive(Clone, Debug)]
pub struct AvroSchema {
    pub row_schema_location: AstString,
    pub use_schema_registry: bool,
}

/// A change-capture avro source: its schema registry.
#[derive(Clone, Debug)]
pub struct DebeziumAvroSchema {
    pub row_schema_location: AstString,
}

/// A CSV source: its delimiter and whether a header row leads.
#[derive(Clone, Copy, Debug, PartialEq, Eq, Structural)]
pub struct CsvInfo {
    pub delimiter: u8,
    pub has_header: bool,
}

/// The schema of a source, resolved from the row format and its
/// options.
#[derive(Clone, Debug)]
pub enum SourceSchema {
    Protobuf(ProtobufSchema),
    Json,
    DebeziumJson,
    DebeziumMongoJson,
    UpsertJson,
    Avro(AvroSchema),
    UpsertAvro(AvroSchema),
    Maxwell,
    CanalJson,
    Csv(CsvInfo),
    Native,
    DebeziumAvro(DebeziumAvroSchema),
    Bytes,
}

/// A parsed ROW FORMAT clause: the format word and its options, not
/// yet resolved into a schema.
#[derive(Clone, Debug)]
pub struct SourceSchemaV2 {
    row_format: RowFormat,
    row_options: Vec<SqlOption>,
}

/// What an option's value contributes to the option map.
pub open spec fn opt_value_view(v: Value) -> Seq<char> {
    match v {
        Value::SingleQuotedString(s) => s@,
        Value::Number(n) => n@,
        Value::Boolean(b) => if b {
            "true"@
        } else {
            "false"@
        },
        Value::Null => Seq::empty(),
    }
}

/// Whether an option's value has a supported form.
pub open spec fn opt_supported(v: Value) -> bool {
    !(v is Null)
}

/// All options have supported values.
pub open spec fn opts_ok(opts: Seq<SqlOption>) -> bool {
    forall|i: int| 0 <= i < opts.len() ==> opt_supported((#[trigger] opts[i]).value)
}

/// The value of the last option named `key`, the way a map built by
/// inserting the options in order would hold it.
pub open spec fn lookup_opt(opts: Seq<SqlOption>, key: Seq<char>) -> Option<Seq<char>>
    decreases opts.len(),
{
    if opts.len() == 0 {
        Option::None
    } else if name_key(opts.last().name.0@) == key {
        Option::Some(opt_value_view(opts.last().value))
    } else {
        lookup_opt(opts.drop_last(), key)
    }
}

/// Exactly one way of locating the schema is given: a location, or a
/// registry.
pub open spec fn schema_location_ok(opts: Seq<SqlOption>) -> bool {
    lookup_opt(opts, "schema.location"@) is Some <==> lookup_opt(opts, "schema.registry"@) is None
}

/// Whether the resolved use of a registry: a registry was named.
pub open spec fn uses_registry(opts: Seq<SqlOption>) -> bool {
    lookup_opt(opts, "schema.registry"@) is Some
}

/// The located schema of the options: the registry when one is named,
/// else the location.
pub open spec fn schema_location_view(opts: Seq<SqlOption>) -> Seq<char> {
    if uses_registry(opts) {
        lookup_opt(opts, "schema.registry"@)->Some_0
    } else {
        lookup_opt(opts, "schema.location"@)->Some_0
    }
}

/// Whether a leading header row is expected: written as
/// `without_header = 'false'`, or not written at all.
pub open spec fn csv_has_header(opts: Seq<SqlOption>) -> bool {
    match lookup_opt(opts, "without_header"@) {
        Option::Some(w) => w == "false"@,
        Option::None => true,
    }
}

/// The delimiter option is present and names one ascii character.
pub open spec fn csv_ok(opts: Seq<SqlOption>) -> bool {
    let dv = lookup_opt(opts, "delimiter"@);
    match dv {
        Option::Some(d) => { d.len() == 1 && (d[0] as u32) < 128 },
        Option::None => false,
    }
}

/// The schema is the CSV schema the options describe.
pub open spec fn csv_matches(schema: SourceSchema, opts: Seq<SqlOption>) -> bool {
    let dv = lookup_opt(opts, "delimiter"@);
    match (schema, dv) {
        (SourceSchema::Csv(c), Option::Some(d)) => {
            d.len() == 1 && c.delimiter == d[0] as u8 && c.has_header == csv_has_header(opts)
        },
        _ => false,
    }
}

/// Reports whether every option value has a supported form.
fn check_opts_ok(opts: &Vec<SqlOption>) -> (r: bool)
    ensures
        r == opts_ok(opts@),
{
    let mut i: usize = 0;
    while i < opts.len()
        invariant
            i <= opts@.len(),
            forall|w: int| 0 <= w < i ==> opt_supported((#[trigger] opts@[w]).value),
        decreases opts@.len() - i,
    {
        let bad = match &opts[i].value {
            Value::Null => true,
            _ => false,
        };
        if bad {
            return false;
        }
        i = i + 1;
    }
    true
}

/// Finds the value of the last option named `key`.
fn lookup_option(opts: &Vec<SqlOption>, key: &str) -> (r: Option<String>)
    ensures
        match r {
            Option::Some(s) => lookup_opt(opts@, key@) matches Option::Some(v) && s@ == v,
            Option::None => lookup_opt(opts@, key@) is None,
        },
{
    let key_string = String::from_str(key);
    let mut i: usize = opts.len();
    proof {
        assert(opts@.take(opts@.len() as int) =~= opts@);
    }
    while i > 0
        invariant
            i <= opts@.len(),
            key_string@ == key@,
            lookup_opt(opts@, key@) == lookup_opt(opts@.take(i as int), key@),
        decreases i,
    {
        let ghost iold = i as int;
        i = i - 1;
        let name = opts[i].name.real_value();
        proof {
            assert(opts@.take(iold) =~= opts@.take(i + 1));
            assert(lookup_opt(opts@, key@) == lookup_opt(opts@.take(i + 1), key@));
            assert(opts@.take(i + 1).drop_last() =~= opts@.take(i as int));
            assert(opts@.take(i + 1).last() == opts@[i as int]);
        }
        if name == key_string {
            let v = match &opts[i].value {
                Value::SingleQuotedString(s) => s.clone(),
                Value::Number(n) => n.clone(),
                Value::Boolean(b) => {
                    if *b {
                        String::from_str("true")
                    } else {
                        String::from_str("false")
                    }
                },
                Value::Null => String::new(),
            };
            proof {
                assert(v@ == opt_value_view(opts@[i as int].value));
            }
            return Option::Some(v);
        }
    }
    proof {
        assert(opts@.take(0) =~= Seq::<SqlOption>::empty());
    }
    Option::None
}

impl SourceSchemaV2 {
    pub closed spec fn spec_row_format(self) -> RowFormat {
        self.row_format
    }

    pub closed spec fn spec_row_options(self) -> Vec<SqlOption> {
        self.row_options
    }

    pub fn new(row_format: RowFormat, row_options: Vec<SqlOption>) -> (r: SourceSchemaV2)
        ensures
            r.spec_row_format() == row_format,
            r.spec_row_options() == row_options,
    {
        SourceSchemaV2 { row_format, row_options }
    }

    /// Resolves the parsed row format and its options into a source
    /// schema, handing the options back unchanged for the surrounding
    /// statement.
    pub fn into_source_schema(self) -> (r: Result<(SourceSchema, Vec<SqlOption>), ParserError>)
        requires
            !(self.spec_row_format() is Native),
        ensures
            ({
                let opts = self.spec_row_options()@;
                match r {
                    Result::Ok((schema, opts_back)) => {
                        &&& opts_back == self.spec_row_options()
                        &&& opts_ok(opts)
                        &&& match self.spec_row_format() {
                            RowFormat::Json => schema is Json,
                            RowFormat::DebeziumJson => schema is DebeziumJson,
                            RowFormat::DebeziumMongoJson => schema is DebeziumMongoJson,
                            RowFormat::UpsertJson => schema is UpsertJson,
                            RowFormat::Maxwell => schema is Maxwell,
                            RowFormat::CanalJson => schema is CanalJson,
                            RowFormat::Bytes => schema is Bytes,
                            RowFormat::Native => true,
                            RowFormat::Protobuf => ({
                                &&& schema_location_ok(opts)
                                &&& lookup_opt(opts, "message"@) is Some
                                &&& schema matches SourceSchema::Protobuf(p)
                                &&& p.message_name.0@ == lookup_opt(opts, "message"@)->Some_0
                                &&& p.row_schema_location.0@ == schema_location_view(opts)
                                &&& p.use_schema_registry == uses_registry(opts)
                            }),
                            RowFormat::Avro => ({
                                &&& schema_location_ok(opts)
                                &&& schema matches SourceSchema::Avro(a)
                                &&& a.row_schema_location.0@ == schema_location_view(opts)
                                &&& a.use_schema_registry == uses_registry(opts)
                            }),
                            RowFormat::UpsertAvro => ({
                                &&& schema_location_ok(opts)
                                &&& schema matches SourceSchema::UpsertAvro(a)
                                &&& a.row_schema_location.0@ == schema_location_view(opts)
                                &&& a.use_schema_registry == uses_registry(opts)
                            }),
                            RowFormat::DebeziumAvro => ({
                                &&& schema_location_ok(opts)
                                &&& uses_registry(opts)
                                &&& schema matches SourceSchema::DebeziumAvro(d)
                                &&& d.row_schema_location.0@ == schema_location_view(opts)
                            }),
                            RowFormat::Csv => csv_ok(opts) && csv_matches(schema, opts),
                        }
                    },
                    Result::Err(_) => {
                        ||| !opts_ok(opts)
                        ||| match self.spec_row_format() {
                            RowFormat::Protobuf => !(schema_location_ok(opts) && lookup_opt(
                                opts,
                                "message"@,
                            ) is Some),
                            RowFormat::Avro => !schema_location_ok(opts),
                            RowFormat::UpsertAvro => !schema_location_ok(opts),
                            RowFormat::DebeziumAvro => !(schema_location_ok(opts) && uses_registry(
                                opts,
                            )),
                            RowFormat::Csv => !csv_ok(opts),
                            _ => false,
                        }
                    },
                }
            }),
    {
        let SourceSchemaV2 { row_format, row_options } = self;
        if !check_opts_ok(&row_options) {
            return Result::Err(
                ParserError::ParserError(
                    String::from_str("`row format options` only support single quoted string value"),
                ),
            );
        }
        let schema = match row_format {
            RowFormat::Json => SourceSchema::Json,
            RowFormat::DebeziumJson => SourceSchema::DebeziumJson,
            RowFormat::DebeziumMongoJson => SourceSchema::DebeziumMongoJson,
            RowFormat::UpsertJson => SourceSchema::UpsertJson,
            RowFormat::Maxwell => SourceSchema::Maxwell,
            RowFormat::CanalJson => SourceSchema::CanalJson,
            RowFormat::Bytes => SourceSchema::Bytes,
            RowFormat::Native => SourceSchema::Native,
            RowFormat::Protobuf => {
                let message = match lookup_option(&row_options, "message") {
                    Option::Some(m) => m,
                    Option::None => {
                        return Result::Err(
                            ParserError::ParserError(
                                String::from_str("missing field message in row format options"),
                            ),
                        );
                    },
                };
                match resolve_schema_location(&row_options) {
                    Result::Ok((location, use_registry)) => SourceSchema::Protobuf(
                        ProtobufSchema {
                            message_name: AstString(message),
                            row_schema_location: AstString(location),
                            use_schema_registry: use_registry,
                        },
                    ),
                    Result::Err(e) => {
                        return Result::Err(e);
                    },
                }
            },
            RowFormat::Avro => {
                match resolve_schema_location(&row_options) {
                    Result::Ok((location, use_registry)) => SourceSchema::Avro(
                        AvroSchema {
                            row_schema_location: AstString(location),
                            use_schema_registry: use_registry,
                        },
                    ),
                    Result::Err(e) => {
                        return Result::Err(e);
                    },
                }
            },
            RowFormat::UpsertAvro => {
                match resolve_schema_location(&row_options) {
                    Result::Ok((location, use_registry)) => SourceSchema::UpsertAvro(
                        AvroSchema {
                            row_schema_location: AstString(location),
                            use_schema_registry: use_registry,
                        },
                    ),
                    Result::Err(e) => {
                        return Result::Err(e);
                    },
                }
            },
            RowFormat::DebeziumAvro => {
                match resolve_schema_location(&row_options) {
                    Result::Ok((location, use_registry)) => {
                        if !use_registry {
                            return Result::Err(
                                ParserError::ParserError(
                                    String::from_str(
                                        "schema location for DEBEZIUM_AVRO row format is not supported",
                                    ),
                                ),
                            );
                        }
                        SourceSchema::DebeziumAvro(
                            DebeziumAvroSchema { row_schema_location: AstString(location) },
                        )
                    },
                    Result::Err(e) => {
                        return Result::Err(e);
                    },
                }
            },
            RowFormat::Csv => {
                let delimiter_string = match lookup_option(&row_options, "delimiter") {
                    Option::Some(d) => d,
                    Option::None => {
                        return Result::Err(
                            ParserError::ParserError(
                                String::from_str("missing field delimiter in row format options"),
                            ),
                        );
                    },
                };
                let ds = delimiter_string.as_str();
                if ds.unicode_len() != 1 {
                    return Result::Err(
                        ParserError::ParserError(
                            String::from_str("The delimiter should be a char"),
                        ),
                    );
                }
                let c = ds.get_char(0);
                if c as u32 >= 128 {
                    return Result::Err(
                        ParserError::ParserError(
                            String::from_str("The delimiter should be a char"),
                        ),
                    );
                }
                let delimiter = c as u8;
                let has_header = match lookup_option(&row_options, "without_header") {
                    Option::Some(s) => s == String::from_str("false"),
                    Option::None => true,
                };
                SourceSchema::Csv(CsvInfo { delimiter, has_header })
            },
        };
        Result::Ok((schema, row_options))
    }
}

/// Resolves where the schema lives: exactly one of a location or a
/// registry must be named in the options.
fn resolve_schema_location(opts: &Vec<SqlOption>) -> (r: Result<(String, bool), ParserError>)
    ensures
        match r {
            Result::Ok((location, use_registry)) => ({
                &&& schema_location_ok(opts@)
                &&& use_registry == uses_registry(opts@)
                &&& location@ == schema_location_view(opts@)
            }),
            Result::Err(_) => !schema_location_ok(opts@),
        },
{
    let location = lookup_option(opts, "schema.location");
    let registry = lookup_option(opts, "schema.registry");
    match (location, registry) {
        (Option::None, Option::None) => Result::Err(
            ParserError::ParserError(
                String::from_str("missing either a schema location or a schema registry"),
            ),
        ),
        (Option::None, Option::Some(r)) => Result::Ok((r, true)),
        (Option::Some(l), Option::None) => Result::Ok((l, false)),
        (Option::Some(_), Option::Some(_)) => Result::Err(
            ParserError::ParserError(
                String::from_str("missing either a schema location or a schema registry"),
            ),
        ),
    }
}

/// A CREATE SOURCE statement.
#[derive(Clone, Debug)]
pub struct CreateSourceStatement {
    pub if_not_exists: bool,
    pub columns: Vec<ColumnDef>,
    pub constraints: Vec<TableConstraint>,
    pub source_name: ObjectName,
    pub with_properties: WithProperties,
    pub source_schema: SourceSchema,
    pub source_watermarks: Vec<SourceWatermark>,
}

/// What a sink reads from: a named relation, or a query.
#[derive(Clone, Debug)]
pub enum CreateSink {
    From(ObjectName),
    AsQuery(Box<Query>),
}

/// A CREATE SINK statement.
#[derive(Clone, Debug)]
pub struct CreateSinkStatement {
    pub if_not_exists: bool,
    pub sink_name: ObjectName,
    pub with_properties: WithProperties,
    pub sink_from: CreateSink,
    pub columns: Vec<Ident>,
    pub emit_mode: Option<EmitMode>,
}

/// A CREATE CONNECTION statement.
#[derive(Clone, Debug)]
pub struct CreateConnectionStatement {
    pub if_not_exists: bool,
    pub connection_name: ObjectName,
    pub with_properties: WithProperties,
}

/// One property of a CREATE USER or ALTER USER statement.
#[derive(Clone, Debug)]
pub enum UserOption {
    SuperUser,
    NoSuperUser,
    CreateDB,
    NoCreateDB,
    CreateUser,
    NoCreateUser,
    Login,
    NoLogin,
    EncryptedPassword(AstString),
    Password(Option<AstString>),
}

impl UserOption {
    /// Renders the option as it is written in a statement.
    pub fn to_sql_string(&self) -> (r: String)
        ensures
            match self {
                UserOption::SuperUser => r@ == "SUPERUSER"@,
                UserOption::NoSuperUser => r@ == "NOSUPERUSER"@,
                UserOption::CreateDB => r@ == "CREATEDB"@,
                UserOption::NoCreateDB => r@ == "NOCREATEDB"@,
                UserOption::CreateUser => r@ == "CREATEUSER"@,
                UserOption::NoCreateUser => r@ == "NOCREATEUSER"@,
                UserOption::Login => r@ == "LOGIN"@,
                UserOption::NoLogin => r@ == "NOLOGIN"@,
                UserOption::EncryptedPassword(p) => r@ == "ENCRYPTED PASSWORD "@ + seq!['\'']
                    + p.0@ + seq!['\''],
                UserOption::Password(p) => match p {
                    Option::None => r@ == "PASSWORD NULL"@,
                    Option::Some(v) => r@ == "PASSWORD "@ + seq!['\''] + v.0@ + seq!['\''],
                },
            },
    {
        match self {
            UserOption::SuperUser => String::from_str("SUPERUSER"),
            UserOption::NoSuperUser => String::from_str("NOSUPERUSER"),
            UserOption::CreateDB => String::from_str("CREATEDB"),
            UserOption::NoCreateDB => String::from_str("NOCREATEDB"),
            UserOption::CreateUser => String::from_str("CREATEUSER"),
            UserOption::NoCreateUser => String::from_str("NOCREATEUSER"),
            UserOption::Login => String::from_str("LOGIN"),
            UserOption::NoLogin => String::from_str("NOLOGIN"),
            UserOption::EncryptedPassword(p) => {
                let mut r = String::from_str("ENCRYPTED PASSWORD ");
                let quoted = p.to_sql_string();
                r.append(quoted.as_str());
                r
            },
            UserOption::Password(p) => match p {
                Option::None => String::from_str("PASSWORD NULL"),
                Option::Some(v) => {
                    let mut r = String::from_str("PASSWORD ");
                    let quoted = v.to_sql_string();
                    r.append(quoted.as_str());
                    r
                },
            },
        }
    }
}

/// The property list of a CREATE USER or ALTER USER statement.
#[derive(Clone, Debug)]
pub struct UserOptions(pub Vec<UserOption>);

/// A CREATE USER statement.
#[derive(Clone, Debug)]
pub struct CreateUserStatement {
    pub user_name: ObjectName,
    pub with_options: UserOptions,
}

/// How an ALTER USER statement changes the user.
#[derive(Clone, Debug)]
pub enum AlterUserMode {
    Options(UserOptions),
    Rename(ObjectName),
}

/// An ALTER USER statement.
#[derive(Clone, Debug)]
pub struct AlterUserStatement {
    pub user_name: ObjectName,
    pub mode: AlterUserMode,
}

/// Whether a DROP cascades to dependent objects.
#[derive(Clone, Copy, Debug, PartialEq, Eq, Structural)]
pub enum DropMode {
    Cascade,
    Restrict,
}

impl DropMode {
    /// Renders the mode as it is written in a statement.
    pub fn to_sql_string(&self) -> (r: String)
        ensures
            match self {
                DropMode::Cascade => r@ == "CASCADE"@,
                DropMode::Restrict => r@ == "RESTRICT"@,
            },
    {
        match self {
            DropMode::Cascade => String::from_str("CASCADE"),
            DropMode::Restrict => String::from_str("RESTRICT"),
        }
    }
}

impl ParseTo for DropMode {
    /// Reads CASCADE or RESTRICT.
    fn parse_to(parser: &mut Parser) -> (r: Result<DropMode, ParserError>) {
        if parser.parse_keyword("CASCADE") {
            Result::Ok(DropMode::Cascade)
        } else if parser.parse_keyword("RESTRICT") {
            Result::Ok(DropMode::Restrict)
        } else {
            Result::Err(ParserError::ParserError(String::from_str("expected CASCADE | RESTRICT")))
        }
    }
}

/// A DROP statement.
#[derive(Clone, Debug)]
pub struct DropStatement {
    /// The kind of object to drop.
    pub object_type: ObjectType,
    /// Whether IF EXISTS was written.
    pub if_exists: bool,
    /// The object to drop.
    pub object_name: ObjectName,
    /// Whether CASCADE or RESTRICT was written.
    pub drop_mode: AstOption<DropMode>,
}

impl ParseTo for ObjectType {
    /// Reads the kind of object a DROP names.
    fn parse_to(parser: &mut Parser) -> (r: Result<ObjectType, ParserError>) {
        if parser.parse_keyword("TABLE") {
            Result::Ok(ObjectType::Table)
        } else if parser.parse_keyword("VIEW") {
            Result::Ok(ObjectType::View)
        } else if parser.parse_keyword("INDEX") {
            Result::Ok(ObjectType::Index)
        } else if parser.parse_keyword("SCHEMA") {
            Result::Ok(ObjectType::Schema)
        } else if parser.parse_keyword("SOURCE") {
            Result::Ok(ObjectType::Source)
        } else if parser.parse_keyword("SINK") {
            Result::Ok(ObjectType::Sink)
        } else if parser.parse_keyword("DATABASE") {
            Result::Ok(ObjectType::Database)
        } else if parser.parse_keyword("USER") {
            Result::Ok(ObjectType::User)
        } else if parser.parse_keyword("CONNECTION") {
            Result::Ok(ObjectType::Connection)
        } else {
            Result::Err(
                ParserError::ParserError(String::from_str("expected an object type to drop")),
            )
        }
    }
}

impl ParseTo for DropStatement {
    /// Reads the object kind, an optional IF EXISTS, the object name,
    /// and an optional drop mode.
    fn parse_to(parser: &mut Parser) -> (r: Result<DropStatement, ParserError>) {
        let object_type = match ObjectType::parse_to(parser) {
            Result::Ok(t) => t,
            Result::Err(e) => {
                return Result::Err(e);
            },
        };
        let mut if_exists = false;
        if parser.parse_keyword("IF") {
            if parser.parse_keyword("EXISTS") {
                if_exists = true;
            } else {
                return Result::Err(
                    ParserError::ParserError(String::from_str("expected EXISTS after IF")),
                );
            }
        }
        let object_name = match parse_object_name(parser) {
            Result::Ok(n) => n,
            Result::Err(e) => {
                return Result::Err(e);
            },
        };
        let drop_mode = match AstOption::<DropMode>::parse_to(parser) {
            Result::Ok(m) => m,
            Result::Err(e) => {
                return Result::Err(e);
            },
        };
        Result::Ok(DropStatement { object_type, if_exists, object_name, drop_mode })
    }
}

/// Reads a possibly qualified name: identifiers separated by periods.
fn parse_object_name(parser: &mut Parser) -> (r: Result<ObjectName, ParserError>)
    requires
        old(parser).wf(),
    ensures
        final(parser).wf(),
        final(parser).tokens@ == old(parser).tokens@,
        match r {
            Result::Ok(n) => n.0@.len() >= 1,
            Result::Err(_) => true,
        },
{
    let mut idents: Vec<Ident> = Vec::new();
    loop
        invariant
            parser.wf(),
            parser.tokens@ == old(parser).tokens@,
        ensures
            parser.wf(),
            parser.tokens@ == old(parser).tokens@,
            idents@.len() >= 1,
        decreases parser.tokens@.len() + 1 - parser.index,
    {
        let t = parser.next_token();
        match t {
            Token::Word(w) => {
                idents.push(Ident::new(w));
            },
            _ => {
                return Result::Err(
                    ParserError::ParserError(String::from_str("expected an identifier")),
                );
            },
        }
        let more = match parser.peek_token() {
            Token::Period => true,
            _ => false,
        };
        if !more {
            break;
        }
        let _ = parser.next_token();
    }
    Result::Ok(ObjectName(idents))
}

} // verus!
