use hive_ddl_parser::{parse_hive_create_table, RowFormat, StoredAs};
use hive_ddl_parser::{clean_parsed_string, Construct, Error, Expected, Token};

#[test]
fn duplicate_property_keys_kept_in_order() {
    let create =
        parse_hive_create_table("CREATE TABLE t TBLPROPERTIES ('k1'='v1', 'k1'='v2')").unwrap();
    let props = create.table_properties();
    assert_eq!(props.len(), 2);
    assert_eq!(props[0].key(), "k1");
    assert_eq!(props[0].value(), "v1");
    assert_eq!(props[1].key(), "k1");
    assert_eq!(props[1].value(), "v2");
}

#[test]
fn unquote_strips_quotes_and_escapes() {
    assert_eq!(clean_parsed_string("'pk.cols'"), "pk.cols");
    assert_eq!(clean_parsed_string("\"pk.cols\""), "pk.cols");
    assert_eq!(clean_parsed_string("'it\\'s'"), "it's");
    assert_eq!(clean_parsed_string("pk.cols"), "pk.cols");
    assert_eq!(clean_parsed_string("`db`"), "`db`");
    assert_eq!(clean_parsed_string(""), "");
    assert_eq!(clean_parsed_string("''"), "");
    assert_eq!(clean_parsed_string("'"), "'");
    assert_eq!(clean_parsed_string("'abc"), "'abc");
    assert_eq!(clean_parsed_string("'a\\\\b'"), "a\\b");
    assert_eq!(clean_parsed_string("'a\\nb'"), "anb");
}

#[test]
fn property_key_and_value_read_unquoted() {
    let create = parse_hive_create_table(
        "CREATE TABLE t TBLPROPERTIES ('pk.cols'='this, that', \"a\\\"b\"='x\\\\y')",
    )
    .unwrap();
    let props = create.table_properties();
    assert_eq!(props[0].raw_key(), "'pk.cols'");
    assert_eq!(props[0].key(), "pk.cols");
    assert_eq!(props[0].value(), "this, that");
    assert_eq!(props[1].raw_key(), "\"a\\\"b\"");
    assert_eq!(props[1].key(), "a\"b");
    assert_eq!(props[1].value(), "x\\y");
}

#[test]
fn serde_with_properties() {
    let create = parse_hive_create_table(
        "CREATE TABLE t ROW FORMAT SERDE 'S' WITH SERDEPROPERTIES ('a'='1', 'b'='2') \
         STORED AS INPUTFORMAT 'I' OUTPUTFORMAT 'O'",
    )
    .unwrap();
    assert_eq!(
        create.row_format(),
        &Some(RowFormat::Serde {
            serde_name: "'S'",
            properties: vec![("'a'", "'1'"), ("'b'", "'2'")]
        })
    );
    assert_eq!(
        create.stored_as(),
        &Some(StoredAs::InputOutputFormat { input_type: "'I'", output_type: "'O'" })
    );
}

#[test]
fn stored_as_shorthand_is_unsupported() {
    assert_eq!(
        parse_hive_create_table("CREATE TABLE t STORED AS ORC"),
        Err(Error::UnsupportedConstruct { position: 25, construct: Construct::StorageFormat })
    );
}

#[test]
fn delimited_row_format_is_unsupported() {
    assert_eq!(
        parse_hive_create_table("CREATE TABLE t ROW FORMAT DELIMITED"),
        Err(Error::UnsupportedConstruct { position: 26, construct: Construct::RowFormat })
    );
}

#[test]
fn parse_errors_name_position_and_token() {
    assert_eq!(
        parse_hive_create_table("SELECT 1"),
        Err(Error::ParseError { position: 0, expected: Expected::Create })
    );
    assert_eq!(
        parse_hive_create_table("CREATE VIEW v"),
        Err(Error::ParseError { position: 7, expected: Expected::ExternalOrTable })
    );
    assert_eq!(
        parse_hive_create_table("CREATE TABLE t (a)"),
        Err(Error::ParseError { position: 17, expected: Expected::DataType })
    );
    assert_eq!(
        parse_hive_create_table("CREATE TABLE t (a INT"),
        Err(Error::ParseError { position: 21, expected: Expected::CommentCommaOrCloseParen })
    );
    assert_eq!(
        parse_hive_create_table("CREATE TABLE t TBLPROPERTIES ('k' 'v')"),
        Err(Error::ParseError { position: 34, expected: Expected::Equals })
    );
    assert_eq!(
        parse_hive_create_table("CREATE TABLE t LOCATION s3"),
        Err(Error::ParseError { position: 24, expected: Expected::StringLiteral })
    );
    assert_eq!(
        parse_hive_create_table("CREATE TABLE t PARTITIONED (a INT)"),
        Err(Error::ParseError { position: 27, expected: Expected::By })
    );
    assert_eq!(
        parse_hive_create_table("CREATE TABLE"),
        Err(Error::ParseError { position: 12, expected: Expected::Identifier })
    );
}

#[test]
fn keywords_any_case_and_comments_skipped() {
    let create = parse_hive_create_table(
        "-- a table\ncreate external Table db.t (\n  a int, -- first\n  b string\n) location 'l'",
    )
    .unwrap();
    assert_eq!(create.database_name(), Some("db"));
    assert_eq!(create.table_name(), "t");
    assert_eq!(create.columns().len(), 2);
    assert_eq!(create.columns()[1].name(), "b");
    assert_eq!(create.location(), Some("'l'"));
}

#[test]
fn no_columns_and_empty_list() {
    let create = parse_hive_create_table("CREATE TABLE t").unwrap();
    assert_eq!(create.columns().len(), 0);
    assert_eq!(create.partition_keys().len(), 0);
    assert_eq!(create.table_properties().len(), 0);
    assert_eq!(create.row_format(), &None);
    assert_eq!(create.stored_as(), &None);
    assert_eq!(create.location(), None);
    let create = parse_hive_create_table("CREATE TABLE t ()").unwrap();
    assert_eq!(create.columns().len(), 0);
}

#[test]
fn nested_type_parameters_stay_whole() {
    let create = parse_hive_create_table(
        "CREATE TABLE t (m map<string,array<int>>, d decimal(10,2), s struct<a:int,b:string>)",
    )
    .unwrap();
    let cols = create.columns();
    assert_eq!(cols.len(), 3);
    assert_eq!(cols[0].data_type(), "map<string,array<int>>");
    assert_eq!(cols[1].data_type(), "decimal(10,2)");
    assert_eq!(cols[2].data_type(), "struct<a:int,b:string>");
}

#[test]
fn column_order_kept() {
    let create =
        parse_hive_create_table("CREATE TABLE t (c3 INT, c1 INT, c2 INT) PARTITIONED BY (p2 INT, p1 INT)")
            .unwrap();
    let names: Vec<&str> = create.columns().iter().map(|c| c.name()).collect();
    assert_eq!(names, vec!["c3", "c1", "c2"]);
    let keys: Vec<&str> = create.partition_keys().iter().map(|c| c.name()).collect();
    assert_eq!(keys, vec!["p2", "p1"]);
}

#[test]
fn trailing_content_is_not_read() {
    let create = parse_hive_create_table("CREATE TABLE t (a INT); CREATE TABLE u").unwrap();
    assert_eq!(create.table_name(), "t");
    assert_eq!(create.columns().len(), 1);
}

#[test]
fn positions_count_characters() {
    assert_eq!(
        parse_hive_create_table("CREATE TABLE `é` (x)"),
        Err(Error::ParseError { position: 19, expected: Expected::DataType })
    );
}

#[test]
fn serde_and_input_output_format_kept_as_written() {
    let create = parse_hive_create_table(
        "CREATE TABLE t ROW FORMAT SERDE 'org.apache.hadoop.hive.ql.io.orc.OrcSerde' \
         STORED AS INPUTFORMAT 'I' OUTPUTFORMAT 'O'",
    )
    .unwrap();
    assert_eq!(
        create.row_format(),
        &Some(RowFormat::Serde {
            serde_name: "'org.apache.hadoop.hive.ql.io.orc.OrcSerde'",
            properties: vec![]
        })
    );
    assert_eq!(
        create.stored_as(),
        &Some(StoredAs::InputOutputFormat { input_type: "'I'", output_type: "'O'" })
    );
}

#[test]
fn errors_name_every_token_accepted_there() {
    assert_eq!(
        parse_hive_create_table("CREATE EXTERNAL VIEW v"),
        Err(Error::ParseError { position: 16, expected: Expected::Table })
    );
    assert_eq!(
        parse_hive_create_table("CREATE TABLE t ("),
        Err(Error::ParseError { position: 16, expected: Expected::IdentifierOrCloseParen })
    );
    assert_eq!(
        parse_hive_create_table("CREATE TABLE t (a INT COMMENT 'x'"),
        Err(Error::ParseError { position: 33, expected: Expected::CommaOrCloseParen })
    );
    assert_eq!(
        parse_hive_create_table("CREATE TABLE t TBLPROPERTIES (1)"),
        Err(Error::ParseError { position: 30, expected: Expected::StringLiteralOrCloseParen })
    );
    assert_eq!(Expected::ExternalOrTable.tokens(), vec![Token::External, Token::Table]);
    assert_eq!(
        Expected::CommentCommaOrCloseParen.tokens(),
        vec![Token::Comment, Token::Comma, Token::CloseParen]
    );
    assert_eq!(Expected::Create.tokens(), vec![Token::Create]);
}

#[test]
fn brackets_close_only_their_own_kind() {
    assert_eq!(
        parse_hive_create_table("CREATE TABLE t (a DECIMAL(18, 2>)"),
        Err(Error::ParseError { position: 18, expected: Expected::DataType })
    );
    assert_eq!(
        parse_hive_create_table("CREATE TABLE t (a map<string,int)>)"),
        Err(Error::ParseError { position: 18, expected: Expected::DataType })
    );
    let create =
        parse_hive_create_table("CREATE TABLE t (a array<struct<b:decimal(4,1)>>)").unwrap();
    assert_eq!(create.columns()[0].data_type(), "array<struct<b:decimal(4,1)>>");
}

#[test]
fn other_storage_shorthand_is_unsupported() {
    assert_eq!(
        parse_hive_create_table("CREATE TABLE t (a INT) STORED AS PARQUET"),
        Err(Error::UnsupportedConstruct { position: 33, construct: Construct::StorageFormat })
    );
}
