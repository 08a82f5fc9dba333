use hive_ddl_parser::{parse_hive_create_table, RowFormat, StoredAs};


#[test]
fn create_table_no_db() {
    let create = parse_hive_create_table("CREATE TABLE `test`").unwrap();

    assert_eq!(create.database_name(), None);
    assert_eq!(create.table_name(), "`test`")
}

#[test]
fn create_table_with_db() {
    let create = parse_hive_create_table("CREATE TABLE `db`.`test`").unwrap();

    assert_eq!(create.database_name(), Some("`db`"));
    assert_eq!(create.table_name(), "`test`")
}

#[test]
fn parser_with_column() {
    let create = parse_hive_create_table("CREATE TABLE `db`.`test` (test INT)").unwrap();
    assert_eq!(create.database_name(), Some("`db`"));
    assert_eq!(create.table_name(), "`test`");
    let columns = create.columns();
    assert_eq!(columns.len(), 1);
    assert_eq!(columns[0].name(), "test");
    assert_eq!(columns[0].data_type(), "INT");
    assert_eq!(columns[0].comment(), None);
}

#[test]
fn table_with_multiple_columns() {
    let create =
        parse_hive_create_table("CREATE TABLE `db`.`test` (test INT, other DECIMAL(18, 2));")
            .unwrap();

    assert_eq!(create.database_name(), Some("`db`"));
    assert_eq!(create.table_name(), "`test`");
    let columns = create.columns();
    assert_eq!(columns.len(), 2);
    assert_eq!(columns[0].name(), "test");
    assert_eq!(columns[0].data_type(), "INT");
    assert_eq!(columns[0].comment(), None);
    assert_eq!(columns[1].name(), "other");
    assert_eq!(columns[1].data_type(), "DECIMAL(18, 2)");
    assert_eq!(columns[1].comment(), None);
}

#[test]
fn table_with_row_format_and_file_format() {
    let create = parse_hive_create_table(
        "CREATE EXTERNAL TABLE `hive_example`.`example`(
   `source` string COMMENT '',
   `table_name` string COMMENT '',
   `action` string COMMENT '',
   `created_at` timestamp COMMENT '',
   `row_id` binary COMMENT '',
   `event_time` timestamp COMMENT '',
   `group` int COMMENT 'Group',
   `group_name` string COMMENT 'group name',
   `description` string COMMENT 'description'
   )
    ROW FORMAT SERDE
        'org.apache.hadoop.hive.ql.io.orc.OrcSerde'
    STORED AS INPUTFORMAT
        'org.apache.hadoop.hive.ql.io.orc.OrcInputFormat'
        OUTPUTFORMAT
            'org.apache.hadoop.hive.ql.io.orc.OrcOutputFormat'
   ",
    )
    .unwrap();

    assert_eq!(create.columns().len(), 9);

    assert_eq!(
        create.row_format(),
        &Some(RowFormat::Serde {
            serde_name: "'org.apache.hadoop.hive.ql.io.orc.OrcSerde'",
            properties: vec![]
        })
    );

    assert_eq!(
        create.stored_as(),
        &Some(StoredAs::InputOutputFormat {
            input_type: "'org.apache.hadoop.hive.ql.io.orc.OrcInputFormat'",
            output_type: "'org.apache.hadoop.hive.ql.io.orc.OrcOutputFormat'"
        })
    );
}

#[test]
fn with_location() {
    let create = parse_hive_create_table(
        "CREATE EXTERNAL TABLE db.test
    LOCATION
        's3://location/'
   ",
    )
    .unwrap();

    assert_eq!(create.location(), Some("'s3://location/'"))
}

#[test]
fn table_properties() {
    let create = parse_hive_create_table(
        "CREATE EXTERNAL TABLE db.test
    TBLPROPERTIES (
        'pk.cols'='this, that',
        'provisioned.by.class'='Snappy',
        'lastDdlTime'='214123523')
",
    )
    .unwrap();

    let pairs: Vec<(&str, &str)> = create
        .table_properties()
        .iter()
        .map(|p| (p.raw_key(), p.raw_value()))
        .collect();
    assert_eq!(
        pairs,
        vec![
            ("'pk.cols'", "'this, that'"),
            ("'provisioned.by.class'", "'Snappy'"),
            ("'lastDdlTime'", "'214123523'")
        ]
    );
}

#[test]
fn table_with_partitions() {
    let create = parse_hive_create_table(
        "CREATE EXTERNAL TABLE `hive_example`.`example`(
   `source` string COMMENT '',
   `table_name` string COMMENT '',
   `action` string COMMENT '')
PARTITIONED BY (
   `created_at` timestamp COMMENT 'create time',
   group int
   )",
    )
    .unwrap();

    let keys = create.partition_keys();
    assert_eq!(keys.len(), 2);
    assert_eq!(keys[0].name(), "`created_at`");
    assert_eq!(keys[0].data_type(), "timestamp");
    assert_eq!(keys[0].comment(), Some("'create time'"));
    assert_eq!(keys[1].name(), "group");
    assert_eq!(keys[1].data_type(), "int");
    assert_eq!(keys[1].comment(), None);
}
