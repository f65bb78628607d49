use sql_workbench::cell::{cell_json, first_decoding, DecodeAttempts, DecodedCell, JsonCell};
use sql_workbench::config::{config_path_parts, temp_file_name};
use sql_workbench::connection::{
    new_connection_id, pool_settings, saved_connection_from_request, saved_connection_with_id, summary_from_saved,
    ConnectRequest, SavedConnection,
};
use sql_workbench::error::{ApiError, ErrorStatus};
use sql_workbench::sql::{quote_identifier as quote};
use sql_workbench::query::{limit_rows, plan_query, QueryKind, QueryRequest};
use sql_workbench::registry::{ConnectionRegistry, LivePool, OpenPools, PoolStep};
use sql_workbench::schema::{
    data_columns, database_names, sample_query, table_columns, table_info, ColumnFields,
    TableFields,
};
use sql_workbench::text::{is_blank, trim};
use sql_workbench::{
    default_max_connections, default_max_rows, default_mysql_port, quote_identifier,
    returns_rows,
};

fn request(host: &str, username: &str) -> ConnectRequest {
    ConnectRequest {
        host: host.to_string(),
        port: default_mysql_port(),
        username: username.to_string(),
        password: "secret".to_string(),
        database: None,
        label: None,
        max_connections: default_max_connections(),
    }
}

fn saved(id: u128, label: &str) -> SavedConnection {
    SavedConnection {
        connection_id: id,
        label: label.to_string(),
        host: "localhost".to_string(),
        port: 3306,
        username: "root".to_string(),
        password: "pw".to_string(),
        database: None,
        max_connections: 5,
        last_server_version: None,
    }
}

fn expect_err<T>(r: Result<T, ApiError>) -> ApiError {
    match r {
        Ok(_) => panic!("expected an error"),
        Err(e) => e,
    }
}

#[test]
fn defaults() {
    assert_eq!(default_mysql_port(), 3306);
    assert_eq!(default_max_connections(), 5);
    assert_eq!(default_max_rows(), 500);
}

#[test]
fn returns_rows_keywords() {
    assert!(returns_rows("SELECT 1"));
    assert!(returns_rows("show tables"));
    assert!(returns_rows("Describe users"));
    assert!(returns_rows("desc users"));
    assert!(returns_rows("EXPLAIN SELECT 1"));
    assert!(returns_rows("with t as (select 1) select * from t"));
    assert!(!returns_rows("INSERT INTO t VALUES (1)"));
    assert!(!returns_rows("update t set a = 1"));
    assert!(!returns_rows(""));
    assert!(!returns_rows("   "));
    assert!(!returns_rows("selectx 1"));
    assert!(!returns_rows("SELECT(1)"));
    assert!(returns_rows("select\t1"));
}

#[test]
fn returns_rows_ignores_leading_whitespace_and_parentheses() {
    assert!(returns_rows("  ( (\n SELECT 1))"));
    assert!(returns_rows("\u{3000}\u{00A0}select 1"));
    assert!(!returns_rows("( delete from t"));
}

#[test]
fn returns_rows_ignores_ascii_case() {
    assert_eq!(returns_rows("SeLeCt 1"), returns_rows("SELECT 1"));
    assert_eq!(returns_rows("sHoW tables"), returns_rows("show tables"));
    assert_eq!(returns_rows("DeLeTe from t"), returns_rows("delete from t"));
}

#[test]
fn quote_identifier_examples() {
    assert_eq!(quote_identifier("users"), "`users`");
    assert_eq!(quote_identifier("a`b"), "`a``b`");
    assert_eq!(quote_identifier(""), "``");
    assert_eq!(quote_identifier("``"), "``````");
    assert_eq!(quote_identifier("tä ble"), "`tä ble`");
}

#[test]
fn quote_identifier_distinct_names_stay_distinct() {
    assert_ne!(quote_identifier("a`"), quote_identifier("a``"));
    assert_ne!(quote_identifier("a`b"), quote_identifier("a``b"));
}

#[test]
fn trim_and_blank() {
    assert_eq!(trim("  a b \n"), "a b");
    assert_eq!(trim("\u{2003}x\u{3000}"), "x");
    assert_eq!(trim("   "), "");
    assert!(is_blank(" \t\r\n"));
    assert!(is_blank(""));
    assert!(!is_blank(" [] "));
}

#[test]
fn saved_connection_trims_and_defaults_label() {
    let mut r = request("  db.local ", " root ");
    r.database = Some("  app ".to_string());
    let c = match saved_connection_with_id(r, 7) {
        Ok(c) => c,
        Err(_) => panic!("expected a connection"),
    };
    assert_eq!(c.connection_id, 7);
    assert_eq!(c.host, "db.local");
    assert_eq!(c.username, "root");
    assert_eq!(c.password, "secret");
    assert_eq!(c.database, Some("app".to_string()));
    assert_eq!(c.label, "root@db.local:3306");
    assert_eq!(c.max_connections, 5);
    assert_eq!(c.last_server_version, None);
}

#[test]
fn saved_connection_label_and_database() {
    let mut r = request("h", "u");
    r.label = Some(" Prod ".to_string());
    r.database = Some("   ".to_string());
    r.port = 13306;
    let c = match saved_connection_with_id(r, 1) {
        Ok(c) => c,
        Err(_) => panic!("expected a connection"),
    };
    assert_eq!(c.label, "Prod");
    assert_eq!(c.database, None);
    assert_eq!(c.port, 13306);

    let mut r = request("h", "u");
    r.label = Some("  ".to_string());
    r.port = 0;
    let c = match saved_connection_with_id(r, 1) {
        Ok(c) => c,
        Err(_) => panic!("expected a connection"),
    };
    assert_eq!(c.label, "u@h:0");
}

#[test]
fn saved_connection_clamps_pool_size() {
    for (given, kept) in [(0u32, 1u32), (1, 1), (7, 7), (20, 20), (21, 20), (u32::MAX, 20)] {
        let mut r = request("h", "u");
        r.max_connections = given;
        let c = match saved_connection_with_id(r, 1) {
            Ok(c) => c,
            Err(_) => panic!("expected a connection"),
        };
        assert_eq!(c.max_connections, kept);
    }
}

#[test]
fn saved_connection_requires_host_then_username() {
    let e = expect_err(saved_connection_with_id(request("  ", "root"), 1));
    assert_eq!(e.status, ErrorStatus::BadRequest);
    assert_eq!(e.message, "host is required");
    let e = expect_err(saved_connection_with_id(request("h", "\t"), 1));
    assert_eq!(e.status, ErrorStatus::BadRequest);
    assert_eq!(e.message, "username is required");
    let e = expect_err(saved_connection_with_id(request("", ""), 1));
    assert_eq!(e.message, "host is required");
}

#[test]
fn fresh_connection_ids_are_version_4() {
    let a = match saved_connection_from_request(request("h", "u")) {
        Ok(c) => c.connection_id,
        Err(_) => panic!("expected a connection"),
    };
    let b = match saved_connection_from_request(request("h", "u")) {
        Ok(c) => c.connection_id,
        Err(_) => panic!("expected a connection"),
    };
    assert_eq!((a >> 76) & 0xf, 4);
    assert_eq!((a >> 62) & 0x3, 2);
    assert_ne!(a, b);
}

#[test]
fn summary_leaves_out_password() {
    let mut c = saved(3, "L");
    c.last_server_version = Some("8.0.36".to_string());
    let s = summary_from_saved(&c, true);
    assert_eq!(s.connection_id, 3);
    assert_eq!(s.label, "L");
    assert_eq!(s.host, "localhost");
    assert_eq!(s.server_version, Some("8.0.36".to_string()));
    assert!(s.connected);
}

#[test]
fn pool_settings_trim_database_and_clamp() {
    let mut c = saved(1, "L");
    c.database = Some(" shop ".to_string());
    c.max_connections = 99;
    let p = pool_settings(&c);
    assert_eq!(p.database, Some("shop".to_string()));
    assert_eq!(p.max_connections, 20);
    c.database = Some("".to_string());
    c.max_connections = 0;
    let p = pool_settings(&c);
    assert_eq!(p.database, None);
    assert_eq!(p.max_connections, 1);
    assert_eq!(p.password, "pw");
}

#[test]
fn registry_insert_get_remove() {
    let mut r = ConnectionRegistry::new();
    assert!(r.get(1).is_none());
    assert!(r.insert(saved(1, "one")).is_none());
    assert!(r.insert(saved(2, "two")).is_none());
    assert_eq!(r.get(1).map(|c| c.label.clone()), Some("one".to_string()));
    let prev = r.insert(saved(1, "uno"));
    assert_eq!(prev.map(|c| c.label), Some("one".to_string()));
    assert_eq!(r.get(1).map(|c| c.label.clone()), Some("uno".to_string()));
    assert_eq!(r.remove(2).map(|c| c.label), Some("two".to_string()));
    assert!(r.get(2).is_none());
    assert!(r.remove(2).is_none());
}

#[test]
fn registry_delete_missing_is_not_found() {
    let mut r = ConnectionRegistry::new();
    r.insert(saved(5, "five"));
    let e = expect_err(r.delete(6));
    assert_eq!(e.status, ErrorStatus::NotFound);
    assert_eq!(e.status.code(), 404);
    assert_eq!(e.message, "connection not found");
    assert!(r.delete(5).is_ok());
    let e = expect_err(r.delete(5));
    assert_eq!(e.message, "connection not found");
    let e = expect_err(r.lookup(5));
    assert_eq!(e.status, ErrorStatus::NotFound);
}

#[test]
fn registry_records_server_version() {
    let mut r = ConnectionRegistry::new();
    r.insert(saved(5, "five"));
    r.record_server_version(5, "8.4.0".to_string());
    r.record_server_version(9, "ignored".to_string());
    assert_eq!(
        r.get(5).and_then(|c| c.last_server_version.clone()),
        Some("8.4.0".to_string())
    );
    assert!(r.get(9).is_none());
}

#[test]
fn registry_add_connected() {
    let mut r = ConnectionRegistry::new();
    let s = r.add_connected(saved(4, "four"), "8.0".to_string());
    assert!(s.connected);
    assert_eq!(s.server_version, Some("8.0".to_string()));
    assert_eq!(
        r.get(4).and_then(|c| c.last_server_version.clone()),
        Some("8.0".to_string())
    );
}

#[test]
fn registry_from_list_keeps_later_duplicate() {
    let list = vec![saved(1, "first"), saved(2, "b"), saved(1, "second")];
    let r = ConnectionRegistry::from_list(&list);
    assert_eq!(r.get(1).map(|c| c.label.clone()), Some("second".to_string()));
    assert_eq!(r.persisted().len(), 2);
}

#[test]
fn listing_is_sorted_by_label_with_live_versions() {
    let mut r = ConnectionRegistry::new();
    let mut b = saved(2, "beta");
    b.last_server_version = Some("old".to_string());
    r.insert(b);
    r.insert(saved(1, "alpha"));
    r.insert(saved(3, "Zeta"));
    r.insert(saved(4, "ähnlich"));
    let live = vec![LivePool { connection_id: 2, server_version: "new".to_string() }];
    let list = r.summaries(&live);
    let labels: Vec<&str> = list.iter().map(|s| s.label.as_str()).collect();
    assert_eq!(labels, vec!["Zeta", "alpha", "beta", "ähnlich"]);
    assert!(!list[1].connected);
    assert!(list[2].connected);
    assert_eq!(list[2].server_version, Some("new".to_string()));
    assert_eq!(list[1].server_version, None);
}

#[test]
fn persisted_then_reloaded_gives_same_connections() {
    let mut r = ConnectionRegistry::new();
    r.insert(saved(10, "b"));
    r.insert(saved(11, "a"));
    r.insert(saved(12, "c"));
    let out = r.persisted();
    let labels: Vec<&str> = out.iter().map(|c| c.label.as_str()).collect();
    assert_eq!(labels, vec!["a", "b", "c"]);
    let again = ConnectionRegistry::from_list(&out);
    for id in [10u128, 11, 12] {
        assert_eq!(
            again.get(id).map(|c| c.label.clone()),
            r.get(id).map(|c| c.label.clone())
        );
    }
    assert_eq!(again.persisted().len(), 3);
}

#[test]
fn plan_query_checks_and_clamps() {
    let e = expect_err(plan_query(&QueryRequest { sql: "  \n ".to_string(), max_rows: 5 }));
    assert_eq!(e.status, ErrorStatus::BadRequest);
    assert_eq!(e.status.code(), 400);
    assert_eq!(e.message, "sql is required");
    let p = match plan_query(&QueryRequest { sql: "  select 1 ".to_string(), max_rows: 0 }) {
        Ok(p) => p,
        Err(_) => panic!("expected a plan"),
    };
    assert_eq!(p.sql, "select 1");
    assert_eq!(p.max_rows, 1);
    assert_eq!(p.kind, QueryKind::Rows);
    let p = match plan_query(&QueryRequest { sql: "delete from t".to_string(), max_rows: 9999 }) {
        Ok(p) => p,
        Err(_) => panic!("expected a plan"),
    };
    assert_eq!(p.max_rows, 5000);
    assert_eq!(p.kind, QueryKind::Command);
    let p = match plan_query(&QueryRequest { sql: "show tables".to_string(), max_rows: 42 }) {
        Ok(p) => p,
        Err(_) => panic!("expected a plan"),
    };
    assert_eq!(p.max_rows, 42);
}

#[test]
fn limit_rows_cuts_and_reports() {
    let page = limit_rows(vec![1, 2, 3], 2);
    assert_eq!(page.rows, vec![1, 2]);
    assert_eq!(page.row_count, 3);
    assert!(page.limited);
    let page = limit_rows(vec![1, 2], 2);
    assert_eq!(page.rows, vec![1, 2]);
    assert!(!page.limited);
    let page: sql_workbench::query::RowsPage<u8> = limit_rows(vec![], 1);
    assert_eq!(page.row_count, 0);
    assert!(!page.limited);
}

fn column(name: &str, nullable: Option<&str>) -> ColumnFields {
    ColumnFields {
        name: Some(name.to_string()),
        column_type: Some("int".to_string()),
        is_nullable: nullable.map(|s| s.to_string()),
        key: None,
        default_value: None,
        extra: Some("auto_increment".to_string()),
        comment: None,
    }
}

#[test]
fn table_columns_and_sample() {
    let e = expect_err(table_columns(vec![]));
    assert_eq!(e.status, ErrorStatus::NotFound);
    assert_eq!(e.message, "table not found");
    let cols = match table_columns(vec![
        column("id", Some("NO")),
        column("note", Some("YES")),
        column("x", Some("yes")),
        column("y", None),
    ]) {
        Ok(c) => c,
        Err(_) => panic!("expected columns"),
    };
    assert_eq!(cols.len(), 4);
    assert_eq!(cols[0].name, "id");
    assert!(!cols[0].nullable);
    assert!(cols[1].nullable);
    assert!(!cols[2].nullable);
    assert!(!cols[3].nullable);
    assert_eq!(cols[0].key, "");
    assert_eq!(cols[0].extra, "auto_increment");
    let dc = data_columns(&cols);
    assert_eq!(dc.len(), 4);
    assert_eq!(dc[1].name, "note");
    assert_eq!(dc[1].type_label, "int");
    assert_eq!(sample_query("shop", "or`ders"), "SELECT * FROM `shop`.`or``ders` LIMIT 100");
}

#[test]
fn table_info_defaults() {
    let t = table_info(TableFields {
        name: None,
        table_type: Some("BASE TABLE".to_string()),
        engine: None,
        table_rows: Some(12),
        comment: Some("c".to_string()),
    });
    assert_eq!(t.name, "");
    assert_eq!(t.table_type, "BASE TABLE");
    assert_eq!(t.table_rows, Some(12));
}

#[test]
fn database_names_skip_unreadable() {
    let names = database_names(&vec![Some("a".to_string()), None, Some("b".to_string())]);
    assert_eq!(names, vec!["a".to_string(), "b".to_string()]);
}

fn text_of(c: JsonCell) -> String {
    match c {
        JsonCell::Text(t) => t,
        _ => panic!("expected text"),
    }
}

#[test]
fn cells_as_json() {
    assert!(matches!(cell_json(DecodedCell::Text(None)), JsonCell::Null));
    assert!(matches!(cell_json(DecodedCell::Signed(Some(-3))), JsonCell::Signed(-3)));
    assert!(matches!(cell_json(DecodedCell::Unsigned(Some(7))), JsonCell::Unsigned(7)));
    assert!(matches!(cell_json(DecodedCell::Boolean(Some(true))), JsonCell::Boolean(true)));
    assert!(matches!(cell_json(DecodedCell::Bytes(None)), JsonCell::Null));
    assert_eq!(text_of(cell_json(DecodedCell::Temporal(Some("2024-01-02".to_string())))), "2024-01-02");
    assert_eq!(text_of(cell_json(DecodedCell::Bytes(Some(b"hi".to_vec())))), "hi");
    assert_eq!(text_of(cell_json(DecodedCell::Bytes(Some(vec![0xff, 0xfe])))), "base64://4=");
    assert_eq!(text_of(cell_json(DecodedCell::Bytes(Some(vec![0x80, 1, 2, 3])))), "base64:gAECAw==");
    assert_eq!(text_of(cell_json(DecodedCell::Unsupported)), "<unsupported>");
}

#[test]
fn config_locations() {
    assert_eq!(config_path_parts(Some("/etc/c.json".to_string()), Some("/h".to_string())), vec!["/etc/c.json"]);
    assert_eq!(
        config_path_parts(None, Some("/home/me".to_string())),
        vec!["/home/me", ".config", "sql-workbench", "connections.json"]
    );
    assert_eq!(config_path_parts(None, None)[0], ".");
    assert_eq!(temp_file_name(Some("c.json".to_string())), "c.json.tmp");
    assert_eq!(temp_file_name(None), "connections.json.tmp");
}

#[test]
fn error_statuses() {
    assert_eq!(ApiError::internal("x".to_string()).status.code(), 500);
    assert_eq!(ApiError::from_database_error("bad".to_string()).status, ErrorStatus::BadRequest);
    assert_eq!(ApiError::from_io_error("io".to_string()).status, ErrorStatus::Internal);
    assert_eq!(ApiError::from_json_error("js".to_string()).status, ErrorStatus::Internal);
    assert_eq!(ApiError::new(ErrorStatus::NotFound, "m".to_string()).status.code(), 404);
}

fn no_attempts() -> DecodeAttempts {
    DecodeAttempts {
        text: None,
        signed: None,
        unsigned: None,
        floating: false,
        boolean: None,
        date_time: None,
        date: None,
        time: None,
        bytes: None,
    }
}

#[test]
fn first_decoding_takes_the_first_that_applies() {
    assert!(matches!(first_decoding(no_attempts()), DecodedCell::Unsupported));
    let mut a = no_attempts();
    a.signed = Some(Some(4));
    a.unsigned = Some(Some(4));
    a.bytes = Some(Some(vec![1]));
    assert!(matches!(first_decoding(a), DecodedCell::Signed(Some(4))));
    let mut a = no_attempts();
    a.floating = true;
    a.boolean = Some(Some(true));
    assert!(matches!(first_decoding(a), DecodedCell::Floating));
    let mut a = no_attempts();
    a.time = Some(Some("10:00:00".to_string()));
    a.bytes = Some(None);
    match first_decoding(a) {
        DecodedCell::Temporal(Some(t)) => assert_eq!(t, "10:00:00"),
        _ => panic!("expected a time"),
    }
    let mut a = no_attempts();
    a.text = Some(None);
    a.signed = Some(Some(1));
    assert!(matches!(first_decoding(a), DecodedCell::Text(None)));
    let mut a = no_attempts();
    a.bytes = Some(Some(vec![0xff]));
    assert_eq!(text_of(cell_json(first_decoding(a))), "base64:/w==");
}

#[test]
fn new_connection_ids_are_version_4() {
    let id = match new_connection_id() {
        Some(id) => id,
        None => panic!("the random source failed"),
    };
    assert_eq!((id >> 76) & 0xf, 4);
    assert_eq!((id >> 62) & 0x3, 2);
}

#[test]
fn quoted_identifier_has_even_backquote_runs_inside() {
    for name in ["a`b", "``", "x```y`", "`"] {
        let q = quote(name);
        let inner: Vec<char> = q.chars().collect();
        let inner = &inner[1..inner.len() - 1];
        let mut run = 0;
        for c in inner.iter().chain(std::iter::once(&' ')) {
            if *c == '`' {
                run += 1;
            } else {
                assert_eq!(run % 2, 0);
                run = 0;
            }
        }
    }
}

#[test]
fn pool_steps_and_deleted_connection() {
    let mut r = ConnectionRegistry::new();
    let mut open = OpenPools::new();
    let mut c = saved(8, "eight");
    c.database = Some(" app ".to_string());
    c.max_connections = 50;
    r.insert(c);
    match r.pool_step(&open, 8) {
        Ok(PoolStep::Open(p)) => {
            assert_eq!(p.database, Some("app".to_string()));
            assert_eq!(p.max_connections, 20);
        }
        _ => panic!("expected a pool to open"),
    }
    open.record_open(8, "8.0".to_string());
    assert!(open.is_open(8));
    assert!(matches!(r.pool_step(&open, 8), Ok(PoolStep::UseOpen)));
    let list = r.summaries(&open.live());
    assert!(list[0].connected);
    assert_eq!(list[0].server_version, Some("8.0".to_string()));
    assert!(r.delete(8).is_ok());
    assert!(open.close(8));
    assert!(!open.close(8));
    let e = expect_err(r.pool_step(&open, 8));
    assert_eq!(e.status, ErrorStatus::NotFound);
    assert_eq!(e.message, "connection not found");
}
