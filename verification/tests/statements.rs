use matlog::authority::AuthorityManage;
use matlog::interface::{MaterializeOperator, TIME_INTERNAL};
use matlog::proposal::ProposalCollector;
use matlog::sql::{decimal_string, drop_sql, generic_view_sql, json_file, source_sql};
use matlog::voteset::VoteCollector;

#[test]
fn decimal_rendering() {
    assert_eq!(decimal_string(0), "0");
    assert_eq!(decimal_string(7), "7");
    assert_eq!(decimal_string(50), "50");
    assert_eq!(decimal_string(12345), "12345");
    assert_eq!(decimal_string(u64::MAX), "18446744073709551615");
}

#[test]
fn drop_statements() {
    assert_eq!(drop_sql("view", "authority"), "DROP view IF EXISTS authority_view;");
    assert_eq!(drop_sql("source", "voteset"), "DROP source IF EXISTS voteset_source;");
}

#[test]
fn file_paths() {
    assert_eq!(json_file("proposal"), "proposal.json");
    assert_eq!(json_file("authority"), "authority.json");
}

#[test]
fn source_statement() {
    assert_eq!(
        source_sql("proposal", "proposal.json", TIME_INTERNAL),
        "CREATE SOURCE IF NOT EXISTS proposal_source (json_data) FROM FILE 'proposal.json' \
         WITH (tail = true, timestamp_frequency_ms = 50) FORMAT BYTES;"
    );
}

#[test]
fn generic_view_statement() {
    assert_eq!(
        generic_view_sql("authority"),
        "CREATE MATERIALIZED VIEW IF NOT EXISTS authority_view AS SELECT CAST(data AS JSONB) \
         AS data FROM (SELECT CONVERT_FROM(json_data, 'utf8') AS data FROM authority_source);"
    );
}

#[test]
fn operator_statements() {
    let au = AuthorityManage::new();
    assert_eq!(au.name(), "authority");
    let (drop_view, drop_source) = au.clear_sql();
    assert_eq!(drop_view, "DROP view IF EXISTS authority_view;");
    assert_eq!(drop_source, "DROP source IF EXISTS authority_source;");
    assert_eq!(au.log_file(), "authority.json");
    assert!(au.create_view_sql().contains("authority_view"));
    assert!(au.create_source_sql("authority.json", TIME_INTERNAL).contains("tail = true"));
    assert_eq!(au.select_sql(), "SELECT data FROM authority_view order by height desc limit 1;");

    let props = ProposalCollector::new();
    assert_eq!(props.name(), "proposal");
    assert!(props.create_view_sql().contains("order by data asc"));
    assert_eq!(
        props.select_sql(),
        "SELECT data FROM proposal_view where height = $1 and round = $2;"
    );

    let votes = VoteCollector::new();
    assert_eq!(votes.name(), "voteset");
    assert!(votes.create_view_sql().contains("DISTINCT ON"));
    assert_eq!(
        votes.select_sql(),
        "SELECT data FROM voteset_view where height = $1 and round = $2 and step = $3;"
    );
}

#[test]
fn log_framing() {
    let mut log = matlog::eventlog::EventLog::new();
    let frame = log.append(&b"{\"height\":1}".to_vec());
    assert_eq!(frame, b"{\"height\":1}\n".to_vec());
    log.append(&b"{\"height\":2}".to_vec());
    assert_eq!(log.as_bytes(), &b"{\"height\":1}\n{\"height\":2}\n".to_vec());
    log.reset();
    assert!(log.as_bytes().is_empty());
}
