use axe::filter::{filter_services, fuzzy_score, trimmed};
use axe::lines::LineBuffer;
use axe::nav::{route, split_path_query, Route};
use axe::query::parse_query_params;

fn names(v: &[&str]) -> Vec<String> {
    v.iter().map(|s| s.to_string()).collect()
}

#[test]
fn empty_query_lists_all_by_name() {
    let all = names(&["web", "api", "Db"]);
    assert_eq!(filter_services("   ", &all), names(&["Db", "api", "web"]));
}

#[test]
fn filter_is_case_insensitive_and_ranked() {
    let all = names(&["billing-api", "API", "gateway", "apix"]);
    assert_eq!(filter_services(" Api ", &all), names(&["API", "apix", "billing-api"]));
}

#[test]
fn fuzzy_score_values() {
    let c = |s: &str| s.chars().collect::<Vec<char>>();
    assert_eq!(fuzzy_score(&c("ac"), &c("abcd")), Some(2));
    assert_eq!(fuzzy_score(&c("ca"), &c("abcd")), None);
    assert_eq!(fuzzy_score(&c(""), &c("abc")), Some(3));
}

#[test]
fn trims_whitespace() {
    assert_eq!(trimmed("\t a b \u{2003}"), "a b");
    assert_eq!(trimmed("   "), "");
}

#[test]
fn split_path_and_query() {
    assert_eq!(split_path_query("/service?name=a?b"), ("/service", "name=a?b"));
    assert_eq!(split_path_query("/settings"), ("/settings", ""));
}

#[test]
fn routes() {
    let q = parse_query_params("name=svc-a");
    assert!(matches!(route("/", &q), Route::Landing));
    assert!(matches!(route("/settings", &q), Route::Settings));
    match route("/service", &q) {
        Route::Service(n) => assert_eq!(n, "svc-a"),
        other => panic!("{:?}", other),
    }
    match route("/service", &parse_query_params("")) {
        Route::Service(n) => assert_eq!(n, "unknown"),
        other => panic!("{:?}", other),
    }
    assert!(matches!(route("/nope", &q), Route::NotFound));
}

#[test]
fn line_buffer_chunks() {
    let mut b = LineBuffer::new();
    assert!(b.push_bytes(b"ab").is_empty());
    let lines = b.push_bytes(b"c\r\nd\n\ne");
    assert_eq!(lines, vec![b"abc".to_vec(), b"d".to_vec(), b"".to_vec()]);
    assert_eq!(b.finish(), Some(b"e".to_vec()));
    assert_eq!(b.finish(), None);
}

#[test]
fn migrations_are_sql_files_by_name() {
    let files = names(&["b.sql", ".sql", "a.sql", "notes.md", "..sql", "c.sql.bak", "0001_init.sql"]);
    assert_eq!(
        axe::migrations::migration_order(&files),
        names(&["..sql", "0001_init.sql", "a.sql", "b.sql"])
    );
}
