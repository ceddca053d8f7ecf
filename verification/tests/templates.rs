use rat_quickdb::templates::{build_mysql_query_from_template, build_postgres_query_from_template, build_sqlite_query_from_template};
use rat_quickdb::text::{replace_text, trim_text};
use rat_quickdb::types::DataValue;

fn p(k: &str, v: DataValue) -> (String, DataValue) {
    (k.to_string(), v)
}

#[test]
fn text_replacement_matches_std() {
    for (s, from, to) in [("aaa", "aa", "b"), ("a,b, c", ", ", ","), ("", "x", "y"), ("xyx", "x", ""), ("  a  ", " ", "--")] {
        assert_eq!(replace_text(s, from, to), s.replace(from, to));
    }
    for s in ["  a b \n", "", "\t", "x"] {
        assert_eq!(trim_text(s), s.trim());
    }
}

#[test]
fn sqlite_templates_fill_and_tidy() {
    let params = vec![p("WHERE", DataValue::String("age > 18".to_string())), p("LIMIT", DataValue::Int(10))];
    assert_eq!(
        build_sqlite_query_from_template("SELECT * FROM users{WHERE}{GROUP_BY}{ORDER_BY}{LIMIT}", Some(&params)),
        "SELECT * FROM users WHERE age > 18 LIMIT 10"
    );
    assert_eq!(build_sqlite_query_from_template("SELECT a ,b FROM t {WHERE} {LIMIT} ", None), "SELECT a,b FROM t");
    let flags = vec![p("WHERE", DataValue::Bool(true)), p("OFFSET", DataValue::Int(5))];
    assert_eq!(build_sqlite_query_from_template(" SELECT 1{WHERE}{OFFSET}", Some(&flags)), "SELECT 1 WHERE true OFFSET 5");
}

#[test]
fn mysql_templates_drop_clause_keywords() {
    let params = vec![p("WHERE", DataValue::String("age > 18".to_string())), p("LIMIT", DataValue::Int(10))];
    assert_eq!(build_mysql_query_from_template("SELECT * FROM users{WHERE}{LIMIT}", Some(&params)), "SELECT * FROM usersage > 1810");
    assert_eq!(build_mysql_query_from_template("SELECT a ,b FROM t {WHERE} {LIMIT} ", None), "SELECT a,b FROM t  ");
}

#[test]
fn postgres_templates_keep_group_by() {
    let params = vec![p("GROUP_BY", DataValue::String("dept".to_string()))];
    assert_eq!(
        build_postgres_query_from_template("SELECT dept, count(*) FROM emp{WHERE}{GROUP_BY}", Some(&params)),
        "SELECT dept, count(*) FROM emp GROUP BY dept"
    );
    let limits = vec![p("LIMIT", DataValue::Int(3))];
    assert_eq!(build_postgres_query_from_template("SELECT 1{LIMIT}", Some(&limits)), "SELECT 13");
}
