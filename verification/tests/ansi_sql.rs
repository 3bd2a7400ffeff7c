use sqlx_transaction::ansi_sql::{
    begin_ansi_transaction_sql, begin_statement, commit_ansi_transaction_sql,
    rollback_ansi_transaction_sql, Error,
};
use sqlx_transaction::decimal::push_decimal;
use sqlx_transaction::sql_str::SqlStr;

#[test]
fn outermost_level_is_a_transaction() {
    assert_eq!(begin_ansi_transaction_sql(0).as_str(), "BEGIN");
    assert_eq!(commit_ansi_transaction_sql(1).as_str(), "COMMIT");
    assert_eq!(rollback_ansi_transaction_sql(1).as_str(), "ROLLBACK");
}

#[test]
fn inner_levels_are_savepoints() {
    assert_eq!(
        begin_ansi_transaction_sql(1).as_str(),
        "SAVEPOINT _sqlx_savepoint_1"
    );
    assert_eq!(
        commit_ansi_transaction_sql(2).as_str(),
        "RELEASE SAVEPOINT _sqlx_savepoint_1"
    );
    assert_eq!(
        rollback_ansi_transaction_sql(2).as_str(),
        "ROLLBACK TO SAVEPOINT _sqlx_savepoint_1"
    );
}

#[test]
fn savepoint_names_match_at_every_level() {
    for depth in [1usize, 9, 10, 99, 100, 12345, usize::MAX - 1] {
        assert_eq!(
            begin_ansi_transaction_sql(depth).as_str(),
            format!("SAVEPOINT _sqlx_savepoint_{depth}")
        );
        assert_eq!(
            commit_ansi_transaction_sql(depth + 1).as_str(),
            format!("RELEASE SAVEPOINT _sqlx_savepoint_{depth}")
        );
        assert_eq!(
            rollback_ansi_transaction_sql(depth + 1).as_str(),
            format!("ROLLBACK TO SAVEPOINT _sqlx_savepoint_{depth}")
        );
    }
}

#[test]
fn statements_tell_levels_apart() {
    for a in 0usize..30 {
        for b in 0usize..30 {
            let same = a == b;
            assert_eq!(
                begin_ansi_transaction_sql(a) == begin_ansi_transaction_sql(b),
                same
            );
            assert_eq!(
                commit_ansi_transaction_sql(a + 1) == commit_ansi_transaction_sql(b + 1),
                same
            );
            assert_eq!(
                rollback_ansi_transaction_sql(a + 1) == rollback_ansi_transaction_sql(b + 1),
                same
            );
        }
    }
}

#[test]
fn custom_statement_opens_a_transaction() {
    let custom = SqlStr::Static("BEGIN IMMEDIATE");
    assert_eq!(
        begin_statement(0, Some(custom)),
        Ok(SqlStr::Static("BEGIN IMMEDIATE"))
    );
}

#[test]
fn custom_statement_is_refused_inside_a_transaction() {
    for depth in [1usize, 2, 7] {
        assert_eq!(
            begin_statement(depth, Some(SqlStr::Static("BEGIN IMMEDIATE"))),
            Err(Error::InvalidSavePoint)
        );
    }
}

#[test]
fn default_statement_depends_on_the_level() {
    assert_eq!(begin_statement(0, None), Ok(SqlStr::Static("BEGIN")));
    assert_eq!(
        begin_statement(3, None),
        Ok(SqlStr::Owned(String::from("SAVEPOINT _sqlx_savepoint_3")))
    );
}

#[test]
fn decimal_notation() {
    for n in [0usize, 1, 9, 10, 11, 100, 909, usize::MAX] {
        let mut out = String::from("n=");
        push_decimal(&mut out, n);
        assert_eq!(out, format!("n={n}"));
    }
}
