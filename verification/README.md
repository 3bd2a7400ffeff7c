# sqlx_transaction

Nested transactions and trace comments for SQL connections, as a library that is verified with
[Verus](https://github.com/verus-lang/verus).

- `src/ansi_sql.rs`: the statements that open and close each nesting level.
- `src/transaction.rs`: drivers (`TransactionManager`) and the life of a `Transaction`;
  `src/transaction/recorded.rs` has what a transaction records on its span.
- `src/sqlite.rs`: the driver for SQLite connections.
- `src/laws.rs`: what holds over the life of a transaction, whichever way it ends.
- `src/sqlcommenter.rs`: trailing SQL comments that carry trace context;
  `src/sqlcommenter_disabled.rs` has the same functions for programs without comments.
- `src/percent.rs`, `src/decimal.rs`, `src/sql_str.rs`: the texts that these are made of.
- `src/telemetry.rs`: what is relied on of tracing spans.
- `app/`: asynchronous transactions on top of the library, which wait for the database and roll a
  transaction back when it goes out of scope.

The library never waits. A request such as `Transaction::commit` reaches the driver, and the reply
is handed to `Transaction::on_commit` when it has come.
