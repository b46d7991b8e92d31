//! Round trips of data-manipulation statements: parse the text, render
//! it back, and expect the original text.

use scylla_rs::dml::{
    BatchStatement, DeleteStatement, InsertStatement, SelectStatement, UpdateStatement,
};
use scylla_rs::parse::StatementStream;

#[test]
fn test_parse_select() {
    let statement = "SELECT movie, director \
            FROM movies.NerdMovies \
            WHERE main_actor = 'Nathan Fillion' \
            AND year > 2011 \
            AND year <= 2012";
    let mut stream = StatementStream::new(statement);
    let select_statement = SelectStatement::parse(&mut stream).unwrap();
    assert_eq!(statement.to_string().replace("\n", ""), select_statement.to_cql())
}

#[test]
fn test_parse_insert() {
    let statement = "INSERT INTO NerdMovies (movie, director, main_actor, year) \
            VALUES ('Serenity', 'Joss Whedon', 'Nathan Fillion', 2005) \
            IF NOT EXISTS USING TTL 86400";
    let mut stream = StatementStream::new(statement);
    let insert_statement = InsertStatement::parse(&mut stream).unwrap();
    assert_eq!(statement.to_string().replace("\n", ""), insert_statement.to_cql())
}

#[test]
fn test_parse_update() {
    let statement = "UPDATE NerdMovies \
            SET director = 'Joss Whedon', main_actor = 'Nathan Fillion' \
            WHERE movie = 'Serenity' \
            IF EXISTS";
    let mut stream = StatementStream::new(statement);
    let update_statement = UpdateStatement::parse(&mut stream).unwrap();
    assert_eq!(statement.to_string().replace("\n", ""), update_statement.to_cql())
}

#[test]
fn test_parse_delete() {
    let statement = "DELETE FROM NerdMovies \
            WHERE movie = 'Serenity' \
            IF EXISTS";
    let mut stream = StatementStream::new(statement);
    let delete_statement = DeleteStatement::parse(&mut stream).unwrap();
    assert_eq!(statement.to_string().replace("\n", ""), delete_statement.to_cql())
}

#[test]
fn test_parse_batch() {
    let statement = "BEGIN BATCH \
            INSERT INTO NerdMovies (movie, director, main_actor, year) \
            VALUES ('Serenity', 'Joss Whedon', 'Nathan Fillion', 2005) \
            IF NOT EXISTS USING TTL 86400; \
            UPDATE NerdMovies \
            SET director = 'Joss Whedon', main_actor = 'Nathan Fillion' \
            WHERE movie = 'Serenity' \
            IF EXISTS; \
            DELETE FROM NerdMovies \
            WHERE movie = 'Serenity' \
            IF EXISTS \
            APPLY BATCH";
    let mut stream = StatementStream::new(statement);
    let batch_statement = BatchStatement::parse(&mut stream).unwrap();
    assert_eq!(statement.to_string().replace("\n", ""), batch_statement.to_cql())
}
