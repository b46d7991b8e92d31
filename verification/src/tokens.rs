//! Lexical forms of the CQL statement grammar: reserved keywords, names,
//! string literals, numbers, bind markers and operators, each with its
//! parser and its canonical rendering.

use vstd::prelude::*;
use crate::parse::{
    chars_to_string, is_alnum, is_digit, is_name_char, is_ws, spec_is_alnum, spec_is_digit,
    spec_is_hex_digit, spec_is_name_char, to_upper, Parse, ParseError, Peek, StatementStream,
};

verus! {

/// The canonical upper-case image of a word.
pub open spec fn spec_upper_word(s: Seq<char>) -> Seq<char> {
    s.map_values(|c: char| crate::parse::spec_upper(c))
}

/// Whether a word is one of the reserved keywords, matched without
/// regard to case.
pub open spec fn spec_is_reserved(w: Seq<char>) -> bool {
    exists|kw: ReservedKeyword| spec_upper_word(w) == kw.render()
}

/// Join rendered parts with a separator.
pub open spec fn spec_join(parts: Seq<Seq<char>>, sep: Seq<char>) -> Seq<char>
    decreases parts.len(),
{
    if parts.len() == 0 {
        Seq::empty()
    } else if parts.len() == 1 {
        parts[0]
    } else {
        parts[0] + sep + spec_join(parts.drop_first(), sep)
    }
}

/// Appending one more part to a join appends the separator and the part.
pub proof fn lemma_join_push(parts: Seq<Seq<char>>, sep: Seq<char>, last: Seq<char>)
    ensures
        parts.len() == 0 ==> spec_join(parts.push(last), sep) == last,
        parts.len() > 0 ==> spec_join(parts.push(last), sep) =~= spec_join(parts, sep) + sep
            + last,
    decreases parts.len(),
{
    if parts.len() == 0 {
        assert(parts.push(last)[0] == last);
    } else if parts.len() == 1 {
        assert(parts.push(last).drop_first() =~= seq![last]);
        assert(parts.push(last)[0] == parts[0]);
        assert(seq![last].len() == 1 && seq![last][0] == last);
        assert(spec_join(seq![last], sep) == last);
        assert(spec_join(parts.push(last).drop_first(), sep) == last);
        assert(spec_join(parts.push(last), sep) == parts[0] + sep + last);
    } else {
        assert(parts.push(last)[0] == parts[0]);
        lemma_join_push(parts.drop_first(), sep, last);
        assert(parts.push(last).drop_first() =~= parts.drop_first().push(last));
    }
}

/// Render a list of already rendered parts, separated by `sep`.
pub fn join_rendered(parts: &Vec<String>, sep: &str) -> (r: String)
    ensures
        r@ == spec_join(parts@.map_values(|p: String| p@), sep@),
{
    let mut out = String::new();
    let mut i: usize = 0;
    while i < parts.len()
        invariant
            i <= parts@.len(),
            out@ == spec_join(parts@.map_values(|p: String| p@).take(i as int), sep@),
        decreases parts@.len() - i,
    {
        if i > 0 {
            out.append(sep);
        }
        out.append(parts[i].as_str());
        i = i + 1;
        proof {
            let mapped = parts@.map_values(|p: String| p@);
            assert(mapped.take(i as int) =~= mapped.take(i as int - 1).push(mapped[i as int
                - 1]));
            lemma_join_push(mapped.take(i as int - 1), sep@, mapped[i as int - 1]);
        }
    }
    proof {
        let mapped = parts@.map_values(|p: String| p@);
        assert(mapped.take(mapped.len() as int) =~= mapped);
    }
    out
}

/// A word of letters, digits and underscores, read without consuming.
fn scan_word(s: &StatementStream) -> (r: Vec<char>)
    requires
        s.wf(),
    ensures
        r@.len() <= s.text().len() - s.pos,
        forall|k: int| 0 <= k < r@.len() ==> r@[k] == s.text()[s.pos + k],
        forall|k: int| 0 <= k < r@.len() ==> spec_is_name_char(r@[k]),
        s.pos + r@.len() < s.text().len() ==> !spec_is_name_char(s.text()[s.pos + r@.len()]),
    {
    let mut out: Vec<char> = Vec::new();
    let mut i: usize = s.pos;
    let n = s.input.len();
    while i < n && is_name_char(s.input[i])
        invariant
            s.wf(),
            n == s.text().len(),
            s.pos <= i <= n,
            out@.len() == i - s.pos,
            forall|k: int| 0 <= k < out@.len() ==> out@[k] == s.text()[s.pos + k],
            forall|k: int| 0 <= k < out@.len() ==> spec_is_name_char(out@[k]),
        decreases n - i,
    {
        out.push(s.input[i]);
        i = i + 1;
    }
    out
}

/// Whether the upper-case image of `word` is exactly the keyword text.
pub fn word_matches(word: &Vec<char>, kw: &str) -> (r: bool)
    ensures
        r == (spec_upper_word(word@) == kw@),
{
    let kwc = crate::parse::str_chars(kw);
    if word.len() != kwc.len() {
        proof {
            assert(spec_upper_word(word@).len() == word@.len());
        }
        return false;
    }
    let mut i: usize = 0;
    while i < word.len()
        invariant
            i <= word@.len(),
            word@.len() == kwc@.len(),
            kwc@ == kw@,
            forall|k: int| 0 <= k < i ==> crate::parse::spec_upper(word@[k]) == kw@[k],
        decreases word@.len() - i,
    {
        if to_upper(word[i]) != kwc[i] {
            proof {
                assert(spec_upper_word(word@)[i as int] == crate::parse::spec_upper(word@[
                    i as int]));
            }
            return false;
        }
        i = i + 1;
    }
    proof {
        assert(spec_upper_word(word@) =~= kw@);
    }
    true
}

/// The reserved keywords of the statement grammar; a reserved word cannot
/// be an unquoted name.
#[allow(non_camel_case_types)]
#[derive(Copy, Clone, Debug, PartialEq, Eq, Hash, Structural)]
pub enum ReservedKeyword {
    ADD,
    ALLOW,
    ALTER,
    AND,
    APPLY,
    ASC,
    AUTHORIZE,
    BATCH,
    BEGIN,
    BY,
    COLUMNFAMILY,
    CREATE,
    DELETE,
    DESC,
    DESCRIBE,
    DROP,
    ENTRIES,
    EXECUTE,
    FROM,
    FULL,
    GRANT,
    IF,
    IN,
    INDEX,
    INFINITY,
    INSERT,
    INTO,
    KEYSPACE,
    LIMIT,
    MATERIALIZED,
    MODIFY,
    NAN,
    NORECURSIVE,
    NOT,
    NULL,
    OF,
    ON,
    OR,
    ORDER,
    PRIMARY,
    RENAME,
    REPLACE,
    REVOKE,
    SCHEMA,
    SELECT,
    SET,
    TABLE,
    TO,
    TOKEN,
    TRUNCATE,
    UNLOGGED,
    UPDATE,
    USE,
    USING,
    VIEW,
    WHERE,
    WITH,
}

impl ReservedKeyword {
    /// The canonical text of the keyword.
    pub open spec fn render(self) -> Seq<char> {
        match self {
            ReservedKeyword::ADD => "ADD"@,
            ReservedKeyword::ALLOW => "ALLOW"@,
            ReservedKeyword::ALTER => "ALTER"@,
            ReservedKeyword::AND => "AND"@,
            ReservedKeyword::APPLY => "APPLY"@,
            ReservedKeyword::ASC => "ASC"@,
            ReservedKeyword::AUTHORIZE => "AUTHORIZE"@,
            ReservedKeyword::BATCH => "BATCH"@,
            ReservedKeyword::BEGIN => "BEGIN"@,
            ReservedKeyword::BY => "BY"@,
            ReservedKeyword::COLUMNFAMILY => "COLUMNFAMILY"@,
            ReservedKeyword::CREATE => "CREATE"@,
            ReservedKeyword::DELETE => "DELETE"@,
            ReservedKeyword::DESC => "DESC"@,
            ReservedKeyword::DESCRIBE => "DESCRIBE"@,
            ReservedKeyword::DROP => "DROP"@,
            ReservedKeyword::ENTRIES => "ENTRIES"@,
            ReservedKeyword::EXECUTE => "EXECUTE"@,
            ReservedKeyword::FROM => "FROM"@,
            ReservedKeyword::FULL => "FULL"@,
            ReservedKeyword::GRANT => "GRANT"@,
            ReservedKeyword::IF => "IF"@,
            ReservedKeyword::IN => "IN"@,
            ReservedKeyword::INDEX => "INDEX"@,
            ReservedKeyword::INFINITY => "INFINITY"@,
            ReservedKeyword::INSERT => "INSERT"@,
            ReservedKeyword::INTO => "INTO"@,
            ReservedKeyword::KEYSPACE => "KEYSPACE"@,
            ReservedKeyword::LIMIT => "LIMIT"@,
            ReservedKeyword::MATERIALIZED => "MATERIALIZED"@,
            ReservedKeyword::MODIFY => "MODIFY"@,
            ReservedKeyword::NAN => "NAN"@,
            ReservedKeyword::NORECURSIVE => "NORECURSIVE"@,
            ReservedKeyword::NOT => "NOT"@,
            ReservedKeyword::NULL => "NULL"@,
            ReservedKeyword::OF => "OF"@,
            ReservedKeyword::ON => "ON"@,
            ReservedKeyword::OR => "OR"@,
            ReservedKeyword::ORDER => "ORDER"@,
            ReservedKeyword::PRIMARY => "PRIMARY"@,
            ReservedKeyword::RENAME => "RENAME"@,
            ReservedKeyword::REPLACE => "REPLACE"@,
            ReservedKeyword::REVOKE => "REVOKE"@,
            ReservedKeyword::SCHEMA => "SCHEMA"@,
            ReservedKeyword::SELECT => "SELECT"@,
            ReservedKeyword::SET => "SET"@,
            ReservedKeyword::TABLE => "TABLE"@,
            ReservedKeyword::TO => "TO"@,
            ReservedKeyword::TOKEN => "TOKEN"@,
            ReservedKeyword::TRUNCATE => "TRUNCATE"@,
            ReservedKeyword::UNLOGGED => "UNLOGGED"@,
            ReservedKeyword::UPDATE => "UPDATE"@,
            ReservedKeyword::USE => "USE"@,
            ReservedKeyword::USING => "USING"@,
            ReservedKeyword::VIEW => "VIEW"@,
            ReservedKeyword::WHERE => "WHERE"@,
            ReservedKeyword::WITH => "WITH"@,
        }
    }

    /// The reserved keyword that a word denotes, matched without regard to
    /// case, if any; `None` exactly when the word is not reserved.
    pub fn of_word(word: &Vec<char>) -> (r: Option<ReservedKeyword>)
        ensures
            r matches Some(kw) ==> spec_upper_word(word@) == kw.render(),
            r is None ==> !spec_is_reserved(word@),
    {
        if word_matches(word, "ADD") { return Some(ReservedKeyword::ADD); }
        if word_matches(word, "ALLOW") { return Some(ReservedKeyword::ALLOW); }
        if word_matches(word, "ALTER") { return Some(ReservedKeyword::ALTER); }
        if word_matches(word, "AND") { return Some(ReservedKeyword::AND); }
        if word_matches(word, "APPLY") { return Some(ReservedKeyword::APPLY); }
        if word_matches(word, "ASC") { return Some(ReservedKeyword::ASC); }
        if word_matches(word, "AUTHORIZE") { return Some(ReservedKeyword::AUTHORIZE); }
        if word_matches(word, "BATCH") { return Some(ReservedKeyword::BATCH); }
        if word_matches(word, "BEGIN") { return Some(ReservedKeyword::BEGIN); }
        if word_matches(word, "BY") { return Some(ReservedKeyword::BY); }
        if word_matches(word, "COLUMNFAMILY") { return Some(ReservedKeyword::COLUMNFAMILY); }
        if word_matches(word, "CREATE") { return Some(ReservedKeyword::CREATE); }
        if word_matches(word, "DELETE") { return Some(ReservedKeyword::DELETE); }
        if word_matches(word, "DESC") { return Some(ReservedKeyword::DESC); }
        if word_matches(word, "DESCRIBE") { return Some(ReservedKeyword::DESCRIBE); }
        if word_matches(word, "DROP") { return Some(ReservedKeyword::DROP); }
        if word_matches(word, "ENTRIES") { return Some(ReservedKeyword::ENTRIES); }
        if word_matches(word, "EXECUTE") { return Some(ReservedKeyword::EXECUTE); }
        if word_matches(word, "FROM") { return Some(ReservedKeyword::FROM); }
        if word_matches(word, "FULL") { return Some(ReservedKeyword::FULL); }
        if word_matches(word, "GRANT") { return Some(ReservedKeyword::GRANT); }
        if word_matches(word, "IF") { return Some(ReservedKeyword::IF); }
        if word_matches(word, "IN") { return Some(ReservedKeyword::IN); }
        if word_matches(word, "INDEX") { return Some(ReservedKeyword::INDEX); }
        if word_matches(word, "INFINITY") { return Some(ReservedKeyword::INFINITY); }
        if word_matches(word, "INSERT") { return Some(ReservedKeyword::INSERT); }
        if word_matches(word, "INTO") { return Some(ReservedKeyword::INTO); }
        if word_matches(word, "KEYSPACE") { return Some(ReservedKeyword::KEYSPACE); }
        if word_matches(word, "LIMIT") { return Some(ReservedKeyword::LIMIT); }
        if word_matches(word, "MATERIALIZED") { return Some(ReservedKeyword::MATERIALIZED); }
        if word_matches(word, "MODIFY") { return Some(ReservedKeyword::MODIFY); }
        if word_matches(word, "NAN") { return Some(ReservedKeyword::NAN); }
        if word_matches(word, "NORECURSIVE") { return Some(ReservedKeyword::NORECURSIVE); }
        if word_matches(word, "NOT") { return Some(ReservedKeyword::NOT); }
        if word_matches(word, "NULL") { return Some(ReservedKeyword::NULL); }
        if word_matches(word, "OF") { return Some(ReservedKeyword::OF); }
        if word_matches(word, "ON") { return Some(ReservedKeyword::ON); }
        if word_matches(word, "OR") { return Some(ReservedKeyword::OR); }
        if word_matches(word, "ORDER") { return Some(ReservedKeyword::ORDER); }
        if word_matches(word, "PRIMARY") { return Some(ReservedKeyword::PRIMARY); }
        if word_matches(word, "RENAME") { return Some(ReservedKeyword::RENAME); }
        if word_matches(word, "REPLACE") { return Some(ReservedKeyword::REPLACE); }
        if word_matches(word, "REVOKE") { return Some(ReservedKeyword::REVOKE); }
        if word_matches(word, "SCHEMA") { return Some(ReservedKeyword::SCHEMA); }
        if word_matches(word, "SELECT") { return Some(ReservedKeyword::SELECT); }
        if word_matches(word, "SET") { return Some(ReservedKeyword::SET); }
        if word_matches(word, "TABLE") { return Some(ReservedKeyword::TABLE); }
        if word_matches(word, "TO") { return Some(ReservedKeyword::TO); }
        if word_matches(word, "TOKEN") { return Some(ReservedKeyword::TOKEN); }
        if word_matches(word, "TRUNCATE") { return Some(ReservedKeyword::TRUNCATE); }
        if word_matches(word, "UNLOGGED") { return Some(ReservedKeyword::UNLOGGED); }
        if word_matches(word, "UPDATE") { return Some(ReservedKeyword::UPDATE); }
        if word_matches(word, "USE") { return Some(ReservedKeyword::USE); }
        if word_matches(word, "USING") { return Some(ReservedKeyword::USING); }
        if word_matches(word, "VIEW") { return Some(ReservedKeyword::VIEW); }
        if word_matches(word, "WHERE") { return Some(ReservedKeyword::WHERE); }
        if word_matches(word, "WITH") { return Some(ReservedKeyword::WITH); }
        proof {
            assert forall|kw: ReservedKeyword| spec_upper_word(word@) != kw.render() by {
                if spec_upper_word(word@) == kw.render() {
                    match kw {
                        ReservedKeyword::ADD => assert(spec_upper_word(word@) == "ADD"@),
                        ReservedKeyword::ALLOW => assert(spec_upper_word(word@) == "ALLOW"@),
                        ReservedKeyword::ALTER => assert(spec_upper_word(word@) == "ALTER"@),
                        ReservedKeyword::AND => assert(spec_upper_word(word@) == "AND"@),
                        ReservedKeyword::APPLY => assert(spec_upper_word(word@) == "APPLY"@),
                        ReservedKeyword::ASC => assert(spec_upper_word(word@) == "ASC"@),
                        ReservedKeyword::AUTHORIZE => assert(spec_upper_word(word@)
                            == "AUTHORIZE"@),
                        ReservedKeyword::BATCH => assert(spec_upper_word(word@) == "BATCH"@),
                        ReservedKeyword::BEGIN => assert(spec_upper_word(word@) == "BEGIN"@),
                        ReservedKeyword::BY => assert(spec_upper_word(word@) == "BY"@),
                        ReservedKeyword::COLUMNFAMILY => assert(spec_upper_word(word@)
                            == "COLUMNFAMILY"@),
                        ReservedKeyword::CREATE => assert(spec_upper_word(word@)
                            == "CREATE"@),
                        ReservedKeyword::DELETE => assert(spec_upper_word(word@)
                            == "DELETE"@),
                        ReservedKeyword::DESC => assert(spec_upper_word(word@) == "DESC"@),
                        ReservedKeyword::DESCRIBE => assert(spec_upper_word(word@)
                            == "DESCRIBE"@),
                        ReservedKeyword::DROP => assert(spec_upper_word(word@) == "DROP"@),
                        ReservedKeyword::ENTRIES => assert(spec_upper_word(word@)
                            == "ENTRIES"@),
                        ReservedKeyword::EXECUTE => assert(spec_upper_word(word@)
                            == "EXECUTE"@),
                        ReservedKeyword::FROM => assert(spec_upper_word(word@) == "FROM"@),
                        ReservedKeyword::FULL => assert(spec_upper_word(word@) == "FULL"@),
                        ReservedKeyword::GRANT => assert(spec_upper_word(word@) == "GRANT"@),
                        ReservedKeyword::IF => assert(spec_upper_word(word@) == "IF"@),
                        ReservedKeyword::IN => assert(spec_upper_word(word@) == "IN"@),
                        ReservedKeyword::INDEX => assert(spec_upper_word(word@) == "INDEX"@),
                        ReservedKeyword::INFINITY => assert(spec_upper_word(word@)
                            == "INFINITY"@),
                        ReservedKeyword::INSERT => assert(spec_upper_word(word@)
                            == "INSERT"@),
                        ReservedKeyword::INTO => assert(spec_upper_word(word@) == "INTO"@),
                        ReservedKeyword::KEYSPACE => assert(spec_upper_word(word@)
                            == "KEYSPACE"@),
                        ReservedKeyword::LIMIT => assert(spec_upper_word(word@) == "LIMIT"@),
                        ReservedKeyword::MATERIALIZED => assert(spec_upper_word(word@)
                            == "MATERIALIZED"@),
                        ReservedKeyword::MODIFY => assert(spec_upper_word(word@)
                            == "MODIFY"@),
                        ReservedKeyword::NAN => assert(spec_upper_word(word@) == "NAN"@),
                        ReservedKeyword::NORECURSIVE => assert(spec_upper_word(word@)
                            == "NORECURSIVE"@),
                        ReservedKeyword::NOT => assert(spec_upper_word(word@) == "NOT"@),
                        ReservedKeyword::NULL => assert(spec_upper_word(word@) == "NULL"@),
                        ReservedKeyword::OF => assert(spec_upper_word(word@) == "OF"@),
                        ReservedKeyword::ON => assert(spec_upper_word(word@) == "ON"@),
                        ReservedKeyword::OR => assert(spec_upper_word(word@) == "OR"@),
                        ReservedKeyword::ORDER => assert(spec_upper_word(word@) == "ORDER"@),
                        ReservedKeyword::PRIMARY => assert(spec_upper_word(word@)
                            == "PRIMARY"@),
                        ReservedKeyword::RENAME => assert(spec_upper_word(word@)
                            == "RENAME"@),
                        ReservedKeyword::REPLACE => assert(spec_upper_word(word@)
                            == "REPLACE"@),
                        ReservedKeyword::REVOKE => assert(spec_upper_word(word@)
                            == "REVOKE"@),
                        ReservedKeyword::SCHEMA => assert(spec_upper_word(word@)
                            == "SCHEMA"@),
                        ReservedKeyword::SELECT => assert(spec_upper_word(word@)
                            == "SELECT"@),
                        ReservedKeyword::SET => assert(spec_upper_word(word@) == "SET"@),
                        ReservedKeyword::TABLE => assert(spec_upper_word(word@) == "TABLE"@),
                        ReservedKeyword::TO => assert(spec_upper_word(word@) == "TO"@),
                        ReservedKeyword::TOKEN => assert(spec_upper_word(word@) == "TOKEN"@),
                        ReservedKeyword::TRUNCATE => assert(spec_upper_word(word@)
                            == "TRUNCATE"@),
                        ReservedKeyword::UNLOGGED => assert(spec_upper_word(word@)
                            == "UNLOGGED"@),
                        ReservedKeyword::UPDATE => assert(spec_upper_word(word@)
                            == "UPDATE"@),
                        ReservedKeyword::USE => assert(spec_upper_word(word@) == "USE"@),
                        ReservedKeyword::USING => assert(spec_upper_word(word@) == "USING"@),
                        ReservedKeyword::VIEW => assert(spec_upper_word(word@) == "VIEW"@),
                        ReservedKeyword::WHERE => assert(spec_upper_word(word@) == "WHERE"@),
                        ReservedKeyword::WITH => assert(spec_upper_word(word@) == "WITH"@),
                    }
                }
            }
        }
        None
    }

    /// Parse a reserved keyword at the cursor.
    pub fn parse(s: &mut StatementStream) -> (r: Result<ReservedKeyword, ParseError>)
        requires
            old(s).wf(),
        ensures
            final(s).wf(),
            final(s).text() == old(s).text(),
            final(s).pos >= old(s).pos,
    {
        s.skip_whitespace();
        let word = scan_word(s);
        if word.len() == 0 {
            return Err(ParseError::End);
        }
        match ReservedKeyword::of_word(&word) {
            Some(kw) => {
                s.advance(word.len());
                Ok(kw)
            },
            None => Err(ParseError::Invalid),
        }
    }

    /// The canonical text of the keyword.
    pub fn to_cql(&self) -> (r: String)
        ensures
            r@ == self.render(),
    {
        let text = match self {
            ReservedKeyword::ADD => "ADD",
            ReservedKeyword::ALLOW => "ALLOW",
            ReservedKeyword::ALTER => "ALTER",
            ReservedKeyword::AND => "AND",
            ReservedKeyword::APPLY => "APPLY",
            ReservedKeyword::ASC => "ASC",
            ReservedKeyword::AUTHORIZE => "AUTHORIZE",
            ReservedKeyword::BATCH => "BATCH",
            ReservedKeyword::BEGIN => "BEGIN",
            ReservedKeyword::BY => "BY",
            ReservedKeyword::COLUMNFAMILY => "COLUMNFAMILY",
            ReservedKeyword::CREATE => "CREATE",
            ReservedKeyword::DELETE => "DELETE",
            ReservedKeyword::DESC => "DESC",
            ReservedKeyword::DESCRIBE => "DESCRIBE",
            ReservedKeyword::DROP => "DROP",
            ReservedKeyword::ENTRIES => "ENTRIES",
            ReservedKeyword::EXECUTE => "EXECUTE",
            ReservedKeyword::FROM => "FROM",
            ReservedKeyword::FULL => "FULL",
            ReservedKeyword::GRANT => "GRANT",
            ReservedKeyword::IF => "IF",
            ReservedKeyword::IN => "IN",
            ReservedKeyword::INDEX => "INDEX",
            ReservedKeyword::INFINITY => "INFINITY",
            ReservedKeyword::INSERT => "INSERT",
            ReservedKeyword::INTO => "INTO",
            ReservedKeyword::KEYSPACE => "KEYSPACE",
            ReservedKeyword::LIMIT => "LIMIT",
            ReservedKeyword::MATERIALIZED => "MATERIALIZED",
            ReservedKeyword::MODIFY => "MODIFY",
            ReservedKeyword::NAN => "NAN",
            ReservedKeyword::NORECURSIVE => "NORECURSIVE",
            ReservedKeyword::NOT => "NOT",
            ReservedKeyword::NULL => "NULL",
            ReservedKeyword::OF => "OF",
            ReservedKeyword::ON => "ON",
            ReservedKeyword::OR => "OR",
            ReservedKeyword::ORDER => "ORDER",
            ReservedKeyword::PRIMARY => "PRIMARY",
            ReservedKeyword::RENAME => "RENAME",
            ReservedKeyword::REPLACE => "REPLACE",
            ReservedKeyword::REVOKE => "REVOKE",
            ReservedKeyword::SCHEMA => "SCHEMA",
            ReservedKeyword::SELECT => "SELECT",
            ReservedKeyword::SET => "SET",
            ReservedKeyword::TABLE => "TABLE",
            ReservedKeyword::TO => "TO",
            ReservedKeyword::TOKEN => "TOKEN",
            ReservedKeyword::TRUNCATE => "TRUNCATE",
            ReservedKeyword::UNLOGGED => "UNLOGGED",
            ReservedKeyword::UPDATE => "UPDATE",
            ReservedKeyword::USE => "USE",
            ReservedKeyword::USING => "USING",
            ReservedKeyword::VIEW => "VIEW",
            ReservedKeyword::WHERE => "WHERE",
            ReservedKeyword::WITH => "WITH",
        };
        String::from_str(text)
    }
}

impl Parse for ReservedKeyword {
    fn parse(s: &mut StatementStream) -> (r: Result<Self, ParseError>) {
        ReservedKeyword::parse(s)
    }
}

impl Peek for ReservedKeyword {
    fn peek(s: &StatementStream) -> (r: bool) {
        let mut probe = s.duplicate();
        match ReservedKeyword::parse(&mut probe) {
            Ok(_) => true,
            Err(_) => false,
        }
    }
}

/// A column, table or keyspace name: quoted, holding any characters, or
/// unquoted, a nonempty word that is not a reserved keyword.
#[derive(Clone, Debug, PartialEq, Eq, Hash)]
pub enum Name {
    Quoted(String),
    Unquoted(String),
}

impl Name {
    /// An unquoted name is a nonempty word of name characters that is
    /// not a reserved keyword.
    pub open spec fn wf(self) -> bool {
        match self {
            Name::Quoted(_) => true,
            Name::Unquoted(v) => v@.len() > 0 && !spec_is_reserved(v@) && forall|k: int|
                0 <= k < v@.len() ==> spec_is_name_char(v@[k]),
        }
    }

    /// The rendered name: quoted names keep their quotes.
    pub open spec fn render(self) -> Seq<char> {
        match self {
            Name::Quoted(v) => "\""@ + v@ + "\""@,
            Name::Unquoted(v) => v@,
        }
    }

    /// Parse a name: a double-quoted run of characters, or an unquoted
    /// word that is not reserved. On success the name is exactly the
    /// consumed text after any leading whitespace, without its quotes
    /// for a quoted name; an unquoted name ends at a word boundary.
    pub fn parse(s: &mut StatementStream) -> (r: Result<Name, ParseError>)
        requires
            old(s).wf(),
        ensures
            final(s).wf(),
            final(s).text() == old(s).text(),
            final(s).pos >= old(s).pos,
            r matches Ok(n) ==> n.wf() && final(s).pos > old(s).pos && (match n {
                Name::Unquoted(v) => {
                    &&& final(s).pos - v@.len() >= old(s).pos
                    &&& (forall|k: int|
                        old(s).pos <= k < final(s).pos - v@.len() ==> crate::parse::spec_is_ws(
                            #[trigger] old(s).text()[k]))
                    &&& v@ == old(s).text().subrange(final(s).pos - v@.len(), final(
                        s).pos as int)
                    &&& (final(s).pos == old(s).text().len() || !spec_is_name_char(old(
                        s).text()[final(s).pos as int]))
                },
                Name::Quoted(v) => {
                    &&& final(s).pos - v@.len() - 2 >= old(s).pos
                    &&& (forall|k: int|
                        old(s).pos <= k < final(s).pos - v@.len() - 2
                            ==> crate::parse::spec_is_ws(#[trigger] old(s).text()[k]))
                    &&& old(s).text()[final(s).pos - v@.len() - 2] == '"'
                    &&& old(s).text()[final(s).pos - 1] == '"'
                    &&& v@ == old(s).text().subrange(final(s).pos - 1 - v@.len(), final(
                        s).pos - 1)
                    &&& (forall|k: int| 0 <= k < v@.len() ==> (#[trigger] v@[k]) != '"')
                },
            }),
    {
        s.skip_whitespace();
        match s.peek() {
            None => Err(ParseError::End),
            Some(q) => {
                if q == '"' {
                    let ghost a = s.pos as int;
                    let _ = s.next();
                    let mut buf: Vec<char> = Vec::new();
                    loop
                        invariant
                            s.wf(),
                            s.text() == old(s).text(),
                            old(s).pos <= a,
                            a + 1 <= s.pos <= s.text().len(),
                            s.text()[a] == '"',
                            forall|k: int|
                                old(s).pos <= k < a ==> crate::parse::spec_is_ws(
                                    #[trigger] s.text()[k]),
                            buf@ == s.text().subrange(a + 1, s.pos as int),
                            forall|k: int| 0 <= k < buf@.len() ==> (#[trigger] buf@[k])
                                != '"',
                        decreases s.text().len() - s.pos,
                    {
                        match s.next() {
                            Some(c) => {
                                if c == '"' {
                                    let v = chars_to_string(buf.as_slice());
                                    proof {
                                        assert(a == s.pos - v@.len() - 2);
                                    }
                                    return Ok(Name::Quoted(v));
                                }
                                buf.push(c);
                                proof {
                                    assert(buf@ =~= s.text().subrange(a + 1, s.pos as int));
                                }
                            },
                            None => {
                                return Err(ParseError::End);
                            },
                        }
                    }
                } else {
                    let ghost a = s.pos as int;
                    let word = scan_word(s);
                    if word.len() == 0 {
                        return Err(ParseError::End);
                    }
                    if let Some(_) = ReservedKeyword::of_word(&word) {
                        return Err(ParseError::Invalid);
                    }
                    s.advance(word.len());
                    let v = chars_to_string(word.as_slice());
                    proof {
                        assert(v@ =~= s.text().subrange(a, s.pos as int));
                    }
                    Ok(Name::Unquoted(v))
                }
            },
        }
    }

    /// Render the name back to statement text.
    pub fn to_cql(&self) -> (r: String)
        ensures
            r@ == self.render(),
    {
        match self {
            Name::Quoted(v) => {
                let mut out = String::from_str("\"");
                out.append(v.as_str());
                out.append("\"");
                proof {
                    assert(out@ =~= self.render());
                }
                out
            },
            Name::Unquoted(v) => v.clone(),
        }
    }
}

impl Parse for Name {
    fn parse(s: &mut StatementStream) -> (r: Result<Self, ParseError>) {
        Name::parse(s)
    }
}

impl Peek for Name {
    fn peek(s: &StatementStream) -> (r: bool) {
        let mut probe = s.duplicate();
        match Name::parse(&mut probe) {
            Ok(_) => true,
            Err(_) => false,
        }
    }
}

/// An identifier: a plain name, or a reserved keyword standing where an
/// identifier may.
#[derive(Clone, Debug, PartialEq, Eq, Hash)]
pub enum Identifier {
    Name(Name),
    Keyword(ReservedKeyword),
}

impl Identifier {
    pub open spec fn render(self) -> Seq<char> {
        match self {
            Identifier::Name(n) => n.render(),
            Identifier::Keyword(k) => k.render(),
        }
    }

    /// Parse an identifier: a reserved keyword, else a name.
    pub fn parse(s: &mut StatementStream) -> (r: Result<Identifier, ParseError>)
        requires
            old(s).wf(),
        ensures
            final(s).wf(),
            final(s).text() == old(s).text(),
            final(s).pos >= old(s).pos,
    {
        let save = s.pos;
        match ReservedKeyword::parse(s) {
            Ok(kw) => Ok(Identifier::Keyword(kw)),
            Err(_) => {
                proof {
                    assert(save <= s.text().len());
                }
                s.restore(save);
                match Name::parse(s) {
                    Ok(n) => Ok(Identifier::Name(n)),
                    Err(e) => Err(e),
                }
            },
        }
    }

    pub fn to_cql(&self) -> (r: String)
        ensures
            r@ == self.render(),
    {
        match self {
            Identifier::Name(n) => n.to_cql(),
            Identifier::Keyword(k) => k.to_cql(),
        }
    }
}

impl Parse for Identifier {
    fn parse(s: &mut StatementStream) -> (r: Result<Self, ParseError>) {
        Identifier::parse(s)
    }
}

impl Peek for Identifier {
    fn peek(s: &StatementStream) -> (r: bool) {
        let mut probe = s.duplicate();
        match Identifier::parse(&mut probe) {
            Ok(_) => true,
            Err(_) => false,
        }
    }
}

/// How a string literal is delimited.
#[derive(Copy, Clone, Debug, PartialEq, Eq, Structural)]
pub enum LitStrKind {
    /// Single quotes.
    Quoted,
    /// Dollar-dollar fences, for values that may hold single quotes.
    Escaped,
}

/// A string literal with its delimiter kind.
#[derive(Clone, Debug, PartialEq, Eq)]
pub struct LitStr {
    pub kind: LitStrKind,
    pub value: String,
}

impl LitStr {
    pub open spec fn render(self) -> Seq<char> {
        match self.kind {
            LitStrKind::Quoted => "'"@ + self.value@ + "'"@,
            LitStrKind::Escaped => "$$"@ + self.value@ + "$$"@,
        }
    }

    /// Parse a string literal delimited by single quotes or by `$$`.
    pub fn parse(s: &mut StatementStream) -> (r: Result<LitStr, ParseError>)
        requires
            old(s).wf(),
        ensures
            final(s).wf(),
            final(s).text() == old(s).text(),
            final(s).pos >= old(s).pos,
    {
        s.skip_whitespace();
        let mut kind = LitStrKind::Quoted;
        match s.peek() {
            None => {
                return Err(ParseError::End);
            },
            Some(c) => {
                if c == '\'' {
                    let _ = s.next();
                } else if c == '$' {
                    match s.peekn(2) {
                        Some(two) => {
                            if !two_dollars(&two) {
                                return Err(ParseError::Invalid);
                            }
                            kind = LitStrKind::Escaped;
                            let _ = s.nextn(2);
                        },
                        None => {
                            return Err(ParseError::Invalid);
                        },
                    }
                } else {
                    return Err(ParseError::Invalid);
                }
            },
        }
        let mut buf: Vec<char> = Vec::new();
        loop
            invariant
                s.wf(),
                s.text() == old(s).text(),
                s.pos >= old(s).pos,
            decreases s.text().len() - s.pos,
        {
            match s.next() {
                Some(c) => {
                    match kind {
                        LitStrKind::Escaped => {
                            if c == '$' {
                                match s.peek() {
                                    Some(d) => {
                                        if d == '$' {
                                            let _ = s.next();
                                            return Ok(LitStr {
                                                kind,
                                                value: chars_to_string(buf.as_slice()),
                                            });
                                        }
                                    },
                                    None => {},
                                }
                            }
                            buf.push(c);
                        },
                        LitStrKind::Quoted => {
                            if c == '\'' {
                                return Ok(LitStr {
                                    kind,
                                    value: chars_to_string(buf.as_slice()),
                                });
                            }
                            buf.push(c);
                        },
                    }
                },
                None => {
                    return Err(ParseError::End);
                },
            }
        }
    }

    pub fn to_cql(&self) -> (r: String)
        ensures
            r@ == self.render(),
    {
        match self.kind {
            LitStrKind::Quoted => {
                let mut out = String::from_str("'");
                out.append(self.value.as_str());
                out.append("'");
                proof {
                    assert(out@ =~= self.render());
                }
                out
            },
            LitStrKind::Escaped => {
                let mut out = String::from_str("$$");
                out.append(self.value.as_str());
                out.append("$$");
                proof {
                    assert(out@ =~= self.render());
                }
                out
            },
        }
    }
}

impl Parse for LitStr {
    fn parse(s: &mut StatementStream) -> (r: Result<Self, ParseError>) {
        LitStr::parse(s)
    }
}

impl Peek for LitStr {
    fn peek(s: &StatementStream) -> (r: bool) {
        let mut probe = s.duplicate();
        match LitStr::parse(&mut probe) {
            Ok(_) => true,
            Err(_) => false,
        }
    }
}

/// Whether a two-character string is exactly `$$`.
fn two_dollars(t: &String) -> (r: bool)
    ensures
        r == (t@ == "$$"@),
{
    proof {
        reveal_strlit("$$");
    }
    if t.as_str().unicode_len() == 2 {
        let c0 = t.as_str().get_char(0);
        let c1 = t.as_str().get_char(1);
        let r = c0 == '$' && c1 == '$';
        proof {
            if r {
                assert(t@ =~= "$$"@);
            }
        }
        r
    } else {
        false
    }
}

/// A bind marker in a statement: anonymous `?` or named `:name`.
#[derive(Clone, Debug)]
pub enum BindMarker {
    Anonymous,
    Named(Name),
}

impl BindMarker {
    pub open spec fn render(self) -> Seq<char> {
        match self {
            BindMarker::Anonymous => "?"@,
            BindMarker::Named(n) => ":"@ + n.render(),
        }
    }

    /// Parse a bind marker.
    pub fn parse(s: &mut StatementStream) -> (r: Result<BindMarker, ParseError>)
        requires
            old(s).wf(),
        ensures
            final(s).wf(),
            final(s).text() == old(s).text(),
            final(s).pos >= old(s).pos,
    {
        if s.accept_punct('?') {
            Ok(BindMarker::Anonymous)
        } else if s.accept_punct(':') {
            match Name::parse(s) {
                Ok(n) => Ok(BindMarker::Named(n)),
                Err(e) => Err(e),
            }
        } else {
            Err(ParseError::Invalid)
        }
    }

    pub fn to_cql(&self) -> (r: String)
        ensures
            r@ == self.render(),
    {
        match self {
            BindMarker::Anonymous => String::from_str("?"),
            BindMarker::Named(n) => {
                let mut out = String::from_str(":");
                let t = n.to_cql();
                out.append(t.as_str());
                out
            },
        }
    }
}

impl Parse for BindMarker {
    fn parse(s: &mut StatementStream) -> (r: Result<Self, ParseError>) {
        BindMarker::parse(s)
    }
}

impl Peek for BindMarker {
    fn peek(s: &StatementStream) -> (r: bool) {
        s.check_punct('?') || s.check_punct(':')
    }
}

/// A table name, optionally qualified by its keyspace.
#[derive(Clone, Debug)]
pub struct KeyspaceQualifiedName {
    pub keyspace: Option<Name>,
    pub name: Name,
}

impl KeyspaceQualifiedName {
    pub open spec fn render(self) -> Seq<char> {
        match self.keyspace {
            Some(ks) => ks.render() + "."@ + self.name.render(),
            None => self.name.render(),
        }
    }

    /// Parse a name optionally qualified as `keyspace.name`.
    pub fn parse(s: &mut StatementStream) -> (r: Result<KeyspaceQualifiedName, ParseError>)
        requires
            old(s).wf(),
        ensures
            final(s).wf(),
            final(s).text() == old(s).text(),
            final(s).pos >= old(s).pos,
    {
        let first = match Name::parse(s) {
            Ok(n) => n,
            Err(e) => {
                return Err(e);
            },
        };
        if s.accept_punct('.') {
            match Name::parse(s) {
                Ok(second) => Ok(KeyspaceQualifiedName { keyspace: Some(first), name: second }),
                Err(e) => Err(e),
            }
        } else {
            Ok(KeyspaceQualifiedName { keyspace: None, name: first })
        }
    }

    pub fn to_cql(&self) -> (r: String)
        ensures
            r@ == self.render(),
    {
        match &self.keyspace {
            Some(ks) => {
                let mut out = ks.to_cql();
                out.append(".");
                let t = self.name.to_cql();
                out.append(t.as_str());
                proof {
                    assert(out@ =~= self.render());
                }
                out
            },
            None => self.name.to_cql(),
        }
    }
}

impl Parse for KeyspaceQualifiedName {
    fn parse(s: &mut StatementStream) -> (r: Result<Self, ParseError>) {
        KeyspaceQualifiedName::parse(s)
    }
}

impl Peek for KeyspaceQualifiedName {
    fn peek(s: &StatementStream) -> (r: bool) {
        Name::peek(s)
    }
}

/// A comparison operator in a relation or condition.
#[derive(Copy, Clone, Debug, PartialEq, Eq, Structural)]
pub enum Operator {
    Equal,
    NotEqual,
    Less,
    LessEqual,
    Greater,
    GreaterEqual,
    In,
    Contains,
    ContainsKey,
    Like,
}

impl Operator {
    pub open spec fn render(self) -> Seq<char> {
        match self {
            Operator::Equal => "="@,
            Operator::NotEqual => "!="@,
            Operator::Less => "<"@,
            Operator::LessEqual => "<="@,
            Operator::Greater => ">"@,
            Operator::GreaterEqual => ">="@,
            Operator::In => "IN"@,
            Operator::Contains => "CONTAINS"@,
            Operator::ContainsKey => "CONTAINS KEY"@,
            Operator::Like => "LIKE"@,
        }
    }

    /// Parse a comparison operator.
    pub fn parse(s: &mut StatementStream) -> (r: Result<Operator, ParseError>)
        requires
            old(s).wf(),
        ensures
            final(s).wf(),
            final(s).text() == old(s).text(),
            final(s).pos >= old(s).pos,
    {
        if s.accept_keyword("IN") {
            return Ok(Operator::In);
        }
        if s.accept_keyword("CONTAINS") {
            if s.accept_keyword("KEY") {
                return Ok(Operator::ContainsKey);
            }
            return Ok(Operator::Contains);
        }
        if s.accept_keyword("LIKE") {
            return Ok(Operator::Like);
        }
        if s.accept_punct('=') {
            return Ok(Operator::Equal);
        }
        if s.accept_punct('!') {
            if s.accept_punct('=') {
                return Ok(Operator::NotEqual);
            }
            return Err(ParseError::Invalid);
        }
        if s.accept_punct('<') {
            if s.accept_punct('=') {
                return Ok(Operator::LessEqual);
            }
            return Ok(Operator::Less);
        }
        if s.accept_punct('>') {
            if s.accept_punct('=') {
                return Ok(Operator::GreaterEqual);
            }
            return Ok(Operator::Greater);
        }
        Err(ParseError::Invalid)
    }

    pub fn to_cql(&self) -> (r: String)
        ensures
            r@ == self.render(),
    {
        let text = match self {
            Operator::Equal => "=",
            Operator::NotEqual => "!=",
            Operator::Less => "<",
            Operator::LessEqual => "<=",
            Operator::Greater => ">",
            Operator::GreaterEqual => ">=",
            Operator::In => "IN",
            Operator::Contains => "CONTAINS",
            Operator::ContainsKey => "CONTAINS KEY",
            Operator::Like => "LIKE",
        };
        String::from_str(text)
    }
}

impl Parse for Operator {
    fn parse(s: &mut StatementStream) -> (r: Result<Self, ParseError>) {
        Operator::parse(s)
    }
}

impl Peek for Operator {
    fn peek(s: &StatementStream) -> (r: bool) {
        let mut probe = s.duplicate();
        match Operator::parse(&mut probe) {
            Ok(_) => true,
            Err(_) => false,
        }
    }
}

/// An arithmetic operator in an update assignment.
#[derive(Copy, Clone, Debug, PartialEq, Eq, Structural)]
pub enum ArithmeticOp {
    Plus,
    Minus,
    Times,
    Divide,
    Remainder,
}

impl ArithmeticOp {
    pub open spec fn render(self) -> Seq<char> {
        match self {
            ArithmeticOp::Plus => "+"@,
            ArithmeticOp::Minus => "-"@,
            ArithmeticOp::Times => "*"@,
            ArithmeticOp::Divide => "/"@,
            ArithmeticOp::Remainder => "%"@,
        }
    }

    /// Parse an arithmetic operator.
    pub fn parse(s: &mut StatementStream) -> (r: Result<ArithmeticOp, ParseError>)
        requires
            old(s).wf(),
        ensures
            final(s).wf(),
            final(s).text() == old(s).text(),
            final(s).pos >= old(s).pos,
    {
        if s.accept_punct('+') {
            Ok(ArithmeticOp::Plus)
        } else if s.accept_punct('-') {
            Ok(ArithmeticOp::Minus)
        } else if s.accept_punct('*') {
            Ok(ArithmeticOp::Times)
        } else if s.accept_punct('/') {
            Ok(ArithmeticOp::Divide)
        } else if s.accept_punct('%') {
            Ok(ArithmeticOp::Remainder)
        } else {
            Err(ParseError::Invalid)
        }
    }

    pub fn to_cql(&self) -> (r: String)
        ensures
            r@ == self.render(),
    {
        let text = match self {
            ArithmeticOp::Plus => "+",
            ArithmeticOp::Minus => "-",
            ArithmeticOp::Times => "*",
            ArithmeticOp::Divide => "/",
            ArithmeticOp::Remainder => "%",
        };
        String::from_str(text)
    }
}

impl Parse for ArithmeticOp {
    fn parse(s: &mut StatementStream) -> (r: Result<Self, ParseError>) {
        ArithmeticOp::parse(s)
    }
}

impl Peek for ArithmeticOp {
    fn peek(s: &StatementStream) -> (r: bool) {
        s.check_punct('+') || s.check_punct('-') || s.check_punct('*') || s.check_punct('/')
            || s.check_punct('%')
    }
}

/// A run of whitespace.
#[derive(Copy, Clone, Debug)]
pub struct Whitespace;

impl Parse for Whitespace {
    fn parse(s: &mut StatementStream) -> (r: Result<Self, ParseError>) {
        s.skip_whitespace();
        Ok(Whitespace)
    }
}

impl Peek for Whitespace {
    fn peek(s: &StatementStream) -> (r: bool) {
        match s.peek() {
            Some(c) => is_ws(c),
            None => false,
        }
    }
}

/// The empty form: always present, consuming nothing.
#[derive(Copy, Clone, Debug)]
pub struct Nothing;

impl Parse for Nothing {
    fn parse(_s: &mut StatementStream) -> (r: Result<Self, ParseError>) {
        Ok(Nothing)
    }
}

impl Peek for Nothing {
    fn peek(_s: &StatementStream) -> (r: bool) {
        true
    }
}

/// A run of characters up to the next whitespace; the terminating
/// whitespace, if any, is consumed.
#[derive(Clone, Debug)]
pub struct Token(pub String);

impl Token {
    /// Parse a whitespace-delimited token.
    pub fn parse(s: &mut StatementStream) -> (r: Result<Token, ParseError>)
        requires
            old(s).wf(),
        ensures
            final(s).wf(),
            final(s).text() == old(s).text(),
            final(s).pos >= old(s).pos,
    {
        let mut buf: Vec<char> = Vec::new();
        loop
            invariant
                s.wf(),
                s.text() == old(s).text(),
                s.pos >= old(s).pos,
            decreases s.text().len() - s.pos,
        {
            match s.next() {
                Some(c) => {
                    if is_ws(c) {
                        break;
                    }
                    buf.push(c);
                },
                None => {
                    break;
                },
            }
        }
        if buf.len() == 0 {
            Err(ParseError::End)
        } else {
            Ok(Token(chars_to_string(buf.as_slice())))
        }
    }
}

impl Parse for Token {
    fn parse(s: &mut StatementStream) -> (r: Result<Self, ParseError>) {
        Token::parse(s)
    }
}

impl Peek for Token {
    fn peek(s: &StatementStream) -> (r: bool) {
        match s.peek() {
            Some(_) => true,
            None => false,
        }
    }
}

/// Collect the letters and digits at the cursor, consuming them; when
/// `letters` is false only digits are taken.
fn take_class(s: &mut StatementStream, letters: bool) -> (r: Vec<char>)
    requires
        old(s).wf(),
    ensures
        final(s).wf(),
        final(s).text() == old(s).text(),
        final(s).pos >= old(s).pos,
        forall|k: int| 0 <= k < r@.len() ==> spec_is_alnum(#[trigger] r@[k]),
        !letters ==> forall|k: int| 0 <= k < r@.len() ==> spec_is_digit(#[trigger] r@[k]),
{
    let mut buf: Vec<char> = Vec::new();
    let mut going = true;
    while going
        invariant
            s.wf(),
            s.text() == old(s).text(),
            s.pos >= old(s).pos,
            forall|k: int| 0 <= k < buf@.len() ==> spec_is_alnum(#[trigger] buf@[k]),
            !letters ==> forall|k: int| 0 <= k < buf@.len() ==> spec_is_digit(
                #[trigger] buf@[k]),
        decreases s.text().len() - s.pos + (if going { 1int } else { 0int }),
    {
        match s.peek() {
            Some(c) => {
                let ok = if letters {
                    is_alnum(c)
                } else {
                    is_digit(c)
                };
                if ok {
                    let _ = s.next();
                    buf.push(c);
                } else {
                    going = false;
                }
            },
            None => {
                going = false;
            },
        }
    }
    buf
}

/// Collect the letters at the cursor, consuming them.
fn take_alpha(s: &mut StatementStream) -> (r: Vec<char>)
    requires
        old(s).wf(),
    ensures
        final(s).wf(),
        final(s).text() == old(s).text(),
        final(s).pos >= old(s).pos,
        forall|k: int| 0 <= k < r@.len() ==> crate::parse::spec_is_alpha(#[trigger] r@[k]),
{
    let mut buf: Vec<char> = Vec::new();
    let mut going = true;
    while going
        invariant
            s.wf(),
            s.text() == old(s).text(),
            s.pos >= old(s).pos,
            forall|k: int| 0 <= k < buf@.len() ==> crate::parse::spec_is_alpha(
                #[trigger] buf@[k]),
        decreases s.text().len() - s.pos + (if going { 1int } else { 0int }),
    {
        match s.peek() {
            Some(c) => {
                if crate::parse::is_alpha(c) {
                    let _ = s.next();
                    buf.push(c);
                } else {
                    going = false;
                }
            },
            None => {
                going = false;
            },
        }
    }
    buf
}

/// A nonempty run of letters.
#[derive(Clone, Debug)]
pub struct Alpha(pub String);

impl Alpha {
    /// Parse a nonempty run of letters.
    pub fn parse(s: &mut StatementStream) -> (r: Result<Alpha, ParseError>)
        requires
            old(s).wf(),
        ensures
            final(s).wf(),
            final(s).text() == old(s).text(),
            final(s).pos >= old(s).pos,
            r matches Ok(a) ==> a.0@.len() > 0 && forall|k: int|
                0 <= k < a.0@.len() ==> crate::parse::spec_is_alpha(#[trigger] a.0@[k]),
    {
        let buf = take_alpha(s);
        if buf.len() == 0 {
            Err(ParseError::End)
        } else {
            Ok(Alpha(chars_to_string(buf.as_slice())))
        }
    }
}

impl Parse for Alpha {
    fn parse(s: &mut StatementStream) -> (r: Result<Self, ParseError>) {
        Alpha::parse(s)
    }
}

impl Peek for Alpha {
    fn peek(s: &StatementStream) -> (r: bool) {
        match s.peek() {
            Some(c) => crate::parse::is_alpha(c),
            None => false,
        }
    }
}

/// A nonempty run of letters and digits.
#[derive(Clone, Debug)]
pub struct Alphanumeric(pub String);

impl Alphanumeric {
    /// Parse a nonempty run of letters and digits.
    pub fn parse(s: &mut StatementStream) -> (r: Result<Alphanumeric, ParseError>)
        requires
            old(s).wf(),
        ensures
            final(s).wf(),
            final(s).text() == old(s).text(),
            final(s).pos >= old(s).pos,
            r matches Ok(a) ==> a.0@.len() > 0 && forall|k: int|
                0 <= k < a.0@.len() ==> spec_is_alnum(#[trigger] a.0@[k]),
    {
        let buf = take_class(s, true);
        if buf.len() == 0 {
            Err(ParseError::End)
        } else {
            Ok(Alphanumeric(chars_to_string(buf.as_slice())))
        }
    }
}

impl Parse for Alphanumeric {
    fn parse(s: &mut StatementStream) -> (r: Result<Self, ParseError>) {
        Alphanumeric::parse(s)
    }
}

impl Peek for Alphanumeric {
    fn peek(s: &StatementStream) -> (r: bool) {
        match s.peek() {
            Some(c) => is_alnum(c),
            None => false,
        }
    }
}

/// A nonempty run of decimal digits.
#[derive(Clone, Debug)]
pub struct Number(pub String);

impl Number {
    /// Parse a nonempty run of decimal digits.
    pub fn parse(s: &mut StatementStream) -> (r: Result<Number, ParseError>)
        requires
            old(s).wf(),
        ensures
            final(s).wf(),
            final(s).text() == old(s).text(),
            final(s).pos >= old(s).pos,
            r matches Ok(a) ==> a.0@.len() > 0 && forall|k: int|
                0 <= k < a.0@.len() ==> spec_is_digit(#[trigger] a.0@[k]),
    {
        let buf = take_class(s, false);
        if buf.len() == 0 {
            Err(ParseError::End)
        } else {
            Ok(Number(chars_to_string(buf.as_slice())))
        }
    }
}

impl Parse for Number {
    fn parse(s: &mut StatementStream) -> (r: Result<Self, ParseError>) {
        Number::parse(s)
    }
}

impl Peek for Number {
    fn peek(s: &StatementStream) -> (r: bool) {
        match s.peek() {
            Some(c) => is_digit(c),
            None => false,
        }
    }
}

/// A decimal number with an optional leading minus sign.
#[derive(Clone, Debug)]
pub struct SignedNumber(pub String);

impl SignedNumber {
    /// Parse a decimal number with an optional leading minus sign.
    pub fn parse(s: &mut StatementStream) -> (r: Result<SignedNumber, ParseError>)
        requires
            old(s).wf(),
        ensures
            final(s).wf(),
            final(s).text() == old(s).text(),
            final(s).pos >= old(s).pos,
            r matches Ok(a) ==> a.0@.len() > 0,
    {
        let mut buf: Vec<char> = Vec::new();
        match s.peek() {
            Some(c) => {
                if c == '-' {
                    let _ = s.next();
                    buf.push('-');
                }
            },
            None => {
                return Err(ParseError::End);
            },
        }
        let digits = take_class(s, false);
        if digits.len() == 0 {
            return Err(ParseError::End);
        }
        let mut i: usize = 0;
        while i < digits.len()
            invariant
                i <= digits@.len(),
                buf@.len() >= i,
            decreases digits@.len() - i,
        {
            buf.push(digits[i]);
            i = i + 1;
        }
        proof {
            assert(buf@.len() > 0);
        }
        Ok(SignedNumber(chars_to_string(buf.as_slice())))
    }
}

impl Parse for SignedNumber {
    fn parse(s: &mut StatementStream) -> (r: Result<Self, ParseError>) {
        SignedNumber::parse(s)
    }
}

impl Peek for SignedNumber {
    fn peek(s: &StatementStream) -> (r: bool) {
        let mut probe = s.duplicate();
        match SignedNumber::parse(&mut probe) {
            Ok(_) => true,
            Err(_) => false,
        }
    }
}

/// A floating-point literal kept as text: sign, digits, one decimal
/// point, and an optional exponent.
#[derive(Clone, Debug)]
pub struct Float(pub String);

impl Float {
    /// Parse a float literal into its text form. The text must contain a
    /// decimal point.
    pub fn parse(s: &mut StatementStream) -> (r: Result<Float, ParseError>)
        requires
            old(s).wf(),
        ensures
            final(s).wf(),
            final(s).text() == old(s).text(),
            final(s).pos >= old(s).pos,
    {
        let mut buf: Vec<char> = Vec::new();
        let mut has_dot = false;
        let mut has_e = false;
        match s.peek() {
            Some(c) => {
                if c == '-' {
                    let _ = s.next();
                    buf.push('-');
                }
            },
            None => {
                return Err(ParseError::End);
            },
        }
        loop
            invariant
                s.wf(),
                s.text() == old(s).text(),
                s.pos >= old(s).pos,
            decreases s.text().len() - s.pos + 1,
        {
            match s.peek() {
                Some(c) => {
                    if is_digit(c) {
                        let _ = s.next();
                        buf.push(c);
                    } else if c == '.' {
                        if has_dot {
                            return Err(ParseError::Invalid);
                        }
                        has_dot = true;
                        let _ = s.next();
                        buf.push(c);
                    } else if c == 'e' || c == 'E' {
                        if has_e {
                            return Err(ParseError::Invalid);
                        }
                        if buf.len() == 0 {
                            return Err(ParseError::Invalid);
                        }
                        has_e = true;
                        let _ = s.next();
                        buf.push(c);
                        match s.next() {
                            Some(d) => {
                                if d == '-' || d == '+' || is_digit(d) {
                                    buf.push(d);
                                } else {
                                    return Err(ParseError::Invalid);
                                }
                            },
                            None => {
                                return Err(ParseError::End);
                            },
                        }
                    } else {
                        break;
                    }
                },
                None => {
                    break;
                },
            }
        }
        if !has_dot {
            return Err(ParseError::Invalid);
        }
        if buf.len() == 0 {
            return Err(ParseError::End);
        }
        Ok(Float(chars_to_string(buf.as_slice())))
    }
}

impl Parse for Float {
    fn parse(s: &mut StatementStream) -> (r: Result<Self, ParseError>) {
        Float::parse(s)
    }
}

impl Peek for Float {
    fn peek(s: &StatementStream) -> (r: bool) {
        let mut probe = s.duplicate();
        match Float::parse(&mut probe) {
            Ok(_) => true,
            Err(_) => false,
        }
    }
}

/// The value of one hexadecimal digit.
pub open spec fn spec_hex_val(c: char) -> u8 {
    if '0' <= c <= '9' {
        ((c as u8) - 0x30) as u8
    } else if 'a' <= c <= 'f' {
        ((c as u8) - 0x61 + 10) as u8
    } else if 'A' <= c <= 'F' {
        ((c as u8) - 0x41 + 10) as u8
    } else {
        0
    }
}

/// Whether a text is a well-formed hexadecimal byte string: an even
/// number of hexadecimal digits.
pub open spec fn spec_hex_ok(s: Seq<char>) -> bool {
    s.len() % 2 == 0 && forall|k: int| 0 <= k < s.len() ==> spec_is_hex_digit(#[trigger] s[k])
}

/// The bytes that a hexadecimal text denotes, two digits per byte.
pub open spec fn spec_hex_bytes(s: Seq<char>) -> Seq<u8> {
    Seq::new((s.len() / 2) as nat, |i: int|
        ((spec_hex_val(s[2 * i]) as u8) * 16 + spec_hex_val(s[2 * i + 1])) as u8)
}

/// Relies on hex::decode: an even run of hexadecimal digits becomes one
/// byte per digit pair; an odd length or a character outside `0-9a-fA-F`
/// is refused.
#[verifier::external_body]
fn hex_decode_text(t: &str) -> (r: Option<Vec<u8>>)
    requires
        forall|k: int| 0 <= k < t@.len() ==> spec_is_alnum(#[trigger] t@[k]),
    ensures
        match r {
            Some(b) => spec_hex_ok(t@) && b@ == spec_hex_bytes(t@),
            None => !spec_hex_ok(t@),
        },
{
    match hex::decode(t) {
        Ok(v) => Some(v),
        Err(_) => None,
    }
}

/// A run of hexadecimal digits denoting bytes.
#[derive(Clone, Debug)]
pub struct Hex(pub Vec<u8>);

impl Hex {
    /// Parse a nonempty run of letters and digits as hexadecimal bytes.
    pub fn parse(s: &mut StatementStream) -> (r: Result<Hex, ParseError>)
        requires
            old(s).wf(),
        ensures
            final(s).wf(),
            final(s).text() == old(s).text(),
            final(s).pos >= old(s).pos,
    {
        let text = match Alphanumeric::parse(s) {
            Ok(a) => a,
            Err(e) => {
                return Err(e);
            },
        };
        match hex_decode_text(text.0.as_str()) {
            Some(bytes) => Ok(Hex(bytes)),
            None => Err(ParseError::Invalid),
        }
    }
}

impl Parse for Hex {
    fn parse(s: &mut StatementStream) -> (r: Result<Self, ParseError>) {
        Hex::parse(s)
    }
}

impl Peek for Hex {
    fn peek(s: &StatementStream) -> (r: bool) {
        let mut probe = s.duplicate();
        match Hex::parse(&mut probe) {
            Ok(_) => true,
            Err(_) => false,
        }
    }
}

/// A sort direction.
#[derive(Copy, Clone, Debug, PartialEq, Eq, Structural)]
pub enum Order {
    Ascending,
    Descending,
}

impl Order {
    pub open spec fn render(self) -> Seq<char> {
        match self {
            Order::Ascending => "ASC"@,
            Order::Descending => "DESC"@,
        }
    }

    /// Parse a sort direction.
    pub fn parse(s: &mut StatementStream) -> (r: Result<Order, ParseError>)
        requires
            old(s).wf(),
        ensures
            final(s).wf(),
            final(s).text() == old(s).text(),
            final(s).pos >= old(s).pos,
    {
        if s.accept_keyword("ASC") {
            Ok(Order::Ascending)
        } else if s.accept_keyword("DESC") {
            Ok(Order::Descending)
        } else {
            Err(ParseError::Invalid)
        }
    }

    pub fn to_cql(&self) -> (r: String)
        ensures
            r@ == self.render(),
    {
        match self {
            Order::Ascending => String::from_str("ASC"),
            Order::Descending => String::from_str("DESC"),
        }
    }
}

impl Default for Order {
    /// The default sort direction is ascending.
    fn default() -> (r: Self)
        ensures
            r == Order::Ascending,
    {
        Order::Ascending
    }
}

impl Parse for Order {
    fn parse(s: &mut StatementStream) -> (r: Result<Self, ParseError>) {
        Order::parse(s)
    }
}

impl Peek for Order {
    fn peek(s: &StatementStream) -> (r: bool) {
        s.check_keyword("ASC") || s.check_keyword("DESC")
    }
}

/// A column with its sort direction.
#[derive(Clone, Debug)]
pub struct ColumnOrder {
    pub column: Name,
    pub order: Order,
}

impl ColumnOrder {
    pub open spec fn render(self) -> Seq<char> {
        self.column.render() + " "@ + self.order.render()
    }

    /// Parse `column ASC|DESC`.
    pub fn parse(s: &mut StatementStream) -> (r: Result<ColumnOrder, ParseError>)
        requires
            old(s).wf(),
        ensures
            final(s).wf(),
            final(s).text() == old(s).text(),
            final(s).pos >= old(s).pos,
    {
        let column = match Name::parse(s) {
            Ok(n) => n,
            Err(e) => {
                return Err(e);
            },
        };
        match Order::parse(s) {
            Ok(order) => Ok(ColumnOrder { column, order }),
            Err(e) => Err(e),
        }
    }

    pub fn to_cql(&self) -> (r: String)
        ensures
            r@ == self.render(),
    {
        let mut out = self.column.to_cql();
        out.append(" ");
        let t = self.order.to_cql();
        out.append(t.as_str());
        proof {
            assert(out@ =~= self.render());
        }
        out
    }
}

impl Parse for ColumnOrder {
    fn parse(s: &mut StatementStream) -> (r: Result<Self, ParseError>) {
        ColumnOrder::parse(s)
    }
}

impl Peek for ColumnOrder {
    fn peek(s: &StatementStream) -> (r: bool) {
        let mut probe = s.duplicate();
        match ColumnOrder::parse(&mut probe) {
            Ok(_) => true,
            Err(_) => false,
        }
    }
}

/// The numeric value of a run of decimal digits.
pub open spec fn spec_digits_val(ds: Seq<char>) -> int
    decreases ds.len(),
{
    if ds.len() == 0 {
        0
    } else {
        spec_digits_val(ds.drop_last()) * 10 + (ds.last() as int - '0' as int)
    }
}

/// Whether `v` is the signed decimal value that the text denotes: all
/// digits after an optional leading minus sign, read in base ten.
pub open spec fn spec_i32_text(t: Seq<char>, v: int) -> bool {
    t.len() > 0 && (if t[0] == '-' {
        t.len() > 1 && v == -spec_digits_val(t.skip(1)) && (forall|k: int|
            1 <= k < t.len() ==> spec_is_digit(#[trigger] t[k]))
    } else {
        v == spec_digits_val(t) && (forall|k: int|
            0 <= k < t.len() ==> spec_is_digit(#[trigger] t[k]))
    })
}

/// Parse a decimal text, with an optional leading minus sign, into a
/// signed 32-bit value. A returned value is exactly the decimal value of
/// the digits, negated under a leading minus sign; `None` is returned on
/// a malformed text or a value out of range.
pub fn parse_i32_str(t: &str) -> (r: Option<i32>)
    ensures
        r matches Some(v) ==> spec_i32_text(t@, v as int),
{
    let n = t.unicode_len();
    if n == 0 {
        return None;
    }
    let mut i: usize = 0;
    let mut negative = false;
    if t.get_char(0) == '-' {
        negative = true;
        i = 1;
        if n == 1 {
            return None;
        }
    }
    let ghost start = i as int;
    let mut acc: i64 = 0;
    while i < n
        invariant
            start <= i <= n,
            n == t@.len(),
            start == (if t@[0] == '-' { 1int } else { 0int }),
            negative == (t@[0] == '-'),
            0 <= acc <= 0x80000000i64,
            acc == spec_digits_val(t@.subrange(start, i as int)),
            forall|k: int| start <= k < i ==> spec_is_digit(#[trigger] t@[k]),
        decreases n - i,
    {
        let c = t.get_char(i);
        if !is_digit(c) {
            return None;
        }
        let d = (c as u32) - ('0' as u32);
        if acc > 214748364 {
            return None;
        }
        acc = acc * 10 + (d as i64);
        if acc > 0x80000000i64 {
            return None;
        }
        i = i + 1;
        proof {
            let sub = t@.subrange(start, i as int);
            assert(sub.drop_last() =~= t@.subrange(start, i as int - 1));
            assert(sub.last() == t@[i as int - 1]);
        }
    }
    proof {
        assert(t@.subrange(start, n as int) =~= t@.skip(start));
        if start == 0 {
            assert(t@.skip(0) =~= t@);
        }
    }
    if negative {
        let v = -acc;
        if v < -0x80000000i64 {
            return None;
        }
        Some(v as i32)
    } else {
        if acc > 0x7fffffffi64 {
            return None;
        }
        Some(acc as i32)
    }
}

} // verus!
