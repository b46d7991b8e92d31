//! The data-manipulation statements: SELECT, INSERT, UPDATE, DELETE and
//! BATCH, with their clauses, parsed from statement text and rendered
//! back to it.

use vstd::prelude::*;
use crate::parse::{render_i32, spec_dec_i64, Parse, ParseError, Peek, StatementStream};
use crate::terms::{
    spec_render_term, CqlType, DurationLiteral, ListLiteral, Term, TupleLiteral,
};
use crate::tokens::{
    join_rendered, parse_i32_str, spec_join, BindMarker, ColumnOrder, KeyspaceQualifiedName,
    Name, Operator,
};

verus! {

/// Render names joined by a comma and a space.
pub fn render_names(names: &Vec<Name>, sep: &str) -> (r: String)
    ensures
        r@ == spec_join(names@.map_values(|n: Name| n.render()), sep@),
{
    let mut parts: Vec<String> = Vec::new();
    let mut i: usize = 0;
    while i < names.len()
        invariant
            i <= names@.len(),
            parts@.len() == i,
            forall|k: int| 0 <= k < i ==> (#[trigger] parts@[k])@ == names@[k].render(),
        decreases names@.len() - i,
    {
        parts.push(names[i].to_cql());
        i = i + 1;
    }
    let out = join_rendered(&parts, sep);
    proof {
        assert(parts@.map_values(|p: String| p@) =~= names@.map_values(|n: Name|
            n.render()));
    }
    out
}

/// Parse a nonempty list of names separated by commas.
pub fn parse_name_list(s: &mut StatementStream) -> (r: Result<Vec<Name>, ParseError>)
    requires
        old(s).wf(),
    ensures
        final(s).wf(),
        final(s).text() == old(s).text(),
        final(s).pos >= old(s).pos,
        r matches Ok(ns) ==> ns@.len() > 0,
{
    let mut names: Vec<Name> = Vec::new();
    let first = Name::parse(s)?;
    names.push(first);
    while s.accept_punct(',')
        invariant
            s.wf(),
            s.text() == old(s).text(),
            s.pos >= old(s).pos,
            names@.len() > 0,
        decreases s.text().len() - s.pos,
    {
        let n = Name::parse(s)?;
        names.push(n);
    }
    Ok(names)
}

/// One relation of a WHERE clause: a plain column comparison, a tuple
/// comparison, or a token comparison.
#[derive(Debug)]
pub enum Relation {
    Normal { column: Name, operator: Operator, term: Term },
    Tuple { columns: Vec<Name>, operator: Operator, tuple_literal: TupleLiteral },
    Token { columns: Vec<Name>, operator: Operator, term: Term },
}

impl Relation {
    /// A plain column relation.
    pub fn normal(column: Name, operator: Operator, term: Term) -> (r: Relation)
        ensures
            r == (Relation::Normal { column, operator, term }),
    {
        Relation::Normal { column, operator, term }
    }

    pub open spec fn render(self) -> Seq<char> {
        match self {
            Relation::Normal { column, operator, term } => column.render() + " "@
                + operator.render() + " "@ + spec_render_term(term),
            Relation::Tuple { columns, operator, tuple_literal } => "("@ + spec_join(
                columns@.map_values(|n: Name| n.render()), ", "@) + ") "@ + operator.render()
                + " "@ + spec_render_term(Term::Tuple(tuple_literal)),
            Relation::Token { columns, operator, term } => "TOKEN ("@ + spec_join(
                columns@.map_values(|n: Name| n.render()), ", "@) + ") "@ + operator.render()
                + " "@ + spec_render_term(term),
        }
    }

    /// Parse one relation.
    pub fn parse(s: &mut StatementStream) -> (r: Result<Relation, ParseError>)
        requires
            old(s).wf(),
        ensures
            final(s).wf(),
            final(s).text() == old(s).text(),
            final(s).pos >= old(s).pos,
    {
        if s.accept_keyword("TOKEN") {
            if !s.accept_punct('(') {
                return Err(ParseError::Invalid);
            }
            let columns = parse_name_list(s)?;
            if !s.accept_punct(')') {
                return Err(ParseError::Invalid);
            }
            let operator = Operator::parse(s)?;
            let term = Term::parse(s)?;
            return Ok(Relation::Token { columns, operator, term });
        }
        if s.check_punct('(') {
            let _ = s.accept_punct('(');
            let columns = parse_name_list(s)?;
            if !s.accept_punct(')') {
                return Err(ParseError::Invalid);
            }
            let operator = Operator::parse(s)?;
            let term = Term::parse(s)?;
            match term {
                Term::Tuple(tuple_literal) => {
                    return Ok(Relation::Tuple { columns, operator, tuple_literal });
                },
                _ => {
                    return Err(ParseError::Invalid);
                },
            }
        }
        let column = Name::parse(s)?;
        let operator = Operator::parse(s)?;
        let term = Term::parse(s)?;
        Ok(Relation::Normal { column, operator, term })
    }

    pub fn to_cql(&self) -> (r: String)
        ensures
            r@ == self.render(),
    {
        match self {
            Relation::Normal { column, operator, term } => {
                let mut out = column.to_cql();
                out.append(" ");
                let op = operator.to_cql();
                out.append(op.as_str());
                out.append(" ");
                let t = term.to_cql();
                out.append(t.as_str());
                proof {
                    assert(out@ =~= self.render());
                }
                out
            },
            Relation::Tuple { columns, operator, tuple_literal } => {
                let mut out = String::from_str("(");
                let cols = render_names(columns, ", ");
                out.append(cols.as_str());
                out.append(") ");
                let op = operator.to_cql();
                out.append(op.as_str());
                out.append(" ");
                let inner = crate::terms::render_term_slice(&tuple_literal.elements);
                out.append("(");
                out.append(inner.as_str());
                out.append(")");
                proof {
                    assert(out@ =~= self.render());
                }
                out
            },
            Relation::Token { columns, operator, term } => {
                let mut out = String::from_str("TOKEN (");
                let cols = render_names(columns, ", ");
                out.append(cols.as_str());
                out.append(") ");
                let op = operator.to_cql();
                out.append(op.as_str());
                out.append(" ");
                let t = term.to_cql();
                out.append(t.as_str());
                proof {
                    assert(out@ =~= self.render());
                }
                out
            },
        }
    }
}

impl Parse for Relation {
    fn parse(s: &mut StatementStream) -> (r: Result<Self, ParseError>) {
        Relation::parse(s)
    }
}

impl Peek for Relation {
    fn peek(s: &StatementStream) -> (r: bool) {
        let mut probe = s.duplicate();
        match Relation::parse(&mut probe) {
            Ok(_) => true,
            Err(_) => false,
        }
    }
}

/// The rendered relations of a WHERE clause joined by AND.
pub open spec fn spec_render_relations(rs: Seq<Relation>) -> Seq<char> {
    spec_join(rs.map_values(|r: Relation| r.render()), " AND "@)
}

/// Render relations joined by AND.
pub fn render_relations(rs: &Vec<Relation>) -> (r: String)
    ensures
        r@ == spec_render_relations(rs@),
{
    let mut parts: Vec<String> = Vec::new();
    let mut i: usize = 0;
    while i < rs.len()
        invariant
            i <= rs@.len(),
            parts@.len() == i,
            forall|k: int| 0 <= k < i ==> (#[trigger] parts@[k])@ == rs@[k].render(),
        decreases rs@.len() - i,
    {
        parts.push(rs[i].to_cql());
        i = i + 1;
    }
    let out = join_rendered(&parts, " AND ");
    proof {
        assert(parts@.map_values(|p: String| p@) =~= rs@.map_values(|r: Relation|
            r.render()));
    }
    out
}

/// The FROM clause of a statement: the target table.
#[derive(Debug)]
pub struct FromClause {
    pub table: KeyspaceQualifiedName,
}

impl FromClause {
    pub open spec fn render(self) -> Seq<char> {
        "FROM "@ + self.table.render()
    }

    /// Parse `FROM table`.
    pub fn parse(s: &mut StatementStream) -> (r: Result<FromClause, ParseError>)
        requires
            old(s).wf(),
        ensures
            final(s).wf(),
            final(s).text() == old(s).text(),
            final(s).pos >= old(s).pos,
    {
        if !s.accept_keyword("FROM") {
            return Err(ParseError::Invalid);
        }
        let table = KeyspaceQualifiedName::parse(s)?;
        Ok(FromClause { table })
    }

    pub fn to_cql(&self) -> (r: String)
        ensures
            r@ == self.render(),
    {
        let mut out = String::from_str("FROM ");
        let t = self.table.to_cql();
        out.append(t.as_str());
        out
    }
}

impl Parse for FromClause {
    fn parse(s: &mut StatementStream) -> (r: Result<Self, ParseError>) {
        FromClause::parse(s)
    }
}

impl Peek for FromClause {
    fn peek(s: &StatementStream) -> (r: bool) {
        s.check_keyword("FROM")
    }
}

/// The WHERE clause of a statement: relations joined by AND.
#[derive(Debug)]
pub struct WhereClause {
    pub relations: Vec<Relation>,
}

impl WhereClause {
    pub open spec fn render(self) -> Seq<char> {
        "WHERE "@ + spec_render_relations(self.relations@)
    }

    /// Parse `WHERE relation (AND relation)*`.
    pub fn parse(s: &mut StatementStream) -> (r: Result<WhereClause, ParseError>)
        requires
            old(s).wf(),
        ensures
            final(s).wf(),
            final(s).text() == old(s).text(),
            final(s).pos >= old(s).pos,
            r matches Ok(_) ==> final(s).pos > old(s).pos,
    {
        if !s.accept_keyword("WHERE") {
            return Err(ParseError::Invalid);
        }
        let mut relations: Vec<Relation> = Vec::new();
        let first = Relation::parse(s)?;
        relations.push(first);
        while s.accept_keyword("AND")
            invariant
                s.wf(),
                s.text() == old(s).text(),
                s.pos > old(s).pos,
            decreases s.text().len() - s.pos,
        {
            let rel = Relation::parse(s)?;
            relations.push(rel);
        }
        Ok(WhereClause { relations })
    }

    pub fn to_cql(&self) -> (r: String)
        ensures
            r@ == self.render(),
    {
        let mut out = String::from_str("WHERE ");
        let t = render_relations(&self.relations);
        out.append(t.as_str());
        out
    }
}

impl Parse for WhereClause {
    fn parse(s: &mut StatementStream) -> (r: Result<Self, ParseError>) {
        WhereClause::parse(s)
    }
}

impl Peek for WhereClause {
    fn peek(s: &StatementStream) -> (r: bool) {
        s.check_keyword("WHERE")
    }
}

/// The GROUP BY clause: the grouped columns.
#[derive(Debug)]
pub struct GroupByClause {
    pub columns: Vec<Name>,
}

impl GroupByClause {
    pub open spec fn render(self) -> Seq<char> {
        "GROUP BY "@ + spec_join(self.columns@.map_values(|n: Name| n.render()), ", "@)
    }

    /// Parse `GROUP BY name (, name)*`.
    pub fn parse(s: &mut StatementStream) -> (r: Result<GroupByClause, ParseError>)
        requires
            old(s).wf(),
        ensures
            final(s).wf(),
            final(s).text() == old(s).text(),
            final(s).pos >= old(s).pos,
            r matches Ok(_) ==> final(s).pos > old(s).pos,
    {
        if !s.accept_keyword("GROUP") {
            return Err(ParseError::Invalid);
        }
        if !s.accept_keyword("BY") {
            return Err(ParseError::Invalid);
        }
        let columns = parse_name_list(s)?;
        Ok(GroupByClause { columns })
    }

    pub fn to_cql(&self) -> (r: String)
        ensures
            r@ == self.render(),
    {
        let mut out = String::from_str("GROUP BY ");
        let t = render_names(&self.columns, ", ");
        out.append(t.as_str());
        out
    }
}

impl Parse for GroupByClause {
    fn parse(s: &mut StatementStream) -> (r: Result<Self, ParseError>) {
        GroupByClause::parse(s)
    }
}

impl Peek for GroupByClause {
    fn peek(s: &StatementStream) -> (r: bool) {
        let mut probe = s.duplicate();
        if probe.accept_keyword("GROUP") {
            probe.check_keyword("BY")
        } else {
            false
        }
    }
}

/// The ORDER BY clause: columns with their sort directions.
#[derive(Debug)]
pub struct OrderingClause {
    pub columns: Vec<ColumnOrder>,
}

impl OrderingClause {
    pub open spec fn render(self) -> Seq<char> {
        "ORDER BY "@ + spec_join(self.columns@.map_values(|c: ColumnOrder| c.render()),
            ", "@)
    }

    /// Parse `ORDER BY column direction (, column direction)*`.
    pub fn parse(s: &mut StatementStream) -> (r: Result<OrderingClause, ParseError>)
        requires
            old(s).wf(),
        ensures
            final(s).wf(),
            final(s).text() == old(s).text(),
            final(s).pos >= old(s).pos,
            r matches Ok(_) ==> final(s).pos > old(s).pos,
    {
        if !s.accept_keyword("ORDER") {
            return Err(ParseError::Invalid);
        }
        if !s.accept_keyword("BY") {
            return Err(ParseError::Invalid);
        }
        let mut columns: Vec<ColumnOrder> = Vec::new();
        let first = ColumnOrder::parse(s)?;
        columns.push(first);
        while s.accept_punct(',')
            invariant
                s.wf(),
                s.text() == old(s).text(),
                s.pos > old(s).pos,
            decreases s.text().len() - s.pos,
        {
            let c = ColumnOrder::parse(s)?;
            columns.push(c);
        }
        Ok(OrderingClause { columns })
    }

    pub fn to_cql(&self) -> (r: String)
        ensures
            r@ == self.render(),
    {
        let mut parts: Vec<String> = Vec::new();
        let mut i: usize = 0;
        while i < self.columns.len()
            invariant
                i <= self.columns@.len(),
                parts@.len() == i,
                forall|k: int| 0 <= k < i ==> (#[trigger] parts@[k])@ == self.columns@[
                    k].render(),
            decreases self.columns@.len() - i,
        {
            parts.push(self.columns[i].to_cql());
            i = i + 1;
        }
        let inner = join_rendered(&parts, ", ");
        let mut out = String::from_str("ORDER BY ");
        out.append(inner.as_str());
        proof {
            assert(parts@.map_values(|p: String| p@) =~= self.columns@.map_values(|c:
                ColumnOrder| c.render()));
        }
        out
    }
}

impl Parse for OrderingClause {
    fn parse(s: &mut StatementStream) -> (r: Result<Self, ParseError>) {
        OrderingClause::parse(s)
    }
}

impl Peek for OrderingClause {
    fn peek(s: &StatementStream) -> (r: bool) {
        let mut probe = s.duplicate();
        if probe.accept_keyword("ORDER") {
            probe.check_keyword("BY")
        } else {
            false
        }
    }
}

/// A limit: a literal count or a bind marker.
#[derive(Debug)]
pub enum Limit {
    Literal(i32),
    BindMarker(BindMarker),
}

impl Limit {
    pub open spec fn render(self) -> Seq<char> {
        match self {
            Limit::Literal(n) => spec_dec_i64(n as int),
            Limit::BindMarker(b) => b.render(),
        }
    }

    /// Parse a limit: a bind marker, or a signed 32-bit literal.
    pub fn parse(s: &mut StatementStream) -> (r: Result<Limit, ParseError>)
        requires
            old(s).wf(),
        ensures
            final(s).wf(),
            final(s).text() == old(s).text(),
            final(s).pos >= old(s).pos,
    {
        if s.check_punct('?') || s.check_punct(':') {
            let m = BindMarker::parse(s)?;
            return Ok(Limit::BindMarker(m));
        }
        s.skip_whitespace();
        let n = crate::tokens::SignedNumber::parse(s)?;
        match parse_i32_str(n.0.as_str()) {
            Some(v) => Ok(Limit::Literal(v)),
            None => Err(ParseError::Invalid),
        }
    }

    pub fn to_cql(&self) -> (r: String)
        ensures
            r@ == self.render(),
    {
        match self {
            Limit::Literal(n) => render_i32(*n),
            Limit::BindMarker(b) => b.to_cql(),
        }
    }
}

impl Parse for Limit {
    fn parse(s: &mut StatementStream) -> (r: Result<Self, ParseError>) {
        Limit::parse(s)
    }
}

impl Peek for Limit {
    fn peek(s: &StatementStream) -> (r: bool) {
        let mut probe = s.duplicate();
        match Limit::parse(&mut probe) {
            Ok(_) => true,
            Err(_) => false,
        }
    }
}

/// A default for unnamed columns in a JSON insert.
#[derive(Copy, Clone, Debug, PartialEq, Eq, Structural)]
pub enum ColumnDefault {
    Null,
    Unset,
}

impl ColumnDefault {
    pub open spec fn render(self) -> Seq<char> {
        match self {
            ColumnDefault::Null => "NULL"@,
            ColumnDefault::Unset => "UNSET"@,
        }
    }

    /// Parse `NULL` or `UNSET`.
    pub fn parse(s: &mut StatementStream) -> (r: Result<ColumnDefault, ParseError>)
        requires
            old(s).wf(),
        ensures
            final(s).wf(),
            final(s).text() == old(s).text(),
            final(s).pos >= old(s).pos,
    {
        if s.accept_keyword("NULL") {
            Ok(ColumnDefault::Null)
        } else if s.accept_keyword("UNSET") {
            Ok(ColumnDefault::Unset)
        } else {
            Err(ParseError::Invalid)
        }
    }

    pub fn to_cql(&self) -> (r: String)
        ensures
            r@ == self.render(),
    {
        match self {
            ColumnDefault::Null => String::from_str("NULL"),
            ColumnDefault::Unset => String::from_str("UNSET"),
        }
    }
}

impl Parse for ColumnDefault {
    fn parse(s: &mut StatementStream) -> (r: Result<Self, ParseError>) {
        ColumnDefault::parse(s)
    }
}

impl Peek for ColumnDefault {
    fn peek(s: &StatementStream) -> (r: bool) {
        s.check_keyword("NULL") || s.check_keyword("UNSET")
    }
}

/// One selector of a SELECT clause with an optional alias.
#[derive(Debug)]
pub struct Selector {
    pub kind: SelectorKind,
    pub as_id: Option<Name>,
}

/// What a selector selects.
#[derive(Debug)]
pub enum SelectorKind {
    Column(Name),
    Term(Term),
    Cast(Box<Selector>, CqlType),
    Function(SelectorFunction),
    Count,
}

/// A function call selector: a function name applied to selectors.
#[derive(Debug)]
pub struct SelectorFunction {
    pub function: Name,
    pub args: Vec<Selector>,
}

/// The rendered text of a selector.
pub open spec fn spec_render_selector(sel: Selector) -> Seq<char>
    decreases sel,
{
    spec_render_selector_kind(sel.kind) + (match sel.as_id {
        Some(n) => " AS "@ + n.render(),
        None => Seq::<char>::empty(),
    })
}

/// The rendered text of a selector kind.
pub open spec fn spec_render_selector_kind(k: SelectorKind) -> Seq<char>
    decreases k,
{
    match k {
        SelectorKind::Column(n) => n.render(),
        SelectorKind::Term(t) => spec_render_term(t),
        SelectorKind::Cast(sel, ty) => "CAST("@ + spec_render_selector(*sel) + " AS "@
            + ty.render() + ")"@,
        SelectorKind::Function(f) => f.function.render() + "("@ + spec_render_selectors(
            f.args@) + ")"@,
        SelectorKind::Count => "COUNT(*)"@,
    }
}

/// The rendered selectors joined by a comma and a space.
pub open spec fn spec_render_selectors(ss: Seq<Selector>) -> Seq<char>
    decreases ss,
{
    if ss.len() == 0 {
        Seq::empty()
    } else if ss.len() == 1 {
        spec_render_selector(ss[0])
    } else {
        spec_render_selector(ss[0]) + ", "@ + spec_render_selectors(ss.drop_first())
    }
}

/// `spec_render_selectors` is the comma-join of the rendered selectors.
pub proof fn lemma_render_selectors_join(ss: Seq<Selector>)
    ensures
        spec_render_selectors(ss) == spec_join(ss.map_values(|x: Selector|
            spec_render_selector(x)), ", "@),
    decreases ss.len(),
{
    let mapped = ss.map_values(|x: Selector| spec_render_selector(x));
    if ss.len() == 0 {
    } else if ss.len() == 1 {
        assert(mapped[0] == spec_render_selector(ss[0]));
    } else {
        lemma_render_selectors_join(ss.drop_first());
        assert(ss.drop_first().map_values(|x: Selector| spec_render_selector(x)) =~= mapped
            .drop_first());
        assert(mapped[0] == spec_render_selector(ss[0]));
    }
}

impl Selector {
    /// Parse a selector: a kind, then an optional `AS alias`.
    pub fn parse(s: &mut StatementStream) -> (r: Result<Selector, ParseError>)
        requires
            old(s).wf(),
        ensures
            final(s).wf(),
            final(s).text() == old(s).text(),
            final(s).pos >= old(s).pos,
            r matches Ok(_) ==> final(s).pos > old(s).pos,
        decreases old(s).text().len() - old(s).pos, 2int,
    {
        let kind = SelectorKind::parse(s)?;
        if s.accept_keyword("AS") {
            let n = Name::parse(s)?;
            Ok(Selector { kind, as_id: Some(n) })
        } else {
            Ok(Selector { kind, as_id: None })
        }
    }

    /// Render the selector back to statement text.
    pub fn to_cql(&self) -> (r: String)
        ensures
            r@ == spec_render_selector(*self),
        decreases *self,
    {
        let mut out = self.kind.to_cql();
        match &self.as_id {
            Some(n) => {
                out.append(" AS ");
                let t = n.to_cql();
                out.append(t.as_str());
                proof {
                    assert(out@ =~= spec_render_selector(*self));
                }
                out
            },
            None => {
                proof {
                    assert(out@ =~= spec_render_selector(*self));
                }
                out
            },
        }
    }
}

impl SelectorKind {
    /// Parse a selector kind: CAST, COUNT, a function call, a column, or
    /// a term.
    pub fn parse(s: &mut StatementStream) -> (r: Result<SelectorKind, ParseError>)
        requires
            old(s).wf(),
        ensures
            final(s).wf(),
            final(s).text() == old(s).text(),
            final(s).pos >= old(s).pos,
            r matches Ok(_) ==> final(s).pos > old(s).pos,
        decreases old(s).text().len() - old(s).pos, 1int,
    {
        if s.accept_keyword("CAST") {
            if !s.accept_punct('(') {
                return Err(ParseError::Invalid);
            }
            let sel = Selector::parse(s)?;
            if !s.accept_keyword("AS") {
                return Err(ParseError::Invalid);
            }
            let ty = CqlType::parse(s)?;
            if !s.accept_punct(')') {
                return Err(ParseError::Invalid);
            }
            return Ok(SelectorKind::Cast(Box::new(sel), ty));
        }
        if s.accept_keyword("COUNT") {
            if !s.accept_punct('(') {
                return Err(ParseError::Invalid);
            }
            if !s.accept_punct('*') {
                return Err(ParseError::Invalid);
            }
            if !s.accept_punct(')') {
                return Err(ParseError::Invalid);
            }
            return Ok(SelectorKind::Count);
        }
        let save = s.pos;
        proof {
            assert(save <= s.text().len());
        }
        match Name::parse(s) {
            Ok(n) => {
                if s.check_punct('(') {
                    let _ = s.accept_punct('(');
                    let args = parse_selector_list(s)?;
                    if !s.accept_punct(')') {
                        return Err(ParseError::Invalid);
                    }
                    return Ok(SelectorKind::Function(SelectorFunction { function: n, args }));
                }
                return Ok(SelectorKind::Column(n));
            },
            Err(_) => {
                s.restore(save);
            },
        }
        let t = Term::parse(s)?;
        Ok(SelectorKind::Term(t))
    }

    /// Render the selector kind back to statement text.
    pub fn to_cql(&self) -> (r: String)
        ensures
            r@ == spec_render_selector_kind(*self),
        decreases *self,
    {
        match self {
            SelectorKind::Column(n) => n.to_cql(),
            SelectorKind::Term(t) => t.to_cql(),
            SelectorKind::Cast(sel, ty) => {
                let mut out = String::from_str("CAST(");
                let inner = sel.to_cql();
                out.append(inner.as_str());
                out.append(" AS ");
                let t = ty.to_cql();
                out.append(t.as_str());
                out.append(")");
                proof {
                    assert(out@ =~= spec_render_selector_kind(*self));
                }
                out
            },
            SelectorKind::Function(f) => {
                let mut out = f.function.to_cql();
                out.append("(");
                let inner = render_selector_slice(&f.args);
                out.append(inner.as_str());
                out.append(")");
                proof {
                    assert(out@ =~= spec_render_selector_kind(*self));
                }
                out
            },
            SelectorKind::Count => String::from_str("COUNT(*)"),
        }
    }
}

/// Parse a possibly empty, comma-separated list of selectors, stopping
/// before the closing parenthesis.
fn parse_selector_list(s: &mut StatementStream) -> (r: Result<Vec<Selector>, ParseError>)
    requires
        old(s).wf(),
    ensures
        final(s).wf(),
        final(s).text() == old(s).text(),
        final(s).pos >= old(s).pos,
    decreases old(s).text().len() - old(s).pos, 3int,
{
    let mut args: Vec<Selector> = Vec::new();
    if s.check_punct(')') {
        return Ok(args);
    }
    let first = Selector::parse(s)?;
    args.push(first);
    while s.accept_punct(',')
        invariant
            s.wf(),
            s.text() == old(s).text(),
            s.pos >= old(s).pos,
        decreases s.text().len() - s.pos,
    {
        let sel = Selector::parse(s)?;
        args.push(sel);
    }
    Ok(args)
}

/// Render selectors joined by a comma and a space.
pub fn render_selector_slice(ss: &Vec<Selector>) -> (r: String)
    ensures
        r@ == spec_render_selectors(ss@),
    decreases ss@,
{
    let mut parts: Vec<String> = Vec::new();
    let mut i: usize = 0;
    while i < ss.len()
        invariant
            i <= ss@.len(),
            parts@.len() == i,
            forall|k: int| 0 <= k < i ==> (#[trigger] parts@[k])@ == spec_render_selector(
                ss@[k]),
        decreases ss@.len() - i,
    {
        parts.push(ss[i].to_cql());
        i = i + 1;
    }
    let out = join_rendered(&parts, ", ");
    proof {
        lemma_render_selectors_join(ss@);
        assert(parts@.map_values(|p: String| p@) =~= ss@.map_values(|x: Selector|
            spec_render_selector(x)));
    }
    out
}

/// The SELECT clause: everything, or a list of selectors.
#[derive(Debug)]
pub enum SelectClauseKind {
    All,
    Selectors(Vec<Selector>),
}

impl SelectClauseKind {
    pub open spec fn render(self) -> Seq<char> {
        match self {
            SelectClauseKind::All => "*"@,
            SelectClauseKind::Selectors(ss) => spec_render_selectors(ss@),
        }
    }

    /// Parse `*` or a list of selectors.
    pub fn parse(s: &mut StatementStream) -> (r: Result<SelectClauseKind, ParseError>)
        requires
            old(s).wf(),
        ensures
            final(s).wf(),
            final(s).text() == old(s).text(),
            final(s).pos >= old(s).pos,
    {
        if s.accept_punct('*') {
            return Ok(SelectClauseKind::All);
        }
        let mut selectors: Vec<Selector> = Vec::new();
        let first = Selector::parse(s)?;
        selectors.push(first);
        while s.accept_punct(',')
            invariant
                s.wf(),
                s.text() == old(s).text(),
                s.pos >= old(s).pos,
            decreases s.text().len() - s.pos,
        {
            let sel = Selector::parse(s)?;
            selectors.push(sel);
        }
        Ok(SelectClauseKind::Selectors(selectors))
    }

    pub fn to_cql(&self) -> (r: String)
        ensures
            r@ == self.render(),
    {
        match self {
            SelectClauseKind::All => String::from_str("*"),
            SelectClauseKind::Selectors(ss) => render_selector_slice(ss),
        }
    }
}

impl Parse for SelectClauseKind {
    fn parse(s: &mut StatementStream) -> (r: Result<Self, ParseError>) {
        SelectClauseKind::parse(s)
    }
}

/// A SELECT statement.
#[derive(Debug)]
pub struct SelectStatement {
    pub distinct: bool,
    pub select_clause: SelectClauseKind,
    pub from: FromClause,
    pub where_clause: Option<WhereClause>,
    pub group_by_clause: Option<GroupByClause>,
    pub order_by_clause: Option<OrderingClause>,
    pub per_partition_limit: Option<Limit>,
    pub limit: Option<Limit>,
    pub allow_filtering: bool,
    pub bypass_cache: bool,
    pub timeout: Option<DurationLiteral>,
}

impl SelectStatement {
    pub open spec fn render(self) -> Seq<char> {
        "SELECT "@ + (if self.distinct {
            "DISTINCT "@
        } else {
            Seq::<char>::empty()
        }) + self.select_clause.render() + " "@ + self.from.render() + (match self
            .where_clause {
            Some(w) => " "@ + w.render(),
            None => Seq::<char>::empty(),
        }) + (match self.group_by_clause {
            Some(g) => " "@ + g.render(),
            None => Seq::<char>::empty(),
        }) + (match self.order_by_clause {
            Some(o) => " "@ + o.render(),
            None => Seq::<char>::empty(),
        }) + (match self.per_partition_limit {
            Some(l) => " PER PARTITION LIMIT "@ + l.render(),
            None => Seq::<char>::empty(),
        }) + (match self.limit {
            Some(l) => " LIMIT "@ + l.render(),
            None => Seq::<char>::empty(),
        }) + (if self.allow_filtering {
            " ALLOW FILTERING"@
        } else {
            Seq::<char>::empty()
        }) + (if self.bypass_cache {
            " BYPASS CACHE"@
        } else {
            Seq::<char>::empty()
        }) + (match self.timeout {
            Some(t) => " USING TIMEOUT "@ + t.render(),
            None => Seq::<char>::empty(),
        })
    }

    /// Parse a SELECT statement: the select clause, the FROM clause, and
    /// any further clauses in any order, each at most once.
    pub fn parse(s: &mut StatementStream) -> (r: Result<SelectStatement, ParseError>)
        requires
            old(s).wf(),
        ensures
            final(s).wf(),
            final(s).text() == old(s).text(),
            final(s).pos >= old(s).pos,
    {
        if !s.accept_keyword("SELECT") {
            return Err(ParseError::Invalid);
        }
        let distinct = s.accept_keyword("DISTINCT");
        let select_clause = SelectClauseKind::parse(s)?;
        let from = FromClause::parse(s)?;
        let mut where_clause: Option<WhereClause> = None;
        let mut group_by_clause: Option<GroupByClause> = None;
        let mut order_by_clause: Option<OrderingClause> = None;
        let mut per_partition_limit: Option<Limit> = None;
        let mut limit: Option<Limit> = None;
        let mut allow_filtering = false;
        let mut bypass_cache = false;
        let mut timeout: Option<DurationLiteral> = None;
        let mut going = true;
        while going
            invariant
                s.wf(),
                s.text() == old(s).text(),
                s.pos >= old(s).pos,
            decreases s.text().len() - s.pos + (if going { 1int } else { 0int }),
        {
            let before = s.pos;
            if s.check_keyword("WHERE") {
                if where_clause.is_some() {
                    return Err(ParseError::Invalid);
                }
                let w = WhereClause::parse(s)?;
                where_clause = Some(w);
                proof {
                    assert(s.pos > before);
                }
            } else if s.check_keyword("GROUP") {
                if group_by_clause.is_some() {
                    return Err(ParseError::Invalid);
                }
                let g = GroupByClause::parse(s)?;
                group_by_clause = Some(g);
                proof {
                    assert(s.pos > before);
                }
            } else if s.check_keyword("ORDER") {
                if order_by_clause.is_some() {
                    return Err(ParseError::Invalid);
                }
                let o = OrderingClause::parse(s)?;
                order_by_clause = Some(o);
                proof {
                    assert(s.pos > before);
                }
            } else if s.accept_keyword("PER") {
                if !s.accept_keyword("PARTITION") {
                    return Err(ParseError::Invalid);
                }
                if !s.accept_keyword("LIMIT") {
                    return Err(ParseError::Invalid);
                }
                if per_partition_limit.is_some() {
                    return Err(ParseError::Invalid);
                }
                let l = Limit::parse(s)?;
                per_partition_limit = Some(l);
            } else if s.accept_keyword("LIMIT") {
                if limit.is_some() {
                    return Err(ParseError::Invalid);
                }
                let l = Limit::parse(s)?;
                limit = Some(l);
            } else if s.accept_keyword("ALLOW") {
                if !s.accept_keyword("FILTERING") {
                    return Err(ParseError::Invalid);
                }
                if allow_filtering {
                    return Err(ParseError::Invalid);
                }
                allow_filtering = true;
            } else if s.accept_keyword("BYPASS") {
                if !s.accept_keyword("CACHE") {
                    return Err(ParseError::Invalid);
                }
                if bypass_cache {
                    return Err(ParseError::Invalid);
                }
                bypass_cache = true;
            } else if s.accept_keyword("USING") {
                if !s.accept_keyword("TIMEOUT") {
                    return Err(ParseError::Invalid);
                }
                if timeout.is_some() {
                    return Err(ParseError::Invalid);
                }
                let t = DurationLiteral::parse(s)?;
                timeout = Some(t);
            } else {
                going = false;
            }
        }
        let _ = s.accept_punct(';');
        Ok(SelectStatement {
            distinct,
            select_clause,
            from,
            where_clause,
            group_by_clause,
            order_by_clause,
            per_partition_limit,
            limit,
            allow_filtering,
            bypass_cache,
            timeout,
        })
    }

    /// Render the statement back to statement text.
    pub fn to_cql(&self) -> (r: String)
        ensures
            r@ == self.render(),
    {
        broadcast use vstd::seq::Seq::add_empty_right;

        let mut out = String::from_str("SELECT ");
        if self.distinct {
            out.append("DISTINCT ");
        }
        let sc = self.select_clause.to_cql();
        out.append(sc.as_str());
        out.append(" ");
        let f = self.from.to_cql();
        out.append(f.as_str());
        proof {
            assert(out@ =~= "SELECT "@ + (if self.distinct {
                "DISTINCT "@
            } else {
                Seq::<char>::empty()
            }) + self.select_clause.render() + " "@ + self.from.render());
        }
        match &self.where_clause {
            Some(w) => {
                let mut seg = String::from_str(" ");
                let t = w.to_cql();
                seg.append(t.as_str());
                out.append(seg.as_str());
            },
            None => {},
        }
        match &self.group_by_clause {
            Some(g) => {
                let mut seg = String::from_str(" ");
                let t = g.to_cql();
                seg.append(t.as_str());
                out.append(seg.as_str());
            },
            None => {},
        }
        match &self.order_by_clause {
            Some(o) => {
                let mut seg = String::from_str(" ");
                let t = o.to_cql();
                seg.append(t.as_str());
                out.append(seg.as_str());
            },
            None => {},
        }
        match &self.per_partition_limit {
            Some(l) => {
                let mut seg = String::from_str(" PER PARTITION LIMIT ");
                let t = l.to_cql();
                seg.append(t.as_str());
                out.append(seg.as_str());
            },
            None => {},
        }
        match &self.limit {
            Some(l) => {
                let mut seg = String::from_str(" LIMIT ");
                let t = l.to_cql();
                seg.append(t.as_str());
                out.append(seg.as_str());
            },
            None => {},
        }
        if self.allow_filtering {
            out.append(" ALLOW FILTERING");
        }
        if self.bypass_cache {
            out.append(" BYPASS CACHE");
        }
        match &self.timeout {
            Some(t) => {
                let mut seg = String::from_str(" USING TIMEOUT ");
                let d = t.to_cql();
                seg.append(d.as_str());
                out.append(seg.as_str());
            },
            None => {},
        }
        out
    }
}

impl Parse for SelectStatement {
    fn parse(s: &mut StatementStream) -> (r: Result<Self, ParseError>) {
        SelectStatement::parse(s)
    }
}

impl Peek for SelectStatement {
    fn peek(s: &StatementStream) -> (r: bool) {
        s.check_keyword("SELECT")
    }
}

/// A parameter of a USING clause.
#[derive(Debug)]
pub enum UpdateParameter {
    Ttl(Limit),
    Timestamp(Limit),
    Timeout(DurationLiteral),
}

impl UpdateParameter {
    pub open spec fn render(self) -> Seq<char> {
        match self {
            UpdateParameter::Ttl(l) => "TTL "@ + l.render(),
            UpdateParameter::Timestamp(l) => "TIMESTAMP "@ + l.render(),
            UpdateParameter::Timeout(d) => "TIMEOUT "@ + d.render(),
        }
    }

    /// Parse `TTL limit`, `TIMESTAMP limit` or `TIMEOUT duration`.
    pub fn parse(s: &mut StatementStream) -> (r: Result<UpdateParameter, ParseError>)
        requires
            old(s).wf(),
        ensures
            final(s).wf(),
            final(s).text() == old(s).text(),
            final(s).pos >= old(s).pos,
            r matches Ok(_) ==> final(s).pos > old(s).pos,
    {
        if s.accept_keyword("TTL") {
            let l = Limit::parse(s)?;
            Ok(UpdateParameter::Ttl(l))
        } else if s.accept_keyword("TIMESTAMP") {
            let l = Limit::parse(s)?;
            Ok(UpdateParameter::Timestamp(l))
        } else if s.accept_keyword("TIMEOUT") {
            let d = DurationLiteral::parse(s)?;
            Ok(UpdateParameter::Timeout(d))
        } else {
            Err(ParseError::Invalid)
        }
    }

    pub fn to_cql(&self) -> (r: String)
        ensures
            r@ == self.render(),
    {
        match self {
            UpdateParameter::Ttl(l) => {
                let mut out = String::from_str("TTL ");
                let t = l.to_cql();
                out.append(t.as_str());
                out
            },
            UpdateParameter::Timestamp(l) => {
                let mut out = String::from_str("TIMESTAMP ");
                let t = l.to_cql();
                out.append(t.as_str());
                out
            },
            UpdateParameter::Timeout(d) => {
                let mut out = String::from_str("TIMEOUT ");
                let t = d.to_cql();
                out.append(t.as_str());
                out
            },
        }
    }
}

impl Parse for UpdateParameter {
    fn parse(s: &mut StatementStream) -> (r: Result<Self, ParseError>) {
        UpdateParameter::parse(s)
    }
}

impl Peek for UpdateParameter {
    fn peek(s: &StatementStream) -> (r: bool) {
        s.check_keyword("TTL") || s.check_keyword("TIMESTAMP") || s.check_keyword("TIMEOUT")
    }
}

/// The rendered USING parameters joined by a separator.
pub open spec fn spec_render_params(ps: Seq<UpdateParameter>, sep: Seq<char>) -> Seq<char> {
    spec_join(ps.map_values(|p: UpdateParameter| p.render()), sep)
}

/// Render USING parameters joined by `sep`.
pub fn render_params(ps: &Vec<UpdateParameter>, sep: &str) -> (r: String)
    ensures
        r@ == spec_render_params(ps@, sep@),
{
    let mut parts: Vec<String> = Vec::new();
    let mut i: usize = 0;
    while i < ps.len()
        invariant
            i <= ps@.len(),
            parts@.len() == i,
            forall|k: int| 0 <= k < i ==> (#[trigger] parts@[k])@ == ps@[k].render(),
        decreases ps@.len() - i,
    {
        parts.push(ps[i].to_cql());
        i = i + 1;
    }
    let out = join_rendered(&parts, sep);
    proof {
        assert(parts@.map_values(|p: String| p@) =~= ps@.map_values(|p: UpdateParameter|
            p.render()));
    }
    out
}

/// Parse a nonempty AND-separated list of USING parameters.
pub fn parse_param_list(s: &mut StatementStream) -> (r: Result<
    Vec<UpdateParameter>,
    ParseError,
>)
    requires
        old(s).wf(),
    ensures
        final(s).wf(),
        final(s).text() == old(s).text(),
        final(s).pos >= old(s).pos,
{
    let mut params: Vec<UpdateParameter> = Vec::new();
    let first = UpdateParameter::parse(s)?;
    params.push(first);
    while s.accept_keyword("AND")
        invariant
            s.wf(),
            s.text() == old(s).text(),
            s.pos >= old(s).pos,
        decreases s.text().len() - s.pos,
    {
        let p = UpdateParameter::parse(s)?;
        params.push(p);
    }
    Ok(params)
}

/// What an INSERT supplies: column names with a tuple of values, or a
/// JSON payload with an optional default.
#[derive(Debug)]
pub enum InsertKind {
    NameValue { names: Vec<Name>, values: TupleLiteral },
    Json { json: String, default: Option<ColumnDefault> },
}

impl InsertKind {
    pub open spec fn render(self) -> Seq<char> {
        match self {
            InsertKind::NameValue { names, values } => "("@ + spec_join(names@.map_values(
                |n: Name| n.render()), ", "@) + ") VALUES "@ + spec_render_term(Term::Tuple(
                values)),
            InsertKind::Json { json, default } => "JSON '"@ + json@ + "'"@ + (match default {
                Some(d) => " DEFAULT "@ + d.render(),
                None => Seq::<char>::empty(),
            }),
        }
    }

    /// Parse the insert kind.
    pub fn parse(s: &mut StatementStream) -> (r: Result<InsertKind, ParseError>)
        requires
            old(s).wf(),
        ensures
            final(s).wf(),
            final(s).text() == old(s).text(),
            final(s).pos >= old(s).pos,
    {
        if s.accept_keyword("JSON") {
            let lit = crate::tokens::LitStr::parse(s)?;
            let mut default: Option<ColumnDefault> = None;
            if s.accept_keyword("DEFAULT") {
                let d = ColumnDefault::parse(s)?;
                default = Some(d);
            }
            return Ok(InsertKind::Json { json: lit.value, default });
        }
        if !s.accept_punct('(') {
            return Err(ParseError::Invalid);
        }
        let names = parse_name_list(s)?;
        if !s.accept_punct(')') {
            return Err(ParseError::Invalid);
        }
        if !s.accept_keyword("VALUES") {
            return Err(ParseError::Invalid);
        }
        let t = Term::parse(s)?;
        match t {
            Term::Tuple(values) => Ok(InsertKind::NameValue { names, values }),
            _ => Err(ParseError::Invalid),
        }
    }

    pub fn to_cql(&self) -> (r: String)
        ensures
            r@ == self.render(),
    {
        match self {
            InsertKind::NameValue { names, values } => {
                let mut out = String::from_str("(");
                let ns = render_names(names, ", ");
                out.append(ns.as_str());
                out.append(") VALUES ");
                let mut seg = String::from_str("(");
                let inner = crate::terms::render_term_slice(&values.elements);
                seg.append(inner.as_str());
                seg.append(")");
                out.append(seg.as_str());
                proof {
                    assert(out@ =~= self.render());
                }
                out
            },
            InsertKind::Json { json, default } => {
                let mut out = String::from_str("JSON '");
                out.append(json.as_str());
                out.append("'");
                match default {
                    Some(d) => {
                        let mut seg = String::from_str(" DEFAULT ");
                        let t = d.to_cql();
                        seg.append(t.as_str());
                        out.append(seg.as_str());
                    },
                    None => {},
                }
                proof {
                    broadcast use vstd::seq::Seq::add_empty_right;

                    assert(out@ =~= self.render());
                }
                out
            },
        }
    }
}

/// An INSERT statement.
#[derive(Debug)]
pub struct InsertStatement {
    pub table: KeyspaceQualifiedName,
    pub kind: InsertKind,
    pub if_not_exists: bool,
    pub using: Option<Vec<UpdateParameter>>,
}

impl InsertStatement {
    pub open spec fn render(self) -> Seq<char> {
        "INSERT INTO "@ + self.table.render() + " "@ + self.kind.render() + (if self
            .if_not_exists {
            " IF NOT EXISTS"@
        } else {
            Seq::<char>::empty()
        }) + (match self.using {
            Some(ps) => " USING "@ + spec_render_params(ps@, " AND "@),
            None => Seq::<char>::empty(),
        })
    }

    /// Parse an INSERT statement.
    pub fn parse(s: &mut StatementStream) -> (r: Result<InsertStatement, ParseError>)
        requires
            old(s).wf(),
        ensures
            final(s).wf(),
            final(s).text() == old(s).text(),
            final(s).pos >= old(s).pos,
    {
        if !s.accept_keyword("INSERT") {
            return Err(ParseError::Invalid);
        }
        if !s.accept_keyword("INTO") {
            return Err(ParseError::Invalid);
        }
        let table = KeyspaceQualifiedName::parse(s)?;
        let kind = InsertKind::parse(s)?;
        let mut if_not_exists = false;
        let mut using: Option<Vec<UpdateParameter>> = None;
        let mut going = true;
        while going
            invariant
                s.wf(),
                s.text() == old(s).text(),
                s.pos >= old(s).pos,
            decreases s.text().len() - s.pos + (if going { 1int } else { 0int }),
        {
            if s.accept_keyword("IF") {
                if !s.accept_keyword("NOT") {
                    return Err(ParseError::Invalid);
                }
                if !s.accept_keyword("EXISTS") {
                    return Err(ParseError::Invalid);
                }
                if if_not_exists {
                    return Err(ParseError::Invalid);
                }
                if_not_exists = true;
            } else if s.accept_keyword("USING") {
                if using.is_some() {
                    return Err(ParseError::Invalid);
                }
                let ps = parse_param_list(s)?;
                using = Some(ps);
            } else {
                going = false;
            }
        }
        let _ = s.accept_punct(';');
        Ok(InsertStatement { table, kind, if_not_exists, using })
    }

    /// Render the statement back to statement text.
    pub fn to_cql(&self) -> (r: String)
        ensures
            r@ == self.render(),
    {
        broadcast use vstd::seq::Seq::add_empty_right;

        let mut out = String::from_str("INSERT INTO ");
        let t = self.table.to_cql();
        out.append(t.as_str());
        out.append(" ");
        let k = self.kind.to_cql();
        out.append(k.as_str());
        proof {
            assert(out@ =~= "INSERT INTO "@ + self.table.render() + " "@
                + self.kind.render());
        }
        if self.if_not_exists {
            out.append(" IF NOT EXISTS");
        }
        match &self.using {
            Some(ps) => {
                let mut seg = String::from_str(" USING ");
                let rendered = render_params(ps, " AND ");
                seg.append(rendered.as_str());
                out.append(seg.as_str());
            },
            None => {},
        }
        out
    }
}

impl Parse for InsertStatement {
    fn parse(s: &mut StatementStream) -> (r: Result<Self, ParseError>) {
        InsertStatement::parse(s)
    }
}

impl Peek for InsertStatement {
    fn peek(s: &StatementStream) -> (r: bool) {
        s.check_keyword("INSERT")
    }
}

/// What an UPDATE assignment writes to: a column, an indexed element of a
/// column, or a field of a column.
#[derive(Debug)]
pub enum SimpleSelection {
    Column(Name),
    Element(Name, Term),
    Field(Name, Name),
}

impl SimpleSelection {
    pub open spec fn render(self) -> Seq<char> {
        match self {
            SimpleSelection::Column(n) => n.render(),
            SimpleSelection::Element(n, t) => n.render() + "["@ + spec_render_term(t)
                + "]"@,
            SimpleSelection::Field(n, f) => n.render() + "."@ + f.render(),
        }
    }

    /// Parse a simple selection.
    pub fn parse(s: &mut StatementStream) -> (r: Result<SimpleSelection, ParseError>)
        requires
            old(s).wf(),
        ensures
            final(s).wf(),
            final(s).text() == old(s).text(),
            final(s).pos >= old(s).pos,
            r matches Ok(_) ==> final(s).pos > old(s).pos,
    {
        let n = Name::parse(s)?;
        if s.accept_punct('.') {
            let f = Name::parse(s)?;
            return Ok(SimpleSelection::Field(n, f));
        }
        if s.accept_punct('[') {
            let t = Term::parse(s)?;
            if !s.accept_punct(']') {
                return Err(ParseError::Invalid);
            }
            return Ok(SimpleSelection::Element(n, t));
        }
        Ok(SimpleSelection::Column(n))
    }

    pub fn to_cql(&self) -> (r: String)
        ensures
            r@ == self.render(),
    {
        match self {
            SimpleSelection::Column(n) => n.to_cql(),
            SimpleSelection::Element(n, t) => {
                let mut out = n.to_cql();
                out.append("[");
                let inner = t.to_cql();
                out.append(inner.as_str());
                out.append("]");
                proof {
                    assert(out@ =~= self.render());
                }
                out
            },
            SimpleSelection::Field(n, f) => {
                let mut out = n.to_cql();
                out.append(".");
                let inner = f.to_cql();
                out.append(inner.as_str());
                proof {
                    assert(out@ =~= self.render());
                }
                out
            },
        }
    }
}

impl Parse for SimpleSelection {
    fn parse(s: &mut StatementStream) -> (r: Result<Self, ParseError>) {
        SimpleSelection::parse(s)
    }
}

impl Peek for SimpleSelection {
    fn peek(s: &StatementStream) -> (r: bool) {
        let mut probe = s.duplicate();
        match SimpleSelection::parse(&mut probe) {
            Ok(_) => true,
            Err(_) => false,
        }
    }
}

/// One SET assignment of an UPDATE statement.
#[derive(Debug)]
pub enum Assignment {
    Simple { selection: SimpleSelection, term: Term },
    Arithmetic { assignee: Name, lhs: Name, op: crate::tokens::ArithmeticOp, rhs: Term },
    Append { assignee: Name, list: ListLiteral, item: Name },
}

impl Assignment {
    pub open spec fn render(self) -> Seq<char> {
        match self {
            Assignment::Simple { selection, term } => selection.render() + " = "@
                + spec_render_term(term),
            Assignment::Arithmetic { assignee, lhs, op, rhs } => assignee.render() + " = "@
                + lhs.render() + " "@ + op.render() + " "@ + spec_render_term(rhs),
            Assignment::Append { assignee, list, item } => assignee.render() + " = "@
                + spec_render_term(Term::List(list)) + " + "@ + item.render(),
        }
    }

    /// Parse one assignment: an appended list, an arithmetic update, or a
    /// plain `selection = term`.
    pub fn parse(s: &mut StatementStream) -> (r: Result<Assignment, ParseError>)
        requires
            old(s).wf(),
        ensures
            final(s).wf(),
            final(s).text() == old(s).text(),
            final(s).pos >= old(s).pos,
            r matches Ok(_) ==> final(s).pos > old(s).pos,
    {
        let save = s.pos;
        proof {
            assert(save <= s.text().len());
        }
        match Name::parse(s) {
            Ok(assignee) => {
                if s.accept_punct('=') {
                    let after_eq = s.pos;
                    proof {
                        assert(after_eq <= s.text().len());
                    }
                    if s.check_punct('[') {
                        match Term::parse(s) {
                            Ok(Term::List(list)) => {
                                if s.accept_punct('+') {
                                    let item = Name::parse(s)?;
                                    return Ok(Assignment::Append { assignee, list, item });
                                }
                                s.restore(after_eq);
                            },
                            _ => {
                                s.restore(after_eq);
                            },
                        }
                    }
                    match Name::parse(s) {
                        Ok(lhs) => {
                            match crate::tokens::ArithmeticOp::parse(s) {
                                Ok(op) => {
                                    let rhs = Term::parse(s)?;
                                    return Ok(Assignment::Arithmetic {
                                        assignee,
                                        lhs,
                                        op,
                                        rhs,
                                    });
                                },
                                Err(_) => {
                                    s.restore(after_eq);
                                },
                            }
                        },
                        Err(_) => {
                            s.restore(after_eq);
                        },
                    }
                    let term = Term::parse(s)?;
                    return Ok(Assignment::Simple {
                        selection: SimpleSelection::Column(assignee),
                        term,
                    });
                }
                s.restore(save);
            },
            Err(_) => {
                s.restore(save);
            },
        }
        let selection = SimpleSelection::parse(s)?;
        if !s.accept_punct('=') {
            return Err(ParseError::Invalid);
        }
        let term = Term::parse(s)?;
        Ok(Assignment::Simple { selection, term })
    }

    pub fn to_cql(&self) -> (r: String)
        ensures
            r@ == self.render(),
    {
        match self {
            Assignment::Simple { selection, term } => {
                let mut out = selection.to_cql();
                out.append(" = ");
                let t = term.to_cql();
                out.append(t.as_str());
                proof {
                    assert(out@ =~= self.render());
                }
                out
            },
            Assignment::Arithmetic { assignee, lhs, op, rhs } => {
                let mut out = assignee.to_cql();
                out.append(" = ");
                let l = lhs.to_cql();
                out.append(l.as_str());
                out.append(" ");
                let o = op.to_cql();
                out.append(o.as_str());
                out.append(" ");
                let t = rhs.to_cql();
                out.append(t.as_str());
                proof {
                    assert(out@ =~= self.render());
                }
                out
            },
            Assignment::Append { assignee, list, item } => {
                let mut out = assignee.to_cql();
                out.append(" = ");
                let mut seg = String::from_str("[");
                let inner = crate::terms::render_term_slice(&list.elements);
                seg.append(inner.as_str());
                seg.append("]");
                out.append(seg.as_str());
                out.append(" + ");
                let it = item.to_cql();
                out.append(it.as_str());
                proof {
                    assert(out@ =~= self.render());
                }
                out
            },
        }
    }
}

impl Parse for Assignment {
    fn parse(s: &mut StatementStream) -> (r: Result<Self, ParseError>) {
        Assignment::parse(s)
    }
}

impl Peek for Assignment {
    fn peek(s: &StatementStream) -> (r: bool) {
        let mut probe = s.duplicate();
        match Assignment::parse(&mut probe) {
            Ok(_) => true,
            Err(_) => false,
        }
    }
}

/// One condition of an IF clause.
#[derive(Debug)]
pub struct Condition {
    pub lhs: SimpleSelection,
    pub op: Operator,
    pub rhs: Term,
}

impl Condition {
    pub open spec fn render(self) -> Seq<char> {
        self.lhs.render() + " "@ + self.op.render() + " "@ + spec_render_term(self.rhs)
    }

    /// Parse `selection operator term`.
    pub fn parse(s: &mut StatementStream) -> (r: Result<Condition, ParseError>)
        requires
            old(s).wf(),
        ensures
            final(s).wf(),
            final(s).text() == old(s).text(),
            final(s).pos >= old(s).pos,
            r matches Ok(_) ==> final(s).pos > old(s).pos,
    {
        let lhs = SimpleSelection::parse(s)?;
        let op = Operator::parse(s)?;
        let rhs = Term::parse(s)?;
        Ok(Condition { lhs, op, rhs })
    }

    pub fn to_cql(&self) -> (r: String)
        ensures
            r@ == self.render(),
    {
        let mut out = self.lhs.to_cql();
        out.append(" ");
        let o = self.op.to_cql();
        out.append(o.as_str());
        out.append(" ");
        let t = self.rhs.to_cql();
        out.append(t.as_str());
        proof {
            assert(out@ =~= self.render());
        }
        out
    }
}

impl Parse for Condition {
    fn parse(s: &mut StatementStream) -> (r: Result<Self, ParseError>) {
        Condition::parse(s)
    }
}

/// The IF clause of a conditional update or delete.
#[derive(Debug)]
pub enum IfClause {
    Exists,
    Conditions(Vec<Condition>),
}

impl IfClause {
    pub open spec fn render(self) -> Seq<char> {
        match self {
            IfClause::Exists => "IF EXISTS"@,
            IfClause::Conditions(cs) => "IF "@ + spec_join(cs@.map_values(|c: Condition|
                c.render()), " AND "@),
        }
    }

    /// Parse `IF EXISTS` or `IF condition (AND condition)*`.
    pub fn parse(s: &mut StatementStream) -> (r: Result<IfClause, ParseError>)
        requires
            old(s).wf(),
        ensures
            final(s).wf(),
            final(s).text() == old(s).text(),
            final(s).pos >= old(s).pos,
            r matches Ok(_) ==> final(s).pos > old(s).pos,
    {
        if !s.accept_keyword("IF") {
            return Err(ParseError::Invalid);
        }
        if s.accept_keyword("EXISTS") {
            return Ok(IfClause::Exists);
        }
        let mut conditions: Vec<Condition> = Vec::new();
        let first = Condition::parse(s)?;
        conditions.push(first);
        while s.accept_keyword("AND")
            invariant
                s.wf(),
                s.text() == old(s).text(),
                s.pos > old(s).pos,
            decreases s.text().len() - s.pos,
        {
            let c = Condition::parse(s)?;
            conditions.push(c);
        }
        Ok(IfClause::Conditions(conditions))
    }

    pub fn to_cql(&self) -> (r: String)
        ensures
            r@ == self.render(),
    {
        match self {
            IfClause::Exists => String::from_str("IF EXISTS"),
            IfClause::Conditions(cs) => {
                let mut parts: Vec<String> = Vec::new();
                let mut i: usize = 0;
                while i < cs.len()
                    invariant
                        i <= cs@.len(),
                        parts@.len() == i,
                        forall|k: int| 0 <= k < i ==> (#[trigger] parts@[k])@ == cs@[
                            k].render(),
                    decreases cs@.len() - i,
                {
                    parts.push(cs[i].to_cql());
                    i = i + 1;
                }
                let inner = join_rendered(&parts, " AND ");
                let mut out = String::from_str("IF ");
                out.append(inner.as_str());
                proof {
                    assert(parts@.map_values(|p: String| p@) =~= cs@.map_values(|c:
                        Condition| c.render()));
                }
                out
            },
        }
    }
}

impl Parse for IfClause {
    fn parse(s: &mut StatementStream) -> (r: Result<Self, ParseError>) {
        IfClause::parse(s)
    }
}

impl Peek for IfClause {
    fn peek(s: &StatementStream) -> (r: bool) {
        s.check_keyword("IF")
    }
}

/// An UPDATE statement.
#[derive(Debug)]
pub struct UpdateStatement {
    pub table: KeyspaceQualifiedName,
    pub using: Option<Vec<UpdateParameter>>,
    pub set_clause: Vec<Assignment>,
    pub where_clause: WhereClause,
    pub if_clause: Option<IfClause>,
}

/// The rendered SET assignments joined by a comma and a space.
pub open spec fn spec_render_assignments(asgs: Seq<Assignment>) -> Seq<char> {
    spec_join(asgs.map_values(|a: Assignment| a.render()), ", "@)
}

/// Render assignments joined by a comma and a space.
pub fn render_assignments(asgs: &Vec<Assignment>) -> (r: String)
    ensures
        r@ == spec_render_assignments(asgs@),
{
    let mut parts: Vec<String> = Vec::new();
    let mut i: usize = 0;
    while i < asgs.len()
        invariant
            i <= asgs@.len(),
            parts@.len() == i,
            forall|k: int| 0 <= k < i ==> (#[trigger] parts@[k])@ == asgs@[k].render(),
        decreases asgs@.len() - i,
    {
        parts.push(asgs[i].to_cql());
        i = i + 1;
    }
    let out = join_rendered(&parts, ", ");
    proof {
        assert(parts@.map_values(|p: String| p@) =~= asgs@.map_values(|a: Assignment|
            a.render()));
    }
    out
}

impl UpdateStatement {
    pub open spec fn render(self) -> Seq<char> {
        "UPDATE "@ + self.table.render() + (match self.using {
            Some(ps) => " USING "@ + spec_render_params(ps@, " AND "@),
            None => Seq::<char>::empty(),
        }) + " SET "@ + spec_render_assignments(self.set_clause@) + " "@
            + self.where_clause.render() + (match self.if_clause {
            Some(ic) => " "@ + ic.render(),
            None => Seq::<char>::empty(),
        })
    }

    /// Parse an UPDATE statement.
    pub fn parse(s: &mut StatementStream) -> (r: Result<UpdateStatement, ParseError>)
        requires
            old(s).wf(),
        ensures
            final(s).wf(),
            final(s).text() == old(s).text(),
            final(s).pos >= old(s).pos,
    {
        if !s.accept_keyword("UPDATE") {
            return Err(ParseError::Invalid);
        }
        let table = KeyspaceQualifiedName::parse(s)?;
        let mut using: Option<Vec<UpdateParameter>> = None;
        if s.accept_keyword("USING") {
            let ps = parse_param_list(s)?;
            using = Some(ps);
        }
        if !s.accept_keyword("SET") {
            return Err(ParseError::Invalid);
        }
        let mut set_clause: Vec<Assignment> = Vec::new();
        let first = Assignment::parse(s)?;
        set_clause.push(first);
        while s.accept_punct(',')
            invariant
                s.wf(),
                s.text() == old(s).text(),
                s.pos >= old(s).pos,
            decreases s.text().len() - s.pos,
        {
            let a = Assignment::parse(s)?;
            set_clause.push(a);
        }
        let where_clause = WhereClause::parse(s)?;
        let mut if_clause: Option<IfClause> = None;
        if s.check_keyword("IF") {
            let ic = IfClause::parse(s)?;
            if_clause = Some(ic);
        }
        let _ = s.accept_punct(';');
        Ok(UpdateStatement { table, using, set_clause, where_clause, if_clause })
    }

    /// Render the statement back to statement text.
    pub fn to_cql(&self) -> (r: String)
        ensures
            r@ == self.render(),
    {
        broadcast use vstd::seq::Seq::add_empty_right;

        let mut out = String::from_str("UPDATE ");
        let t = self.table.to_cql();
        out.append(t.as_str());
        match &self.using {
            Some(ps) => {
                let mut seg = String::from_str(" USING ");
                let rendered = render_params(ps, " AND ");
                seg.append(rendered.as_str());
                out.append(seg.as_str());
            },
            None => {},
        }
        let mut seg = String::from_str(" SET ");
        let asgs = render_assignments(&self.set_clause);
        seg.append(asgs.as_str());
        out.append(seg.as_str());
        proof {
            assert(seg@ =~= " SET "@ + spec_render_assignments(self.set_clause@));
            assert(out@ =~= "UPDATE "@ + self.table.render() + (match self.using {
                Some(ps) => " USING "@ + spec_render_params(ps@, " AND "@),
                None => Seq::<char>::empty(),
            }) + (" SET "@ + spec_render_assignments(self.set_clause@)));
        }
        out.append(" ");
        let w = self.where_clause.to_cql();
        out.append(w.as_str());
        match &self.if_clause {
            Some(ic) => {
                let mut seg2 = String::from_str(" ");
                let rendered = ic.to_cql();
                seg2.append(rendered.as_str());
                out.append(seg2.as_str());
            },
            None => {},
        }
        proof {
            assert(out@ =~= self.render());
        }
        out
    }
}

impl Parse for UpdateStatement {
    fn parse(s: &mut StatementStream) -> (r: Result<Self, ParseError>) {
        UpdateStatement::parse(s)
    }
}

impl Peek for UpdateStatement {
    fn peek(s: &StatementStream) -> (r: bool) {
        s.check_keyword("UPDATE")
    }
}

/// A DELETE statement.
#[derive(Debug)]
pub struct DeleteStatement {
    pub selections: Option<Vec<SimpleSelection>>,
    pub from: FromClause,
    pub using: Option<Vec<UpdateParameter>>,
    pub where_clause: WhereClause,
    pub if_clause: Option<IfClause>,
}

impl DeleteStatement {
    pub open spec fn render(self) -> Seq<char> {
        "DELETE"@ + (match self.selections {
            Some(sels) => " "@ + spec_join(sels@.map_values(|x: SimpleSelection|
                x.render()), ", "@),
            None => Seq::<char>::empty(),
        }) + " "@ + self.from.render() + (match self.using {
            Some(ps) => " USING "@ + spec_render_params(ps@, ", "@),
            None => Seq::<char>::empty(),
        }) + " "@ + self.where_clause.render() + (match self.if_clause {
            Some(ic) => " "@ + ic.render(),
            None => Seq::<char>::empty(),
        })
    }

    /// Parse a DELETE statement.
    pub fn parse(s: &mut StatementStream) -> (r: Result<DeleteStatement, ParseError>)
        requires
            old(s).wf(),
        ensures
            final(s).wf(),
            final(s).text() == old(s).text(),
            final(s).pos >= old(s).pos,
    {
        if !s.accept_keyword("DELETE") {
            return Err(ParseError::Invalid);
        }
        let mut selections: Option<Vec<SimpleSelection>> = None;
        if !s.check_keyword("FROM") {
            let mut sels: Vec<SimpleSelection> = Vec::new();
            let first = SimpleSelection::parse(s)?;
            sels.push(first);
            while s.accept_punct(',')
                invariant
                    s.wf(),
                    s.text() == old(s).text(),
                    s.pos >= old(s).pos,
                decreases s.text().len() - s.pos,
            {
                let x = SimpleSelection::parse(s)?;
                sels.push(x);
            }
            selections = Some(sels);
        }
        let from = FromClause::parse(s)?;
        let mut using: Option<Vec<UpdateParameter>> = None;
        if s.accept_keyword("USING") {
            let ps = parse_param_list(s)?;
            using = Some(ps);
        }
        let where_clause = WhereClause::parse(s)?;
        let mut if_clause: Option<IfClause> = None;
        if s.check_keyword("IF") {
            let ic = IfClause::parse(s)?;
            if_clause = Some(ic);
        }
        let _ = s.accept_punct(';');
        Ok(DeleteStatement { selections, from, using, where_clause, if_clause })
    }

    /// Render the statement back to statement text.
    pub fn to_cql(&self) -> (r: String)
        ensures
            r@ == self.render(),
    {
        broadcast use vstd::seq::Seq::add_empty_right;

        let mut out = String::from_str("DELETE");
        match &self.selections {
            Some(sels) => {
                let mut parts: Vec<String> = Vec::new();
                let mut i: usize = 0;
                while i < sels.len()
                    invariant
                        i <= sels@.len(),
                        parts@.len() == i,
                        forall|k: int| 0 <= k < i ==> (#[trigger] parts@[k])@ == sels@[
                            k].render(),
                    decreases sels@.len() - i,
                {
                    parts.push(sels[i].to_cql());
                    i = i + 1;
                }
                let inner = join_rendered(&parts, ", ");
                let mut seg = String::from_str(" ");
                seg.append(inner.as_str());
                out.append(seg.as_str());
                proof {
                    assert(parts@.map_values(|p: String| p@) =~= sels@.map_values(|x:
                        SimpleSelection| x.render()));
                }
            },
            None => {},
        }
        out.append(" ");
        let f = self.from.to_cql();
        out.append(f.as_str());
        match &self.using {
            Some(ps) => {
                let mut seg = String::from_str(" USING ");
                let rendered = render_params(ps, ", ");
                seg.append(rendered.as_str());
                out.append(seg.as_str());
            },
            None => {},
        }
        out.append(" ");
        let w = self.where_clause.to_cql();
        out.append(w.as_str());
        match &self.if_clause {
            Some(ic) => {
                let mut seg = String::from_str(" ");
                let rendered = ic.to_cql();
                seg.append(rendered.as_str());
                out.append(seg.as_str());
            },
            None => {},
        }
        proof {
            assert(out@ =~= self.render());
        }
        out
    }
}

impl Parse for DeleteStatement {
    fn parse(s: &mut StatementStream) -> (r: Result<Self, ParseError>) {
        DeleteStatement::parse(s)
    }
}

impl Peek for DeleteStatement {
    fn peek(s: &StatementStream) -> (r: bool) {
        s.check_keyword("DELETE")
    }
}

/// The kind of a batch.
#[derive(Copy, Clone, Debug, PartialEq, Eq, Structural)]
pub enum BatchKind {
    Logged,
    Unlogged,
    Counter,
}

impl BatchKind {
    /// Parse the optional batch kind between BEGIN and BATCH.
    pub fn parse(s: &mut StatementStream) -> (r: Result<BatchKind, ParseError>)
        requires
            old(s).wf(),
        ensures
            final(s).wf(),
            final(s).text() == old(s).text(),
            final(s).pos >= old(s).pos,
    {
        if s.accept_keyword("UNLOGGED") {
            Ok(BatchKind::Unlogged)
        } else if s.accept_keyword("COUNTER") {
            Ok(BatchKind::Counter)
        } else {
            Ok(BatchKind::Logged)
        }
    }
}

impl Parse for BatchKind {
    fn parse(s: &mut StatementStream) -> (r: Result<Self, ParseError>) {
        BatchKind::parse(s)
    }
}

/// A statement that modifies data, as allowed inside a batch.
#[derive(Debug)]
pub enum ModificationStatement {
    Insert(InsertStatement),
    Update(UpdateStatement),
    Delete(DeleteStatement),
}

impl ModificationStatement {
    pub open spec fn render(self) -> Seq<char> {
        match self {
            ModificationStatement::Insert(st) => st.render(),
            ModificationStatement::Update(st) => st.render(),
            ModificationStatement::Delete(st) => st.render(),
        }
    }

    /// Parse an INSERT, UPDATE or DELETE statement.
    pub fn parse(s: &mut StatementStream) -> (r: Result<ModificationStatement, ParseError>)
        requires
            old(s).wf(),
        ensures
            final(s).wf(),
            final(s).text() == old(s).text(),
            final(s).pos >= old(s).pos,
    {
        if s.check_keyword("INSERT") {
            let st = InsertStatement::parse(s)?;
            Ok(ModificationStatement::Insert(st))
        } else if s.check_keyword("UPDATE") {
            let st = UpdateStatement::parse(s)?;
            Ok(ModificationStatement::Update(st))
        } else if s.check_keyword("DELETE") {
            let st = DeleteStatement::parse(s)?;
            Ok(ModificationStatement::Delete(st))
        } else {
            Err(ParseError::Invalid)
        }
    }

    pub fn to_cql(&self) -> (r: String)
        ensures
            r@ == self.render(),
    {
        match self {
            ModificationStatement::Insert(st) => st.to_cql(),
            ModificationStatement::Update(st) => st.to_cql(),
            ModificationStatement::Delete(st) => st.to_cql(),
        }
    }
}

impl Parse for ModificationStatement {
    fn parse(s: &mut StatementStream) -> (r: Result<Self, ParseError>) {
        ModificationStatement::parse(s)
    }
}

impl Peek for ModificationStatement {
    fn peek(s: &StatementStream) -> (r: bool) {
        s.check_keyword("INSERT") || s.check_keyword("UPDATE") || s.check_keyword("DELETE")
    }
}

/// A BATCH statement: a kind, optional USING parameters, and the batched
/// modification statements.
#[derive(Debug)]
pub struct BatchStatement {
    pub kind: BatchKind,
    pub using: Option<Vec<UpdateParameter>>,
    pub statements: Vec<ModificationStatement>,
}

/// The rendered batched statements joined by a semicolon and a space.
pub open spec fn spec_render_statements(sts: Seq<ModificationStatement>) -> Seq<char> {
    spec_join(sts.map_values(|m: ModificationStatement| m.render()), "; "@)
}

impl BatchStatement {
    pub open spec fn render(self) -> Seq<char> {
        "BEGIN"@ + (match self.kind {
            BatchKind::Logged => Seq::<char>::empty(),
            BatchKind::Unlogged => " UNLOGGED"@,
            BatchKind::Counter => " COUNTER"@,
        }) + " BATCH"@ + (match self.using {
            Some(ps) => " USING "@ + spec_render_params(ps@, ", "@),
            None => Seq::<char>::empty(),
        }) + " "@ + spec_render_statements(self.statements@) + " APPLY BATCH"@
    }

    /// Append one more statement, parsed from text, to the batch: on
    /// success exactly one statement is appended and the earlier ones
    /// are untouched; on a parse failure nothing changes.
    pub fn add_statement(&mut self, statement: &str) -> (r: Result<(), ParseError>)
        ensures
            final(self).kind == old(self).kind,
            final(self).using == old(self).using,
            r matches Ok(_) ==> final(self).statements@.len() == old(
                self).statements@.len() + 1 && (forall|k: int|
                0 <= k < old(self).statements@.len() ==> final(self).statements@[k] == old(
                    self).statements@[k]),
            r matches Err(_) ==> final(self).statements@ == old(self).statements@,
    {
        let mut stream = StatementStream::new(statement);
        match ModificationStatement::parse(&mut stream) {
            Ok(st) => {
                self.statements.push(st);
                Ok(())
            },
            Err(e) => Err(e),
        }
    }

    /// Parse a BATCH statement.
    pub fn parse(s: &mut StatementStream) -> (r: Result<BatchStatement, ParseError>)
        requires
            old(s).wf(),
        ensures
            final(s).wf(),
            final(s).text() == old(s).text(),
            final(s).pos >= old(s).pos,
    {
        if !s.accept_keyword("BEGIN") {
            return Err(ParseError::Invalid);
        }
        let kind = BatchKind::parse(s)?;
        if !s.accept_keyword("BATCH") {
            return Err(ParseError::Invalid);
        }
        let mut using: Option<Vec<UpdateParameter>> = None;
        if s.accept_keyword("USING") {
            let ps = parse_param_list(s)?;
            using = Some(ps);
        }
        let mut statements: Vec<ModificationStatement> = Vec::new();
        let mut going = true;
        while going
            invariant
                s.wf(),
                s.text() == old(s).text(),
                s.pos >= old(s).pos,
            decreases s.text().len() - s.pos + (if going { 1int } else { 0int }),
        {
            if s.check_keyword("INSERT") || s.check_keyword("UPDATE") || s.check_keyword(
                "DELETE") {
                let before = s.pos;
                let st = ModificationStatement::parse(s)?;
                if s.pos > before {
                    statements.push(st);
                } else {
                    return Err(ParseError::Invalid);
                }
            } else {
                going = false;
            }
        }
        if !s.accept_keyword("APPLY") {
            return Err(ParseError::Invalid);
        }
        if !s.accept_keyword("BATCH") {
            return Err(ParseError::Invalid);
        }
        let _ = s.accept_punct(';');
        Ok(BatchStatement { kind, using, statements })
    }

    /// Render the statement back to statement text.
    pub fn to_cql(&self) -> (r: String)
        ensures
            r@ == self.render(),
    {
        broadcast use vstd::seq::Seq::add_empty_right;

        let mut out = String::from_str("BEGIN");
        match self.kind {
            BatchKind::Logged => {},
            BatchKind::Unlogged => {
                out.append(" UNLOGGED");
            },
            BatchKind::Counter => {
                out.append(" COUNTER");
            },
        }
        out.append(" BATCH");
        match &self.using {
            Some(ps) => {
                let mut seg = String::from_str(" USING ");
                let rendered = render_params(ps, ", ");
                seg.append(rendered.as_str());
                out.append(seg.as_str());
            },
            None => {},
        }
        let mut parts: Vec<String> = Vec::new();
        let mut i: usize = 0;
        while i < self.statements.len()
            invariant
                i <= self.statements@.len(),
                parts@.len() == i,
                forall|k: int| 0 <= k < i ==> (#[trigger] parts@[k])@ == self.statements@[
                    k].render(),
            decreases self.statements@.len() - i,
        {
            parts.push(self.statements[i].to_cql());
            i = i + 1;
        }
        let inner = join_rendered(&parts, "; ");
        let mut seg = String::from_str(" ");
        seg.append(inner.as_str());
        out.append(seg.as_str());
        out.append(" APPLY BATCH");
        proof {
            assert(parts@.map_values(|p: String| p@) =~= self.statements@.map_values(|m:
                ModificationStatement| m.render()));
            assert(out@ =~= self.render());
        }
        out
    }
}

impl Parse for BatchStatement {
    fn parse(s: &mut StatementStream) -> (r: Result<Self, ParseError>) {
        BatchStatement::parse(s)
    }
}

impl Peek for BatchStatement {
    fn peek(s: &StatementStream) -> (r: bool) {
        s.check_keyword("BEGIN")
    }
}

/// Any data-manipulation statement.
#[derive(Debug)]
pub enum DataManipulationStatement {
    Select(SelectStatement),
    Insert(InsertStatement),
    Update(UpdateStatement),
    Delete(DeleteStatement),
    Batch(BatchStatement),
}

impl DataManipulationStatement {
    pub open spec fn render(self) -> Seq<char> {
        match self {
            DataManipulationStatement::Select(st) => st.render(),
            DataManipulationStatement::Insert(st) => st.render(),
            DataManipulationStatement::Update(st) => st.render(),
            DataManipulationStatement::Delete(st) => st.render(),
            DataManipulationStatement::Batch(st) => st.render(),
        }
    }

    /// Parse any data-manipulation statement, chosen by its first
    /// keyword.
    pub fn parse(s: &mut StatementStream) -> (r: Result<
        DataManipulationStatement,
        ParseError,
    >)
        requires
            old(s).wf(),
        ensures
            final(s).wf(),
            final(s).text() == old(s).text(),
            final(s).pos >= old(s).pos,
    {
        if s.check_keyword("SELECT") {
            let st = SelectStatement::parse(s)?;
            Ok(DataManipulationStatement::Select(st))
        } else if s.check_keyword("INSERT") {
            let st = InsertStatement::parse(s)?;
            Ok(DataManipulationStatement::Insert(st))
        } else if s.check_keyword("UPDATE") {
            let st = UpdateStatement::parse(s)?;
            Ok(DataManipulationStatement::Update(st))
        } else if s.check_keyword("DELETE") {
            let st = DeleteStatement::parse(s)?;
            Ok(DataManipulationStatement::Delete(st))
        } else if s.check_keyword("BEGIN") {
            let st = BatchStatement::parse(s)?;
            Ok(DataManipulationStatement::Batch(st))
        } else {
            Err(ParseError::Invalid)
        }
    }

    pub fn to_cql(&self) -> (r: String)
        ensures
            r@ == self.render(),
    {
        match self {
            DataManipulationStatement::Select(st) => st.to_cql(),
            DataManipulationStatement::Insert(st) => st.to_cql(),
            DataManipulationStatement::Update(st) => st.to_cql(),
            DataManipulationStatement::Delete(st) => st.to_cql(),
            DataManipulationStatement::Batch(st) => st.to_cql(),
        }
    }
}

impl Parse for DataManipulationStatement {
    fn parse(s: &mut StatementStream) -> (r: Result<Self, ParseError>) {
        DataManipulationStatement::parse(s)
    }
}

impl Peek for DataManipulationStatement {
    fn peek(s: &StatementStream) -> (r: bool) {
        s.check_keyword("SELECT") || s.check_keyword("INSERT") || s.check_keyword("UPDATE")
            || s.check_keyword("DELETE") || s.check_keyword("BEGIN")
    }
}

/// A statement of the supported grammar.
#[derive(Debug)]
pub enum Statement {
    DataManipulation(DataManipulationStatement),
}

impl Statement {
    pub open spec fn render(self) -> Seq<char> {
        match self {
            Statement::DataManipulation(st) => st.render(),
        }
    }

    /// Parse a statement.
    pub fn parse(s: &mut StatementStream) -> (r: Result<Statement, ParseError>)
        requires
            old(s).wf(),
        ensures
            final(s).wf(),
            final(s).text() == old(s).text(),
            final(s).pos >= old(s).pos,
    {
        let st = DataManipulationStatement::parse(s)?;
        Ok(Statement::DataManipulation(st))
    }

    pub fn to_cql(&self) -> (r: String)
        ensures
            r@ == self.render(),
    {
        match self {
            Statement::DataManipulation(st) => st.to_cql(),
        }
    }
}

impl Parse for Statement {
    fn parse(s: &mut StatementStream) -> (r: Result<Self, ParseError>) {
        Statement::parse(s)
    }
}

/// Access to the keyspace that a statement addresses.
pub trait KeyspaceExt {
    /// The keyspace the statement names, rendered, if it names one.
    fn get_keyspace(&self) -> Option<String>;

    /// Qualify the statement with a keyspace.
    fn set_keyspace(&mut self, keyspace: &str);
}

/// Access to the WHERE relations of a statement.
pub trait WhereExt {
    /// The relations of the statement's WHERE clause, if it has one.
    fn iter_where(&self) -> Option<&Vec<Relation>>;
}

impl KeyspaceExt for SelectStatement {
    fn get_keyspace(&self) -> Option<String> {
        match &self.from.table.keyspace {
            Some(n) => Some(n.to_cql()),
            None => None,
        }
    }

    fn set_keyspace(&mut self, keyspace: &str) {
        self.from.table.keyspace = Some(Name::Quoted(String::from_str(keyspace)));
    }
}

impl KeyspaceExt for InsertStatement {
    fn get_keyspace(&self) -> Option<String> {
        match &self.table.keyspace {
            Some(n) => Some(n.to_cql()),
            None => None,
        }
    }

    fn set_keyspace(&mut self, keyspace: &str) {
        self.table.keyspace = Some(Name::Quoted(String::from_str(keyspace)));
    }
}

impl KeyspaceExt for UpdateStatement {
    fn get_keyspace(&self) -> Option<String> {
        match &self.table.keyspace {
            Some(n) => Some(n.to_cql()),
            None => None,
        }
    }

    fn set_keyspace(&mut self, keyspace: &str) {
        self.table.keyspace = Some(Name::Quoted(String::from_str(keyspace)));
    }
}

impl KeyspaceExt for DeleteStatement {
    fn get_keyspace(&self) -> Option<String> {
        match &self.from.table.keyspace {
            Some(n) => Some(n.to_cql()),
            None => None,
        }
    }

    fn set_keyspace(&mut self, keyspace: &str) {
        self.from.table.keyspace = Some(Name::Quoted(String::from_str(keyspace)));
    }
}

impl WhereExt for SelectStatement {
    fn iter_where(&self) -> Option<&Vec<Relation>> {
        match &self.where_clause {
            Some(w) => Some(&w.relations),
            None => None,
        }
    }
}

impl WhereExt for UpdateStatement {
    fn iter_where(&self) -> Option<&Vec<Relation>> {
        Some(&self.where_clause.relations)
    }
}

impl WhereExt for DeleteStatement {
    fn iter_where(&self) -> Option<&Vec<Relation>> {
        Some(&self.where_clause.relations)
    }
}

} // verus!
