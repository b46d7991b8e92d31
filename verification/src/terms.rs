//! Terms of the statement grammar: constants, collection literals and
//! bind markers.

use vstd::prelude::*;
use crate::parse::{Parse, ParseError, Peek, StatementStream};
use crate::tokens::{join_rendered, spec_join, BindMarker, Float, LitStr, SignedNumber};

verus! {

/// A term: a constant, a collection literal, or a bind marker.
#[derive(Debug)]
pub enum Term {
    Constant(Constant),
    List(ListLiteral),
    SetLit(SetLiteral),
    MapLit(MapLiteral),
    Tuple(TupleLiteral),
    BindMarker(BindMarker),
}

/// A constant: null, a boolean, a number or float kept as text, a string
/// literal, or hexadecimal bytes.
#[derive(Clone, Debug)]
pub enum Constant {
    Null,
    Boolean(bool),
    Integer(String),
    Float(String),
    String(LitStr),
}

/// A bracketed list of terms.
#[derive(Debug)]
pub struct ListLiteral {
    pub elements: Vec<Term>,
}

/// A braced set of terms.
#[derive(Debug)]
pub struct SetLiteral {
    pub elements: Vec<Term>,
}

/// A braced map of key-value term pairs.
#[derive(Debug)]
pub struct MapLiteral {
    pub elements: Vec<(Term, Term)>,
}

/// A parenthesized tuple of terms.
#[derive(Debug)]
pub struct TupleLiteral {
    pub elements: Vec<Term>,
}

impl Constant {
    pub open spec fn render(self) -> Seq<char> {
        match self {
            Constant::Null => "NULL"@,
            Constant::Boolean(b) => if b {
                "TRUE"@
            } else {
                "FALSE"@
            },
            Constant::Integer(v) => v@,
            Constant::Float(v) => v@,
            Constant::String(l) => l.render(),
        }
    }
}

/// The rendered text of a term.
pub open spec fn spec_render_term(t: Term) -> Seq<char>
    decreases t,
{
    match t {
        Term::Constant(c) => c.render(),
        Term::List(l) => "["@ + spec_render_terms(l.elements@) + "]"@,
        Term::SetLit(l) => "{"@ + spec_render_terms(l.elements@) + "}"@,
        Term::MapLit(m) => "{"@ + spec_render_pairs(m.elements@) + "}"@,
        Term::Tuple(l) => "("@ + spec_render_terms(l.elements@) + ")"@,
        Term::BindMarker(b) => b.render(),
    }
}

/// The rendered texts of terms, joined by a comma and a space.
pub open spec fn spec_render_terms(ts: Seq<Term>) -> Seq<char>
    decreases ts,
{
    if ts.len() == 0 {
        Seq::empty()
    } else if ts.len() == 1 {
        spec_render_term(ts[0])
    } else {
        spec_render_term(ts[0]) + ", "@ + spec_render_terms(ts.drop_first())
    }
}

/// The rendered texts of key-value pairs, joined by a comma and a space.
pub open spec fn spec_render_pairs(ps: Seq<(Term, Term)>) -> Seq<char>
    decreases ps,
{
    if ps.len() == 0 {
        Seq::empty()
    } else if ps.len() == 1 {
        spec_render_term(ps[0].0) + ": "@ + spec_render_term(ps[0].1)
    } else {
        spec_render_term(ps[0].0) + ": "@ + spec_render_term(ps[0].1) + ", "@
            + spec_render_pairs(ps.drop_first())
    }
}

/// `spec_render_terms` is the comma-join of the rendered elements.
pub proof fn lemma_render_terms_join(ts: Seq<Term>)
    ensures
        spec_render_terms(ts) == spec_join(ts.map_values(|t: Term| spec_render_term(t)), ", "@),
    decreases ts.len(),
{
    let mapped = ts.map_values(|t: Term| spec_render_term(t));
    if ts.len() == 0 {
    } else if ts.len() == 1 {
        assert(mapped[0] == spec_render_term(ts[0]));
    } else {
        lemma_render_terms_join(ts.drop_first());
        assert(ts.drop_first().map_values(|t: Term| spec_render_term(t)) =~= mapped
            .drop_first());
        assert(mapped[0] == spec_render_term(ts[0]));
    }
}

/// `spec_render_pairs` is the comma-join of the rendered `key: value`
/// pairs.
pub proof fn lemma_render_pairs_join(ps: Seq<(Term, Term)>)
    ensures
        spec_render_pairs(ps) == spec_join(ps.map_values(|p: (Term, Term)|
            spec_render_term(p.0) + ": "@ + spec_render_term(p.1)), ", "@),
    decreases ps.len(),
{
    let mapped = ps.map_values(|p: (Term, Term)| spec_render_term(p.0) + ": "@
        + spec_render_term(p.1));
    if ps.len() == 0 {
    } else if ps.len() == 1 {
        assert(mapped[0] == spec_render_term(ps[0].0) + ": "@ + spec_render_term(ps[0].1));
    } else {
        lemma_render_pairs_join(ps.drop_first());
        assert(ps.drop_first().map_values(|p: (Term, Term)| spec_render_term(p.0) + ": "@
            + spec_render_term(p.1)) =~= mapped.drop_first());
        assert(mapped[0] == spec_render_term(ps[0].0) + ": "@ + spec_render_term(ps[0].1));
    }
}

impl Constant {
    /// Parse a constant: a string literal, a float or integer kept as
    /// text, a boolean, or NULL.
    pub fn parse(s: &mut StatementStream) -> (r: Result<Constant, ParseError>)
        requires
            old(s).wf(),
        ensures
            final(s).wf(),
            final(s).text() == old(s).text(),
            final(s).pos >= old(s).pos,
            r matches Ok(_) ==> final(s).pos > old(s).pos,
    {
        let entry = s.pos;
        s.skip_whitespace();
        match s.peek() {
            None => {
                return Err(ParseError::End);
            },
            Some(c) => {
                if c == '\'' || c == '$' {
                    return match LitStr::parse(s) {
                        Ok(l) => {
                            if s.pos > entry {
                                Ok(Constant::String(l))
                            } else {
                                Err(ParseError::Invalid)
                            }
                        },
                        Err(e) => Err(e),
                    };
                }
            },
        }
        if s.accept_keyword("NULL") {
            return Ok(Constant::Null);
        }
        if s.accept_keyword("TRUE") {
            return Ok(Constant::Boolean(true));
        }
        if s.accept_keyword("FALSE") {
            return Ok(Constant::Boolean(false));
        }
        let save = s.pos;
        proof {
            assert(save <= s.text().len());
        }
        match Float::parse(s) {
            Ok(f) => {
                if s.pos > entry {
                    return Ok(Constant::Float(f.0));
                }
                return Err(ParseError::Invalid);
            },
            Err(_) => {
                s.restore(save);
            },
        }
        match SignedNumber::parse(s) {
            Ok(n) => {
                if s.pos > entry {
                    Ok(Constant::Integer(n.0))
                } else {
                    Err(ParseError::Invalid)
                }
            },
            Err(e) => Err(e),
        }
    }

    /// Render the constant back to statement text.
    pub fn to_cql(&self) -> (r: String)
        ensures
            r@ == self.render(),
    {
        match self {
            Constant::Null => String::from_str("NULL"),
            Constant::Boolean(b) => {
                if *b {
                    String::from_str("TRUE")
                } else {
                    String::from_str("FALSE")
                }
            },
            Constant::Integer(v) => v.clone(),
            Constant::Float(v) => v.clone(),
            Constant::String(l) => l.to_cql(),
        }
    }
}

impl Parse for Constant {
    fn parse(s: &mut StatementStream) -> (r: Result<Self, ParseError>) {
        Constant::parse(s)
    }
}

impl Peek for Constant {
    fn peek(s: &StatementStream) -> (r: bool) {
        let mut probe = s.duplicate();
        match Constant::parse(&mut probe) {
            Ok(_) => true,
            Err(_) => false,
        }
    }
}

impl Term {
    /// Parse a term: a constant, a bracketed, braced or parenthesized
    /// literal of terms, or a bind marker.
    pub fn parse(s: &mut StatementStream) -> (r: Result<Term, ParseError>)
        requires
            old(s).wf(),
        ensures
            final(s).wf(),
            final(s).text() == old(s).text(),
            final(s).pos >= old(s).pos,
            r matches Ok(_) ==> final(s).pos > old(s).pos,
        decreases old(s).text().len() - old(s).pos, 0int,
    {
        s.skip_whitespace();
        match s.peek() {
            None => {
                return Err(ParseError::End);
            },
            Some(c) => {
                if c == '[' {
                    let _ = s.next();
                    let elements = parse_term_list(s, ']')?;
                    return Ok(Term::List(ListLiteral { elements }));
                }
                if c == '{' {
                    let _ = s.next();
                    let save = s.pos;
                    proof {
                        assert(save <= s.text().len());
                    }
                    match parse_pair_list(s) {
                        Ok(pairs) => {
                            return Ok(Term::MapLit(MapLiteral { elements: pairs }));
                        },
                        Err(_) => {
                            s.restore(save);
                        },
                    }
                    let elements = parse_term_list(s, '}')?;
                    return Ok(Term::SetLit(SetLiteral { elements }));
                }
                if c == '(' {
                    let _ = s.next();
                    let elements = parse_term_list(s, ')')?;
                    return Ok(Term::Tuple(TupleLiteral { elements }));
                }
                if c == '?' || c == ':' {
                    let save = s.pos;
                    let m = BindMarker::parse(s)?;
                    if s.pos > save {
                        return Ok(Term::BindMarker(m));
                    }
                    return Err(ParseError::Invalid);
                }
            },
        }
        match Constant::parse(s) {
            Ok(c) => Ok(Term::Constant(c)),
            Err(e) => Err(e),
        }
    }

    /// Render the term back to statement text.
    pub fn to_cql(&self) -> (r: String)
        ensures
            r@ == spec_render_term(*self),
        decreases *self,
    {
        match self {
            Term::Constant(c) => c.to_cql(),
            Term::List(l) => {
                let inner = render_term_slice(&l.elements);
                let mut out = String::from_str("[");
                out.append(inner.as_str());
                out.append("]");
                proof {
                    assert(out@ =~= spec_render_term(*self));
                }
                out
            },
            Term::SetLit(l) => {
                let inner = render_term_slice(&l.elements);
                let mut out = String::from_str("{");
                out.append(inner.as_str());
                out.append("}");
                proof {
                    assert(out@ =~= spec_render_term(*self));
                }
                out
            },
            Term::MapLit(m) => {
                let inner = render_pair_slice(&m.elements);
                let mut out = String::from_str("{");
                out.append(inner.as_str());
                out.append("}");
                proof {
                    assert(out@ =~= spec_render_term(*self));
                }
                out
            },
            Term::Tuple(l) => {
                let inner = render_term_slice(&l.elements);
                let mut out = String::from_str("(");
                out.append(inner.as_str());
                out.append(")");
                proof {
                    assert(out@ =~= spec_render_term(*self));
                }
                out
            },
            Term::BindMarker(b) => b.to_cql(),
        }
    }
}

impl Parse for Term {
    fn parse(s: &mut StatementStream) -> (r: Result<Self, ParseError>) {
        Term::parse(s)
    }
}

impl Peek for Term {
    fn peek(s: &StatementStream) -> (r: bool) {
        let mut probe = s.duplicate();
        match Term::parse(&mut probe) {
            Ok(_) => true,
            Err(_) => false,
        }
    }
}

/// Parse a possibly empty, comma-separated list of terms closed by
/// `close`, consuming the closing character.
fn parse_term_list(s: &mut StatementStream, close: char) -> (r: Result<
    Vec<Term>,
    ParseError,
>)
    requires
        old(s).wf(),
    ensures
        final(s).wf(),
        final(s).text() == old(s).text(),
        final(s).pos >= old(s).pos,
    decreases old(s).text().len() - old(s).pos, 1int,
{
    let mut elements: Vec<Term> = Vec::new();
    if s.accept_punct(close) {
        return Ok(elements);
    }
    loop
        invariant
            s.wf(),
            s.text() == old(s).text(),
            s.pos >= old(s).pos,
        decreases s.text().len() - s.pos,
    {
        let before = s.pos;
        let t = Term::parse(s)?;
        elements.push(t);
        if s.accept_punct(',') {
            proof {
                assert(s.pos > before);
            }
        } else if s.accept_punct(close) {
            return Ok(elements);
        } else {
            return Err(ParseError::Invalid);
        }
    }
}

/// Parse a nonempty, comma-separated list of `key: value` pairs closed by
/// `}`, consuming the closing brace.
fn parse_pair_list(s: &mut StatementStream) -> (r: Result<Vec<(Term, Term)>, ParseError>)
    requires
        old(s).wf(),
    ensures
        final(s).wf(),
        final(s).text() == old(s).text(),
        final(s).pos >= old(s).pos,
    decreases old(s).text().len() - old(s).pos, 1int,
{
    let mut elements: Vec<(Term, Term)> = Vec::new();
    loop
        invariant
            s.wf(),
            s.text() == old(s).text(),
            s.pos >= old(s).pos,
        decreases s.text().len() - s.pos,
    {
        let before = s.pos;
        let k = Term::parse(s)?;
        if !s.accept_punct(':') {
            return Err(ParseError::Invalid);
        }
        let v = Term::parse(s)?;
        elements.push((k, v));
        if s.accept_punct(',') {
            proof {
                assert(s.pos > before);
            }
        } else if s.accept_punct('}') {
            return Ok(elements);
        } else {
            return Err(ParseError::Invalid);
        }
    }
}

/// Render terms joined by a comma and a space.
pub fn render_term_slice(ts: &Vec<Term>) -> (r: String)
    ensures
        r@ == spec_render_terms(ts@),
    decreases ts@,
{
    let mut parts: Vec<String> = Vec::new();
    let mut i: usize = 0;
    while i < ts.len()
        invariant
            i <= ts@.len(),
            parts@.len() == i,
            forall|k: int| 0 <= k < i ==> (#[trigger] parts@[k])@ == spec_render_term(
                ts@[k]),
        decreases ts@.len() - i,
    {
        proof {
            assert(ts@[i as int] == ts@.index(i as int));
        }
        let rendered = ts[i].to_cql();
        parts.push(rendered);
        i = i + 1;
    }
    let out = join_rendered(&parts, ", ");
    proof {
        lemma_render_terms_join(ts@);
        assert(parts@.map_values(|p: String| p@) =~= ts@.map_values(|t: Term|
            spec_render_term(t)));
    }
    out
}

/// Render `key: value` pairs joined by a comma and a space.
pub fn render_pair_slice(ps: &Vec<(Term, Term)>) -> (r: String)
    ensures
        r@ == spec_render_pairs(ps@),
    decreases ps@,
{
    let mut parts: Vec<String> = Vec::new();
    let mut i: usize = 0;
    while i < ps.len()
        invariant
            i <= ps@.len(),
            parts@.len() == i,
            forall|k: int| 0 <= k < i ==> (#[trigger] parts@[k])@ == spec_render_term(
                ps@[k].0) + ": "@ + spec_render_term(ps@[k].1),
        decreases ps@.len() - i,
    {
        let mut rendered = ps[i].0.to_cql();
        rendered.append(": ");
        let v = ps[i].1.to_cql();
        rendered.append(v.as_str());
        parts.push(rendered);
        i = i + 1;
    }
    let out = join_rendered(&parts, ", ");
    proof {
        lemma_render_pairs_join(ps@);
        assert(parts@.map_values(|p: String| p@) =~= ps@.map_values(|p: (Term, Term)|
            spec_render_term(p.0) + ": "@ + spec_render_term(p.1)));
    }
    out
}

/// A column type in a statement, as a name such as `int` or `text`.
#[derive(Clone, Debug)]
pub struct CqlType {
    pub name: crate::tokens::Name,
}

impl CqlType {
    pub open spec fn render(self) -> Seq<char> {
        self.name.render()
    }

    /// Parse a column type name.
    pub fn parse(s: &mut StatementStream) -> (r: Result<CqlType, ParseError>)
        requires
            old(s).wf(),
        ensures
            final(s).wf(),
            final(s).text() == old(s).text(),
            final(s).pos >= old(s).pos,
    {
        match crate::tokens::Name::parse(s) {
            Ok(n) => Ok(CqlType { name: n }),
            Err(e) => Err(e),
        }
    }

    pub fn to_cql(&self) -> (r: String)
        ensures
            r@ == self.render(),
    {
        self.name.to_cql()
    }
}

impl Parse for CqlType {
    fn parse(s: &mut StatementStream) -> (r: Result<Self, ParseError>) {
        CqlType::parse(s)
    }
}

impl Peek for CqlType {
    fn peek(s: &StatementStream) -> (r: bool) {
        crate::tokens::Name::peek(s)
    }
}

/// A duration literal kept as text: runs of digits each followed by a
/// unit word, such as `86400s` or `1h30m`.
#[derive(Clone, Debug)]
pub struct DurationLiteral {
    pub text: String,
}

impl DurationLiteral {
    pub open spec fn render(self) -> Seq<char> {
        self.text@
    }

    /// Parse a duration literal into its text form.
    pub fn parse(s: &mut StatementStream) -> (r: Result<DurationLiteral, ParseError>)
        requires
            old(s).wf(),
        ensures
            final(s).wf(),
            final(s).text() == old(s).text(),
            final(s).pos >= old(s).pos,
    {
        s.skip_whitespace();
        let mut buf: Vec<char> = Vec::new();
        let mut going = true;
        while going
            invariant
                s.wf(),
                s.text() == old(s).text(),
                s.pos >= old(s).pos,
            decreases s.text().len() - s.pos + (if going { 1int } else { 0int }),
        {
            match s.peek() {
                Some(c) => {
                    if crate::parse::is_alnum(c) {
                        let _ = s.next();
                        buf.push(c);
                    } else {
                        going = false;
                    }
                },
                None => {
                    going = false;
                },
            }
        }
        if buf.len() == 0 {
            Err(ParseError::End)
        } else {
            Ok(DurationLiteral { text: crate::parse::chars_to_string(buf.as_slice()) })
        }
    }

    pub fn to_cql(&self) -> (r: String)
        ensures
            r@ == self.render(),
    {
        self.text.clone()
    }
}

impl Parse for DurationLiteral {
    fn parse(s: &mut StatementStream) -> (r: Result<Self, ParseError>) {
        DurationLiteral::parse(s)
    }
}

impl Peek for DurationLiteral {
    fn peek(s: &StatementStream) -> (r: bool) {
        match s.peek() {
            Some(c) => crate::parse::is_alnum(c),
            None => false,
        }
    }
}

} // verus!
