//! Statement options and schema fragments: option lists, replication
//! settings, caching settings, and key definitions.

use vstd::prelude::*;
use crate::parse::{render_i32, spec_dec_i64, Parse, ParseError, Peek, StatementStream};
use crate::terms::{CqlType, Constant, MapLiteral, Term};
use crate::tokens::{join_rendered, spec_join, Name};

verus! {

/// A `name = value` option in a statement.
#[derive(Debug)]
pub struct StatementOpt {
    pub name: Name,
    pub value: StatementOptValue,
}

/// The value of a statement option: an identifier, a constant, or a map
/// literal.
#[derive(Debug)]
pub enum StatementOptValue {
    Identifier(Name),
    Constant(Constant),
    MapValue(MapLiteral),
}

impl StatementOptValue {
    pub open spec fn render(self) -> Seq<char> {
        match self {
            StatementOptValue::Identifier(n) => n.render(),
            StatementOptValue::Constant(c) => c.render(),
            StatementOptValue::MapValue(m) => crate::terms::spec_render_term(
                Term::MapLit(m)),
        }
    }

    /// Parse an option value: a map literal, a constant, or an
    /// identifier.
    pub fn parse(s: &mut StatementStream) -> (r: Result<StatementOptValue, ParseError>)
        requires
            old(s).wf(),
        ensures
            final(s).wf(),
            final(s).text() == old(s).text(),
            final(s).pos >= old(s).pos,
    {
        let save = s.pos;
        proof {
            assert(save <= s.text().len());
        }
        match Term::parse(s) {
            Ok(t) => {
                match t {
                    Term::MapLit(m) => {
                        return Ok(StatementOptValue::MapValue(m));
                    },
                    Term::Constant(c) => {
                        return Ok(StatementOptValue::Constant(c));
                    },
                    _ => {
                        s.restore(save);
                    },
                }
            },
            Err(_) => {
                s.restore(save);
            },
        }
        match Name::parse(s) {
            Ok(n) => Ok(StatementOptValue::Identifier(n)),
            Err(e) => Err(e),
        }
    }

    pub fn to_cql(&self) -> (r: String)
        ensures
            r@ == self.render(),
    {
        match self {
            StatementOptValue::Identifier(n) => n.to_cql(),
            StatementOptValue::Constant(c) => c.to_cql(),
            StatementOptValue::MapValue(m) => {
                let inner = crate::terms::render_pair_slice(&m.elements);
                let mut out = String::from_str("{");
                out.append(inner.as_str());
                out.append("}");
                proof {
                    assert(out@ =~= self.render());
                }
                out
            },
        }
    }
}

impl Parse for StatementOptValue {
    fn parse(s: &mut StatementStream) -> (r: Result<Self, ParseError>) {
        StatementOptValue::parse(s)
    }
}

impl Peek for StatementOptValue {
    fn peek(s: &StatementStream) -> (r: bool) {
        let mut probe = s.duplicate();
        match StatementOptValue::parse(&mut probe) {
            Ok(_) => true,
            Err(_) => false,
        }
    }
}

impl StatementOpt {
    pub open spec fn render(self) -> Seq<char> {
        self.name.render() + " = "@ + self.value.render()
    }

    /// Parse `name = value`.
    pub fn parse(s: &mut StatementStream) -> (r: Result<StatementOpt, ParseError>)
        requires
            old(s).wf(),
        ensures
            final(s).wf(),
            final(s).text() == old(s).text(),
            final(s).pos >= old(s).pos,
    {
        let name = Name::parse(s)?;
        if !s.accept_punct('=') {
            return Err(ParseError::Invalid);
        }
        let value = StatementOptValue::parse(s)?;
        Ok(StatementOpt { name, value })
    }

    pub fn to_cql(&self) -> (r: String)
        ensures
            r@ == self.render(),
    {
        let mut out = self.name.to_cql();
        out.append(" = ");
        let v = self.value.to_cql();
        out.append(v.as_str());
        proof {
            assert(out@ =~= self.render());
        }
        out
    }
}

impl Parse for StatementOpt {
    fn parse(s: &mut StatementStream) -> (r: Result<Self, ParseError>) {
        StatementOpt::parse(s)
    }
}

impl Peek for StatementOpt {
    fn peek(s: &StatementStream) -> (r: bool) {
        let mut probe = s.duplicate();
        match StatementOpt::parse(&mut probe) {
            Ok(_) => true,
            Err(_) => false,
        }
    }
}

/// A keyspace replication setting: `SimpleStrategy` with one factor, or
/// `NetworkTopologyStrategy` with a factor per datacenter.
#[derive(Clone, Debug)]
pub enum Replication {
    SimpleStrategy(i32),
    NetworkTopologyStrategy(Vec<(String, i32)>),
}

impl Replication {
    /// A simple strategy with the given replication factor.
    pub fn simple(replication_factor: i32) -> (r: Self)
        ensures
            r == Replication::SimpleStrategy(replication_factor),
    {
        Replication::SimpleStrategy(replication_factor)
    }

    /// A network topology strategy with a factor per datacenter.
    pub fn network_topology(replication_map: Vec<(String, i32)>) -> (r: Self)
        ensures
            r == Replication::NetworkTopologyStrategy(replication_map),
    {
        Replication::NetworkTopologyStrategy(replication_map)
    }

    pub open spec fn render(self) -> Seq<char> {
        match self {
            Replication::SimpleStrategy(n) =>
                "{'class': 'SimpleStrategy', 'replication_factor': "@ + spec_dec_i64(n as int)
                + "}"@,
            Replication::NetworkTopologyStrategy(m) =>
                "{'class': 'NetworkTopologyStrategy', "@ + spec_join(m@.map_values(|p: (
                    String,
                    i32,
                )| "'"@ + p.0@ + "': "@ + spec_dec_i64(p.1 as int)), ", "@) + "}"@,
        }
    }

    /// Render the replication setting as a map literal text.
    pub fn to_cql(&self) -> (r: String)
        ensures
            r@ == self.render(),
    {
        match self {
            Replication::SimpleStrategy(n) => {
                let mut out = String::from_str(
                    "{'class': 'SimpleStrategy', 'replication_factor': ");
                let v = render_i32(*n);
                out.append(v.as_str());
                out.append("}");
                proof {
                    assert(out@ =~= self.render());
                }
                out
            },
            Replication::NetworkTopologyStrategy(m) => {
                let mut parts: Vec<String> = Vec::new();
                let mut i: usize = 0;
                while i < m.len()
                    invariant
                        i <= m@.len(),
                        parts@.len() == i,
                        forall|k: int| 0 <= k < i ==> (#[trigger] parts@[k])@ == "'"@
                            + m@[k].0@ + "': "@ + spec_dec_i64(m@[k].1 as int),
                    decreases m@.len() - i,
                {
                    let mut entry = String::from_str("'");
                    entry.append(m[i].0.as_str());
                    entry.append("': ");
                    let v = render_i32(m[i].1);
                    entry.append(v.as_str());
                    proof {
                        assert(entry@ =~= "'"@ + m@[i as int].0@ + "': "@ + spec_dec_i64(
                            m@[i as int].1 as int));
                    }
                    parts.push(entry);
                    i = i + 1;
                }
                let inner = join_rendered(&parts, ", ");
                let mut out = String::from_str("{'class': 'NetworkTopologyStrategy', ");
                out.append(inner.as_str());
                out.append("}");
                proof {
                    assert(parts@.map_values(|p: String| p@) =~= m@.map_values(|p: (
                        String,
                        i32,
                    )| "'"@ + p.0@ + "': "@ + spec_dec_i64(p.1 as int)));
                    assert(out@ =~= self.render());
                }
                out
            },
        }
    }
}

/// Which keys a table caches.
#[derive(Copy, Clone, Debug, PartialEq, Eq, Structural)]
pub enum Keys {
    All,
    NoKeys,
}

impl Keys {
    pub open spec fn render(self) -> Seq<char> {
        match self {
            Keys::All => "'ALL'"@,
            Keys::NoKeys => "'NONE'"@,
        }
    }

    pub fn to_cql(&self) -> (r: String)
        ensures
            r@ == self.render(),
    {
        match self {
            Keys::All => String::from_str("'ALL'"),
            Keys::NoKeys => String::from_str("'NONE'"),
        }
    }
}

/// How many rows per partition a table caches.
#[derive(Copy, Clone, Debug, PartialEq, Eq, Structural)]
pub enum RowsPerPartition {
    All,
    NoRows,
    Count(i32),
}

impl RowsPerPartition {
    pub open spec fn render(self) -> Seq<char> {
        match self {
            RowsPerPartition::All => "'ALL'"@,
            RowsPerPartition::NoRows => "'NONE'"@,
            RowsPerPartition::Count(n) => spec_dec_i64(n as int),
        }
    }

    pub fn to_cql(&self) -> (r: String)
        ensures
            r@ == self.render(),
    {
        match self {
            RowsPerPartition::All => String::from_str("'ALL'"),
            RowsPerPartition::NoRows => String::from_str("'NONE'"),
            RowsPerPartition::Count(n) => render_i32(*n),
        }
    }
}

/// A table caching setting.
#[derive(Clone, Debug, Default)]
pub struct Caching {
    pub keys: Option<Keys>,
    pub rows_per_partition: Option<RowsPerPartition>,
}

/// Builds a `Caching` setting field by field.
#[derive(Clone, Debug, Default)]
pub struct CachingBuilder {
    pub keys: Option<Keys>,
    pub rows_per_partition: Option<RowsPerPartition>,
}

impl CachingBuilder {
    /// Set which keys are cached.
    pub fn keys(&mut self, keys: Keys)
        ensures
            final(self).keys == Some(keys),
            final(self).rows_per_partition == old(self).rows_per_partition,
    {
        self.keys = Some(keys);
    }

    /// Set how many rows per partition are cached.
    pub fn rows_per_partition(&mut self, rows: RowsPerPartition)
        ensures
            final(self).rows_per_partition == Some(rows),
            final(self).keys == old(self).keys,
    {
        self.rows_per_partition = Some(rows);
    }

    /// Finish the setting.
    pub fn finish(self) -> (r: Caching)
        ensures
            r.keys == self.keys,
            r.rows_per_partition == self.rows_per_partition,
    {
        Caching { keys: self.keys, rows_per_partition: self.rows_per_partition }
    }
}

impl Caching {
    /// Start building a caching setting.
    pub fn build() -> (r: CachingBuilder)
        ensures
            r.keys is None,
            r.rows_per_partition is None,
    {
        CachingBuilder { keys: None, rows_per_partition: None }
    }

    pub open spec fn render(self) -> Seq<char> {
        let parts = if self.keys is Some && self.rows_per_partition is Some {
            seq![
                "'keys': "@ + self.keys->0.render(),
                "'rows_per_partition': "@ + self.rows_per_partition->0.render(),
            ]
        } else if self.keys is Some {
            seq!["'keys': "@ + self.keys->0.render()]
        } else if self.rows_per_partition is Some {
            seq!["'rows_per_partition': "@ + self.rows_per_partition->0.render()]
        } else {
            Seq::empty()
        };
        "{"@ + spec_join(parts, ", "@) + "}"@
    }

    /// Render the caching setting as a map literal text.
    pub fn to_cql(&self) -> (r: String)
        ensures
            r@ == self.render(),
    {
        let mut parts: Vec<String> = Vec::new();
        match &self.keys {
            Some(k) => {
                let mut entry = String::from_str("'keys': ");
                let v = k.to_cql();
                entry.append(v.as_str());
                parts.push(entry);
            },
            None => {},
        }
        match &self.rows_per_partition {
            Some(rp) => {
                let mut entry = String::from_str("'rows_per_partition': ");
                let v = rp.to_cql();
                entry.append(v.as_str());
                parts.push(entry);
            },
            None => {},
        }
        let inner = join_rendered(&parts, ", ");
        let mut out = String::from_str("{");
        out.append(inner.as_str());
        out.append("}");
        proof {
            let rendered = parts@.map_values(|p: String| p@);
            if self.keys is Some && self.rows_per_partition is Some {
                assert(rendered =~= seq![
                    "'keys': "@ + self.keys->0.render(),
                    "'rows_per_partition': "@ + self.rows_per_partition->0.render(),
                ]);
            } else if self.keys is Some {
                assert(rendered =~= seq!["'keys': "@ + self.keys->0.render()]);
            } else if self.rows_per_partition is Some {
                assert(rendered =~= seq![
                    "'rows_per_partition': "@ + self.rows_per_partition->0.render(),
                ]);
            } else {
                assert(rendered =~= Seq::<Seq<char>>::empty());
            }
            assert(out@ =~= self.render());
        }
        out
    }
}

/// A unit of a time window, as the server names them.
#[derive(Copy, Clone, Debug, PartialEq, Eq, Structural)]
pub enum JavaTimeUnit {
    Minutes,
    Hours,
    Days,
}

impl JavaTimeUnit {
    pub open spec fn render(self) -> Seq<char> {
        match self {
            JavaTimeUnit::Minutes => "MINUTES"@,
            JavaTimeUnit::Hours => "HOURS"@,
            JavaTimeUnit::Days => "DAYS"@,
        }
    }

    /// The unit a word denotes, if any.
    pub fn from_word(w: &str) -> (r: Option<JavaTimeUnit>)
        ensures
            r matches Some(u) ==> crate::tokens::spec_upper_word(w@) == u.render(),
    {
        let chars = crate::parse::str_chars(w);
        if crate::tokens::word_matches(&chars, "MINUTES") {
            Some(JavaTimeUnit::Minutes)
        } else if crate::tokens::word_matches(&chars, "HOURS") {
            Some(JavaTimeUnit::Hours)
        } else if crate::tokens::word_matches(&chars, "DAYS") {
            Some(JavaTimeUnit::Days)
        } else {
            None
        }
    }

    pub fn to_cql(&self) -> (r: String)
        ensures
            r@ == self.render(),
    {
        match self {
            JavaTimeUnit::Minutes => String::from_str("MINUTES"),
            JavaTimeUnit::Hours => String::from_str("HOURS"),
            JavaTimeUnit::Days => String::from_str("DAYS"),
        }
    }
}

/// The partition key of a primary key: one or more columns.
#[derive(Debug)]
pub struct PartitionKey {
    pub columns: Vec<Name>,
}

impl PartitionKey {
    /// A partition key names at least one column.
    pub open spec fn wf(self) -> bool {
        self.columns@.len() > 0
    }

    pub open spec fn render(self) -> Seq<char> {
        if self.columns@.len() == 1 {
            self.columns@[0].render()
        } else {
            "("@ + spec_join(self.columns@.map_values(|n: Name| n.render()), ", "@) + ")"@
        }
    }

    /// Parse a partition key: one column name or a parenthesized list.
    pub fn parse(s: &mut StatementStream) -> (r: Result<PartitionKey, ParseError>)
        requires
            old(s).wf(),
        ensures
            final(s).wf(),
            final(s).text() == old(s).text(),
            final(s).pos >= old(s).pos,
            r matches Ok(pk) ==> pk.wf(),
    {
        if s.accept_punct('(') {
            let mut columns: Vec<Name> = Vec::new();
            let first = Name::parse(s)?;
            columns.push(first);
            while s.accept_punct(',')
                invariant
                    s.wf(),
                    s.text() == old(s).text(),
                    s.pos >= old(s).pos,
                    columns@.len() > 0,
                decreases s.text().len() - s.pos,
            {
                let n = Name::parse(s)?;
                columns.push(n);
            }
            if !s.accept_punct(')') {
                return Err(ParseError::Invalid);
            }
            Ok(PartitionKey { columns })
        } else {
            let n = Name::parse(s)?;
            let mut columns: Vec<Name> = Vec::new();
            columns.push(n);
            Ok(PartitionKey { columns })
        }
    }

    /// Render the partition key: a single column bare, several columns
    /// parenthesized.
    pub fn to_cql(&self) -> (r: String)
        requires
            self.wf(),
        ensures
            r@ == self.render(),
    {
        if self.columns.len() == 1 {
            self.columns[0].to_cql()
        } else {
            let mut parts: Vec<String> = Vec::new();
            let mut i: usize = 0;
            while i < self.columns.len()
                invariant
                    i <= self.columns@.len(),
                    parts@.len() == i,
                    forall|k: int| 0 <= k < i ==> (#[trigger] parts@[k])@ == self.columns@[
                        k].render(),
                decreases self.columns@.len() - i,
            {
                parts.push(self.columns[i].to_cql());
                i = i + 1;
            }
            let inner = join_rendered(&parts, ", ");
            let mut out = String::from_str("(");
            out.append(inner.as_str());
            out.append(")");
            proof {
                assert(parts@.map_values(|p: String| p@) =~= self.columns@.map_values(|n:
                    Name| n.render()));
                assert(out@ =~= self.render());
            }
            out
        }
    }
}

impl Parse for PartitionKey {
    fn parse(s: &mut StatementStream) -> (r: Result<Self, ParseError>) {
        PartitionKey::parse(s)
    }
}

impl Peek for PartitionKey {
    fn peek(s: &StatementStream) -> (r: bool) {
        s.check_punct('(') || Name::peek(s)
    }
}

/// The primary key of a table: the partition key, then any clustering
/// columns.
#[derive(Debug)]
pub struct PrimaryKey {
    pub partition_key: PartitionKey,
    pub clustering_columns: Option<Vec<Name>>,
}

impl PrimaryKey {
    pub open spec fn wf(self) -> bool {
        self.partition_key.wf()
    }

    pub open spec fn render(self) -> Seq<char> {
        match self.clustering_columns {
            Some(cols) => self.partition_key.render() + ", "@ + spec_join(cols@.map_values(
                |n: Name| n.render()), ", "@),
            None => self.partition_key.render(),
        }
    }

    /// Parse a primary key: a partition key, then optional clustering
    /// columns.
    pub fn parse(s: &mut StatementStream) -> (r: Result<PrimaryKey, ParseError>)
        requires
            old(s).wf(),
        ensures
            final(s).wf(),
            final(s).text() == old(s).text(),
            final(s).pos >= old(s).pos,
            r matches Ok(pk) ==> pk.wf(),
    {
        let partition_key = PartitionKey::parse(s)?;
        if s.accept_punct(',') {
            let mut cols: Vec<Name> = Vec::new();
            let first = Name::parse(s)?;
            cols.push(first);
            while s.accept_punct(',')
                invariant
                    s.wf(),
                    s.text() == old(s).text(),
                    s.pos >= old(s).pos,
                decreases s.text().len() - s.pos,
            {
                let n = Name::parse(s)?;
                cols.push(n);
            }
            Ok(PrimaryKey { partition_key, clustering_columns: Some(cols) })
        } else {
            Ok(PrimaryKey { partition_key, clustering_columns: None })
        }
    }

    pub fn to_cql(&self) -> (r: String)
        requires
            self.wf(),
        ensures
            r@ == self.render(),
    {
        let mut out = self.partition_key.to_cql();
        match &self.clustering_columns {
            Some(cols) => {
                out.append(", ");
                let mut parts: Vec<String> = Vec::new();
                let mut i: usize = 0;
                while i < cols.len()
                    invariant
                        i <= cols@.len(),
                        parts@.len() == i,
                        forall|k: int| 0 <= k < i ==> (#[trigger] parts@[k])@ == cols@[
                            k].render(),
                    decreases cols@.len() - i,
                {
                    parts.push(cols[i].to_cql());
                    i = i + 1;
                }
                let inner = join_rendered(&parts, ", ");
                out.append(inner.as_str());
                proof {
                    assert(parts@.map_values(|p: String| p@) =~= cols@.map_values(|n: Name|
                        n.render()));
                    assert(out@ =~= self.render());
                }
                out
            },
            None => out,
        }
    }
}

/// One column of a table definition.
#[derive(Debug)]
pub struct ColumnDefinition {
    pub name: Name,
    pub data_type: CqlType,
    pub static_column: bool,
    pub primary_key: bool,
}

/// Builds a `ColumnDefinition` field by field and validates at the end.
#[derive(Debug, Default)]
pub struct ColumnDefinitionBuilder {
    pub name: Option<Name>,
    pub data_type: Option<CqlType>,
    pub static_column: bool,
    pub primary_key: bool,
}

impl ColumnDefinitionBuilder {
    /// Set the column name.
    pub fn name(&mut self, name: Name)
        ensures
            final(self).name == Some(name),
            final(self).data_type == old(self).data_type,
            final(self).static_column == old(self).static_column,
            final(self).primary_key == old(self).primary_key,
    {
        self.name = Some(name);
    }

    /// Set the column type.
    pub fn data_type(&mut self, data_type: CqlType)
        ensures
            final(self).data_type == Some(data_type),
            final(self).name == old(self).name,
            final(self).static_column == old(self).static_column,
            final(self).primary_key == old(self).primary_key,
    {
        self.data_type = Some(data_type);
    }

    /// Mark the column static.
    pub fn static_column(&mut self, static_column: bool)
        ensures
            final(self).static_column == static_column,
            final(self).name == old(self).name,
            final(self).data_type == old(self).data_type,
            final(self).primary_key == old(self).primary_key,
    {
        self.static_column = static_column;
    }

    /// Mark the column part of the primary key.
    pub fn primary_key(&mut self, primary_key: bool)
        ensures
            final(self).primary_key == primary_key,
            final(self).name == old(self).name,
            final(self).data_type == old(self).data_type,
            final(self).static_column == old(self).static_column,
    {
        self.primary_key = primary_key;
    }

    /// Validate and finish: a column needs a name and a type.
    pub fn finish(self) -> (r: Result<ColumnDefinition, crate::error::DriverError>)
        ensures
            match r {
                Ok(c) => self.name == Some(c.name) && self.data_type == Some(c.data_type)
                    && c.static_column == self.static_column && c.primary_key
                    == self.primary_key,
                Err(e) => e == crate::error::DriverError::Other && (self.name is None
                    || self.data_type is None),
            },
    {
        match (self.name, self.data_type) {
            (Some(name), Some(data_type)) => Ok(ColumnDefinition {
                name,
                data_type,
                static_column: self.static_column,
                primary_key: self.primary_key,
            }),
            _ => Err(crate::error::DriverError::Other),
        }
    }
}

impl ColumnDefinition {
    /// Start building a column definition.
    pub fn build() -> (r: ColumnDefinitionBuilder)
        ensures
            r.name is None,
            r.data_type is None,
            !r.static_column,
            !r.primary_key,
    {
        ColumnDefinitionBuilder { name: None, data_type: None, static_column: false,
            primary_key: false }
    }

    pub open spec fn render(self) -> Seq<char> {
        self.name.render() + " "@ + self.data_type.render() + (if self.static_column {
            " STATIC"@
        } else {
            Seq::<char>::empty()
        }) + (if self.primary_key {
            " PRIMARY KEY"@
        } else {
            Seq::<char>::empty()
        })
    }

    /// Parse `name type [STATIC] [PRIMARY KEY]`.
    pub fn parse(s: &mut StatementStream) -> (r: Result<ColumnDefinition, ParseError>)
        requires
            old(s).wf(),
        ensures
            final(s).wf(),
            final(s).text() == old(s).text(),
            final(s).pos >= old(s).pos,
    {
        let name = Name::parse(s)?;
        let data_type = CqlType::parse(s)?;
        let static_column = s.accept_keyword("STATIC");
        let mut primary_key = false;
        if s.accept_keyword("PRIMARY") {
            if !s.accept_keyword("KEY") {
                return Err(ParseError::Invalid);
            }
            primary_key = true;
        }
        Ok(ColumnDefinition { name, data_type, static_column, primary_key })
    }

    pub fn to_cql(&self) -> (r: String)
        ensures
            r@ == self.render(),
    {
        let mut out = self.name.to_cql();
        out.append(" ");
        let t = self.data_type.to_cql();
        out.append(t.as_str());
        if self.static_column {
            out.append(" STATIC");
        }
        if self.primary_key {
            out.append(" PRIMARY KEY");
        }
        proof {
            assert(out@ =~= self.render());
        }
        out
    }
}

impl Parse for ColumnDefinition {
    fn parse(s: &mut StatementStream) -> (r: Result<Self, ParseError>) {
        ColumnDefinition::parse(s)
    }
}

impl Peek for ColumnDefinition {
    fn peek(s: &StatementStream) -> (r: bool) {
        let mut probe = s.duplicate();
        match ColumnDefinition::parse(&mut probe) {
            Ok(_) => true,
            Err(_) => false,
        }
    }
}

/// The options of a keyspace: its replication setting and whether writes
/// are durable.
#[derive(Clone, Debug)]
pub struct KeyspaceOpts {
    pub replication: Replication,
    pub durable_writes: Option<bool>,
}

/// Access to the options of a keyspace definition.
pub trait KeyspaceOptionsExt {
    /// The options of the keyspace.
    fn keyspace_opts(&self) -> &KeyspaceOpts;

    /// Replace the replication setting.
    fn set_replication(&mut self, replication: Replication);

    /// Replace the durable-writes setting.
    fn set_durable_writes(&mut self, durable_writes: bool);
}

/// Whether a map pair is a string-keyed `class` entry naming a strategy
/// class that ends with `suffix`.
pub open spec fn spec_class_pair(p: (Term, Term), suffix: Seq<char>) -> bool {
    &&& p.0 is Constant && p.0->Constant_0 is String
    &&& crate::tokens::spec_upper_word(p.0->Constant_0->String_0.value@) == "CLASS"@
    &&& p.1 is Constant && p.1->Constant_0 is String
    &&& ({
        let cls = p.1->Constant_0->String_0.value@;
        cls.len() >= suffix.len() && cls.subrange(cls.len() - suffix.len(), cls.len() as int)
            == suffix
    })
}

/// Whether a map pair is a string-keyed `replication_factor` entry whose
/// integer text denotes `v`.
pub open spec fn spec_factor_pair(p: (Term, Term), v: int) -> bool {
    &&& p.0 is Constant && p.0->Constant_0 is String
    &&& crate::tokens::spec_upper_word(p.0->Constant_0->String_0.value@)
        == "REPLICATION_FACTOR"@
    &&& p.1 is Constant && p.1->Constant_0 is Integer
    &&& crate::tokens::spec_i32_text(p.1->Constant_0->Integer_0@, v)
}

/// Whether a map pair binds datacenter `dc` to a factor whose integer
/// text denotes `v`.
pub open spec fn spec_dc_pair(p: (Term, Term), dc: Seq<char>, v: int) -> bool {
    &&& p.0 is Constant && p.0->Constant_0 is String
    &&& p.0->Constant_0->String_0.value@ == dc
    &&& p.1 is Constant && p.1->Constant_0 is Integer
    &&& crate::tokens::spec_i32_text(p.1->Constant_0->Integer_0@, v)
}

impl Replication {
    /// Read a replication setting out of a parsed map literal: the
    /// `class` entry chooses the strategy, `SimpleStrategy` takes exactly
    /// one `replication_factor` entry, and `NetworkTopologyStrategy`
    /// takes one integer entry per datacenter. On success the returned
    /// setting comes exactly from such entries; anything else is
    /// refused.
    pub fn try_from_map(value: &MapLiteral) -> (r: Result<Replication, ParseError>)
        ensures
            match r {
                Ok(rep) => (match rep {
                    Replication::SimpleStrategy(f) => {
                        &&& exists|j: int|
                            0 <= j < value.elements@.len() && spec_class_pair(
                            #[trigger] value.elements@[j], "SimpleStrategy"@)
                        &&& exists|j: int|
                            0 <= j < value.elements@.len() && spec_factor_pair(
                            #[trigger] value.elements@[j], f as int)
                    },
                    Replication::NetworkTopologyStrategy(m) => {
                        &&& exists|j: int|
                            0 <= j < value.elements@.len() && spec_class_pair(
                            #[trigger] value.elements@[j], "NetworkTopologyStrategy"@)
                        &&& forall|k: int|
                            0 <= k < m@.len() ==> exists|j: int|
                                0 <= j < value.elements@.len() && spec_dc_pair(
                                #[trigger] value.elements@[j], (#[trigger] m@[k]).0@,
                                m@[k].1 as int)
                    },
                }),
                Err(e) => e == ParseError::Invalid,
            },
    {
        let mut class: Option<&crate::tokens::LitStr> = None;
        let ghost mut class_at: int = 0;
        let mut i: usize = 0;
        let n = value.elements.len();
        // Find the class entry first.
        while i < n
            invariant
                i <= n,
                n == value.elements@.len(),
                class matches Some(c) ==> 0 <= class_at < n && ({
                    let p = value.elements@[class_at];
                    &&& p.0 is Constant && p.0->Constant_0 is String
                    &&& crate::tokens::spec_upper_word(p.0->Constant_0->String_0.value@)
                        == "CLASS"@
                    &&& p.1 is Constant && p.1->Constant_0 is String
                    &&& p.1->Constant_0->String_0 == *c
                }),
            decreases n - i,
        {
            let pair = &value.elements[i];
            match (&pair.0, &pair.1) {
                (Term::Constant(Constant::String(k)), Term::Constant(Constant::String(v)))
                    => {
                    if str_eq_upper(k.value.as_str(), "CLASS") {
                        class = Some(v);
                        proof {
                            class_at = i as int;
                        }
                    }
                },
                _ => {},
            }
            i = i + 1;
        }
        let class = match class {
            Some(c) => c,
            None => {
                return Err(ParseError::Invalid);
            },
        };
        if str_ends_with(class.value.as_str(), "SimpleStrategy") {
            let mut factor: Option<i32> = None;
            let ghost mut factor_at: int = 0;
            let mut j: usize = 0;
            while j < n
                invariant
                    j <= n,
                    n == value.elements@.len(),
                    factor matches Some(f) ==> 0 <= factor_at < n && spec_factor_pair(
                        value.elements@[factor_at], f as int),
                decreases n - j,
            {
                let pair = &value.elements[j];
                match (&pair.0, &pair.1) {
                    (Term::Constant(Constant::String(k)), rhs) => {
                        if str_eq_upper(k.value.as_str(), "CLASS") {
                        } else if str_eq_upper(k.value.as_str(), "REPLICATION_FACTOR") {
                            if factor.is_some() {
                                return Err(ParseError::Invalid);
                            }
                            match rhs {
                                Term::Constant(Constant::Integer(text)) => {
                                    match crate::tokens::parse_i32_str(text.as_str()) {
                                        Some(v) => {
                                            factor = Some(v);
                                            proof {
                                                factor_at = j as int;
                                            }
                                        },
                                        None => {
                                            return Err(ParseError::Invalid);
                                        },
                                    }
                                },
                                _ => {
                                    return Err(ParseError::Invalid);
                                },
                            }
                        } else {
                            return Err(ParseError::Invalid);
                        }
                    },
                    _ => {
                        return Err(ParseError::Invalid);
                    },
                }
                j = j + 1;
            }
            match factor {
                Some(f) => Ok(Replication::SimpleStrategy(f)),
                None => Err(ParseError::Invalid),
            }
        } else if str_ends_with(class.value.as_str(), "NetworkTopologyStrategy") {
            let mut map: Vec<(String, i32)> = Vec::new();
            let mut j: usize = 0;
            while j < n
                invariant
                    j <= n,
                    n == value.elements@.len(),
                    forall|k: int|
                        0 <= k < map@.len() ==> exists|jj: int|
                            0 <= jj < n && spec_dc_pair(#[trigger] value.elements@[jj], (
                            #[trigger] map@[k]).0@, map@[k].1 as int),
                decreases n - j,
            {
                let pair = &value.elements[j];
                match (&pair.0, &pair.1) {
                    (Term::Constant(Constant::String(k)), rhs) => {
                        if str_eq_upper(k.value.as_str(), "CLASS") {
                        } else {
                            match rhs {
                                Term::Constant(Constant::Integer(text)) => {
                                    match crate::tokens::parse_i32_str(text.as_str()) {
                                        Some(v) => {
                                            map.push((k.value.clone(), v));
                                            proof {
                                                assert(spec_dc_pair(value.elements@[
                                                    j as int], map@.last().0@, map@.last().1
                                                    as int));
                                            }
                                        },
                                        None => {
                                            return Err(ParseError::Invalid);
                                        },
                                    }
                                },
                                _ => {
                                    return Err(ParseError::Invalid);
                                },
                            }
                        }
                    },
                    _ => {
                        return Err(ParseError::Invalid);
                    },
                }
                j = j + 1;
            }
            Ok(Replication::NetworkTopologyStrategy(map))
        } else {
            Err(ParseError::Invalid)
        }
    }
}

/// Whether two texts match without regard to ASCII case.
fn str_eq_upper(a: &str, b: &str) -> (r: bool)
    ensures
        r == (crate::tokens::spec_upper_word(a@) == b@),
{
    let ac = crate::parse::str_chars(a);
    crate::tokens::word_matches(&ac, b)
}

/// Whether `a` ends with the text `suffix`.
fn str_ends_with(a: &str, suffix: &str) -> (r: bool)
    ensures
        r == (a@.len() >= suffix@.len() && a@.subrange(a@.len() - suffix@.len(),
            a@.len() as int) == suffix@),
{
    let ac = crate::parse::str_chars(a);
    let sc = crate::parse::str_chars(suffix);
    if sc.len() > ac.len() {
        return false;
    }
    let alen = ac.len();
    let off = alen - sc.len();
    let mut i: usize = 0;
    while i < sc.len()
        invariant
            i <= sc@.len(),
            sc@.len() <= ac@.len(),
            alen == ac@.len(),
            ac@ == a@,
            sc@ == suffix@,
            off == ac@.len() - sc@.len(),
            forall|k: int| 0 <= k < i ==> a@[off + k] == suffix@[k],
        decreases sc@.len() - i,
    {
        proof {
            assert(off + i < alen);
        }
        if ac[off + i] != sc[i] {
            proof {
                assert(a@.subrange(off as int, alen as int)[i as int] != suffix@[i as int]);
            }
            return false;
        }
        i = i + 1;
    }
    proof {
        assert(a@.subrange(off as int, alen as int) =~= suffix@);
    }
    true
}

} // verus!
