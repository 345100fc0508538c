//! Parameterized statements of the relational store.

use crate::sequence::{lemma_total_grows, total};
use crate::text::opt_text;
use vstd::prelude::*;

verus! {

/// One positional parameter.
#[derive(Debug, Clone, PartialEq, Eq)]
pub enum SqlValue {
    Null,
    Integer(i64),
    Text(String),
    Blob(Vec<u8>),
}

/// The mathematical value of a parameter.
#[verifier::ext_equal]
pub enum Datum {
    Null,
    Integer(int),
    Text(Seq<char>),
    Blob(Seq<u8>),
}

impl View for SqlValue {
    type V = Datum;

    open spec fn view(&self) -> Datum {
        match self {
            SqlValue::Null => Datum::Null,
            SqlValue::Integer(n) => Datum::Integer(*n as int),
            SqlValue::Text(text) => Datum::Text(text@),
            SqlValue::Blob(bytes) => Datum::Blob(bytes@),
        }
    }
}

/// A statement with the values of its parameters `?1`, `?2` and so on.
#[derive(Debug, Clone, PartialEq, Eq)]
pub struct Statement {
    pub sql: &'static str,
    pub params: Vec<SqlValue>,
}

/// The mathematical content of a statement.
#[verifier::ext_equal]
pub struct Command {
    pub sql: Seq<char>,
    pub params: Seq<Datum>,
}

impl View for Statement {
    type V = Command;

    open spec fn view(&self) -> Command {
        Command { sql: self.sql@, params: self.params@.map_values(|value: SqlValue| value@) }
    }
}

/// A statement with its parameters.
pub open spec fn command(sql: &'static str, params: Seq<Datum>) -> Command {
    Command { sql: sql@, params }
}

/// The parameter of a text.
pub open spec fn text(value: Seq<char>) -> Datum {
    Datum::Text(value)
}

/// The parameter of an optional text: NULL where there is none.
pub open spec fn nullable(value: Option<String>) -> Datum {
    match opt_text(value) {
        Some(chars) => Datum::Text(chars),
        None => Datum::Null,
    }
}

/// The parameter of a number.
pub open spec fn integer(value: int) -> Datum {
    Datum::Integer(value)
}

/// The parameter of a truth value: 1 or 0.
pub open spec fn flag(value: bool) -> Datum {
    if value {
        Datum::Integer(1)
    } else {
        Datum::Integer(0)
    }
}

/// The contents of several statements.
pub open spec fn commands(statements: Seq<Statement>) -> Seq<Command> {
    statements.map_values(|statement: Statement| statement@)
}

impl Statement {
    /// The statement without parameters.
    pub fn new(sql: &'static str) -> (r: Statement)
        ensures
            r@ == command(sql, seq![]),
    {
        let r = Statement { sql, params: Vec::new() };
        assert(r@.params =~= seq![]);
        r
    }

    /// The statement with one more parameter.
    pub fn with(self, value: SqlValue) -> (r: Statement)
        ensures
            r@ == (Command { sql: self@.sql, params: self@.params.push(value@) }),
    {
        let Statement { sql, mut params } = self;
        let ghost before = params@;
        params.push(value);
        let r = Statement { sql, params };
        assert(r@.params =~= before.map_values(|v: SqlValue| v@).push(value@));
        r
    }

    /// The statement with one more text.
    pub fn with_text(self, value: &str) -> (r: Statement)
        ensures
            r@ == (Command { sql: self@.sql, params: self@.params.push(text(value@)) }),
    {
        self.with(SqlValue::Text(value.to_owned()))
    }

    /// The statement with one more optional text.
    pub fn with_nullable(self, value: &Option<String>) -> (r: Statement)
        ensures
            r@ == (Command { sql: self@.sql, params: self@.params.push(nullable(*value)) }),
    {
        match value {
            Some(chars) => self.with(SqlValue::Text(chars.clone())),
            None => self.with(SqlValue::Null),
        }
    }

    /// The statement with one more number.
    pub fn with_integer(self, value: i64) -> (r: Statement)
        ensures
            r@ == (Command { sql: self@.sql, params: self@.params.push(integer(value as int)) }),
    {
        self.with(SqlValue::Integer(value))
    }

    /// The statement with one more truth value.
    pub fn with_flag(self, value: bool) -> (r: Statement)
        ensures
            r@ == (Command { sql: self@.sql, params: self@.params.push(flag(value)) }),
    {
        if value {
            self.with(SqlValue::Integer(1))
        } else {
            self.with(SqlValue::Integer(0))
        }
    }

    /// The statement with one more blob.
    pub fn with_blob(self, value: Vec<u8>) -> (r: Statement)
        ensures
            r@ == (Command { sql: self@.sql, params: self@.params.push(Datum::Blob(value@)) }),
    {
        self.with(SqlValue::Blob(value))
    }
}

/// The number of rows that several statements changed, from their counts; `None` where it
/// does not fit.
pub fn total_changed(counts: &Vec<usize>) -> (r: Option<usize>)
    ensures
        match r {
            Some(sum) => sum == total(counts@.map_values(|n: usize| n as nat)),
            None => total(counts@.map_values(|n: usize| n as nat)) > usize::MAX,
        },
{
    let ghost values = counts@.map_values(|n: usize| n as nat);
    let mut sum: usize = 0;
    let mut i: usize = 0;
    assert(values.take(0) =~= Seq::<nat>::empty());
    while i < counts.len()
        invariant
            i <= counts@.len(),
            values == counts@.map_values(|n: usize| n as nat),
            sum == total(values.take(i as int)),
        decreases counts@.len() - i,
    {
        proof {
            assert(values.take(i + 1).drop_last() =~= values.take(i as int));
            assert(values.take(i + 1).last() == counts@[i as int]);
        }
        match sum.checked_add(counts[i]) {
            Some(next) => {
                sum = next;
            },
            None => {
                proof {
                    lemma_total_grows(values, i + 1);
                }
                return None;
            },
        }
        i += 1;
    }
    assert(values.take(i as int) =~= values);
    Some(sum)
}

} // verus!
