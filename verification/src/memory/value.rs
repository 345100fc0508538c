//! Column values and parameterized queries of the graph database.

use crate::text::{i64_text, int_text, opt_text, texts};
use crate::timestamp::Timestamp;
use vstd::prelude::*;

verus! {

/// The logical type of a NULL.
#[derive(Debug, Clone, Copy, PartialEq, Eq, Structural)]
pub enum LogicalType {
    String,
    Timestamp,
    Other,
}

/// One column value or parameter.
#[derive(Debug, Clone, PartialEq, Eq)]
pub enum GraphValue {
    String(String),
    Int64(i64),
    Bool(bool),
    Timestamp(Timestamp),
    Null(LogicalType),
    /// A value of any other type, by its diagnostic text.
    Other(String),
}

/// The mathematical value of a column or parameter.
#[verifier::ext_equal]
pub enum Value {
    Text(Seq<char>),
    Integer(int),
    Truth(bool),
    Time(Timestamp),
    Null(LogicalType),
    Other(Seq<char>),
}

impl View for GraphValue {
    type V = Value;

    open spec fn view(&self) -> Value {
        match self {
            GraphValue::String(text) => Value::Text(text@),
            GraphValue::Int64(n) => Value::Integer(*n as int),
            GraphValue::Bool(b) => Value::Truth(*b),
            GraphValue::Timestamp(t) => Value::Time(*t),
            GraphValue::Null(logical) => Value::Null(*logical),
            GraphValue::Other(text) => Value::Other(text@),
        }
    }
}

/// One parameter of a query.
#[derive(Debug, Clone, PartialEq, Eq)]
pub enum GraphParam {
    One(GraphValue),
    /// A list of texts.
    List(Vec<String>),
}

/// The mathematical value of a parameter.
#[verifier::ext_equal]
pub enum Parameter {
    One(Value),
    List(Seq<Seq<char>>),
}

impl View for GraphParam {
    type V = Parameter;

    open spec fn view(&self) -> Parameter {
        match self {
            GraphParam::One(value) => Parameter::One(value@),
            GraphParam::List(list) => Parameter::List(texts(list@)),
        }
    }
}

/// A parameterized query.
#[derive(Debug, Clone, PartialEq, Eq)]
pub struct Query {
    pub cypher: String,
    pub params: Vec<(&'static str, GraphParam)>,
}

/// The mathematical content of a query.
#[verifier::ext_equal]
pub struct Request {
    pub cypher: Seq<char>,
    pub params: Seq<(Seq<char>, Parameter)>,
}

impl View for Query {
    type V = Request;

    open spec fn view(&self) -> Request {
        Request {
            cypher: self.cypher@,
            params: self.params@.map_values(|param: (&'static str, GraphParam)| (param.0@, param.1@)),
        }
    }
}

impl Query {
    /// The query without parameters.
    pub fn new(cypher: &str) -> (r: Query)
        ensures
            r@ == (Request { cypher: cypher@, params: seq![] }),
    {
        let r = Query { cypher: cypher.to_owned(), params: Vec::new() };
        assert(r@.params =~= seq![]);
        r
    }

    /// The query with one more parameter.
    pub fn with(self, name: &'static str, value: GraphValue) -> (r: Query)
        ensures
            r@ == (Request {
                cypher: self@.cypher,
                params: self@.params.push((name@, Parameter::One(value@))),
            }),
    {
        let mut r = self;
        r.params.push((name, GraphParam::One(value)));
        assert(r@.params =~= self@.params.push((name@, Parameter::One(value@))));
        r
    }

    /// The query with one more text parameter.
    pub fn with_text(self, name: &'static str, text: &str) -> (r: Query)
        ensures
            r@ == (Request {
                cypher: self@.cypher,
                params: self@.params.push((name@, Parameter::One(Value::Text(text@)))),
            }),
    {
        self.with(name, GraphValue::String(text.to_owned()))
    }

    /// The query with one more timestamp parameter.
    pub fn with_time(self, name: &'static str, time: Timestamp) -> (r: Query)
        ensures
            r@ == (Request {
                cypher: self@.cypher,
                params: self@.params.push((name@, Parameter::One(Value::Time(time)))),
            }),
    {
        self.with(name, GraphValue::Timestamp(time))
    }

    /// The query with one more parameter, a list of texts.
    pub fn with_list(self, name: &'static str, values: &Vec<String>) -> (r: Query)
        ensures
            r@ == (Request {
                cypher: self@.cypher,
                params: self@.params.push((name@, Parameter::List(texts(values@)))),
            }),
    {
        let mut list: Vec<String> = Vec::new();
        let mut i: usize = 0;
        while i < values.len()
            invariant
                i <= values@.len(),
                list@ == values@.take(i as int),
            decreases values@.len() - i,
        {
            list.push(values[i].clone());
            i += 1;
        }
        assert(list@ =~= values@);
        let mut r = self;
        r.params.push((name, GraphParam::List(list)));
        assert(r@.params =~= self@.params.push((name@, Parameter::List(texts(values@)))));
        r
    }
}

/// A text parameter.
pub open spec fn text_param(text: Seq<char>) -> Parameter {
    Parameter::One(Value::Text(text))
}

/// A timestamp parameter.
pub open spec fn time_param(time: Timestamp) -> Parameter {
    Parameter::One(Value::Time(time))
}

/// The value of an optional text.
pub open spec fn optional_text(value: Option<Seq<char>>) -> Value {
    match value {
        Some(text) => Value::Text(text),
        None => Value::Null(LogicalType::String),
    }
}

/// The parameter of an optional text: NULL where there is none.
pub fn opt_string(value: &Option<String>) -> (r: GraphValue)
    ensures
        r@ == optional_text(opt_text(*value)),
{
    match value {
        Some(text) => GraphValue::String(text.clone()),
        None => GraphValue::Null(LogicalType::String),
    }
}

/// The value of an optional timestamp.
pub open spec fn optional_time(value: Option<Timestamp>) -> Value {
    match value {
        Some(time) => Value::Time(time),
        None => Value::Null(LogicalType::Timestamp),
    }
}

/// The parameter of an optional timestamp: NULL where there is none.
pub fn opt_timestamp(value: Option<Timestamp>) -> (r: GraphValue)
    ensures
        r@ == optional_time(value),
{
    match value {
        Some(time) => GraphValue::Timestamp(time),
        None => GraphValue::Null(LogicalType::Timestamp),
    }
}

impl GraphValue {
    /// The display text of a column.
    pub open spec fn display(self) -> Seq<char> {
        match self {
            GraphValue::String(text) => text@,
            GraphValue::Int64(n) => int_text(n as int),
            GraphValue::Bool(true) => "true"@,
            GraphValue::Bool(false) => "false"@,
            GraphValue::Timestamp(time) => time.text(),
            GraphValue::Null(_) => "NULL"@,
            GraphValue::Other(text) => text@,
        }
    }
}

/// The display text of a column.
pub fn value_to_string(value: &GraphValue) -> (r: String)
    ensures
        r@ == value.display(),
{
    match value {
        GraphValue::String(text) => text.clone(),
        GraphValue::Int64(n) => i64_text(*n),
        GraphValue::Bool(b) => if *b {
            "true".to_owned()
        } else {
            "false".to_owned()
        },
        GraphValue::Timestamp(time) => time.to_text(),
        GraphValue::Null(_) => "NULL".to_owned(),
        GraphValue::Other(text) => text.clone(),
    }
}

/// The display texts of a row.
pub fn row_to_strings(row: &Vec<GraphValue>) -> (r: Vec<String>)
    ensures
        texts(r@) == row@.map_values(|value: GraphValue| value.display()),
{
    let mut out: Vec<String> = Vec::new();
    let mut i: usize = 0;
    while i < row.len()
        invariant
            i <= row@.len(),
            out@.len() == i,
            forall|k: int| 0 <= k < i ==> (#[trigger] out@[k])@ == row@[k].display(),
        decreases row@.len() - i,
    {
        out.push(value_to_string(&row[i]));
        i += 1;
    }
    assert(texts(out@) =~= row@.map_values(|value: GraphValue| value.display()));
    out
}

} // verus!
