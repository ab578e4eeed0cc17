//! Runtime values.
use vstd::prelude::*;
use crate::number::Number;

verus! {

/// A runtime value.
#[derive(Debug, PartialEq)]
pub enum Value {
    Number(Number),
    Range(Number, Number),
    String(String),
    Boolean(bool),
    Null,
}

/// A runtime value as a contract sees it.
pub enum ValueView {
    Number(Number),
    Range(Number, Number),
    String(Seq<char>),
    Boolean(bool),
    Null,
}

impl ValueView {
    /// Truthiness: a boolean is itself, `null` is false, a string is true
    /// unless it is empty, everything else is true.
    pub open spec fn truthy(self) -> bool {
        match self {
            ValueView::Boolean(b) => b,
            ValueView::Null => false,
            ValueView::String(s) => s.len() > 0,
            _ => true,
        }
    }
}

impl View for Value {
    type V = ValueView;

    open spec fn view(&self) -> ValueView {
        match self {
            Value::Number(n) => ValueView::Number(*n),
            Value::Range(a, b) => ValueView::Range(*a, *b),
            Value::String(s) => ValueView::String(s@),
            Value::Boolean(b) => ValueView::Boolean(*b),
            Value::Null => ValueView::Null,
        }
    }
}

impl Clone for Value {
    fn clone(&self) -> (r: Value)
        ensures
            r == *self,
    {
        match self {
            Value::Number(n) => Value::Number(*n),
            Value::Range(a, b) => Value::Range(*a, *b),
            Value::String(s) => Value::String(s.clone()),
            Value::Boolean(b) => Value::Boolean(*b),
            Value::Null => Value::Null,
        }
    }
}

impl Value {
    /// The text of a string value.
    pub fn as_str(&self) -> (r: String)
        requires
            self is String,
        ensures
            self@ == ValueView::String(r@),
    {
        match self {
            Value::String(s) => s.clone(),
            _ => String::new(),
        }
    }

    /// The number of a number value.
    pub fn as_num(&self) -> (r: Number)
        requires
            self is Number,
        ensures
            self@ == ValueView::Number(r),
    {
        match self {
            Value::Number(n) => *n,
            _ => Number { bits: 0 },
        }
    }

    /// The boolean of a boolean value.
    pub fn as_bool(&self) -> (r: bool)
        requires
            self is Boolean,
        ensures
            self@ == ValueView::Boolean(r),
    {
        match self {
            Value::Boolean(b) => *b,
            _ => false,
        }
    }

    /// Truthiness: a boolean is itself, `null` is false, a string is true
    /// unless it is empty, everything else is true.
    pub fn is_truthy(&self) -> (r: bool)
        ensures
            r == self@.truthy(),
    {
        match self {
            Value::Boolean(b) => *b,
            Value::Null => false,
            Value::String(s) => !s.as_str().is_empty(),
            _ => true,
        }
    }
}

} // verus!
