//! Variables: a name bound to a value.

use vstd::prelude::*;
use crate::context::Context;
use crate::error::RuntimeError;
use crate::float::FloatFacts;
use crate::node::{eval, Node};
use crate::types::Type;

verus! {

/// A name bound to a value. The value is fixed when the variable is made.
#[derive(Clone, Debug, PartialEq, Eq)]
pub struct Variable {
    value: Type,
    name: String,
}

pub struct Binding {
    pub name: Seq<char>,
    pub value: Type,
}

impl View for Variable {
    type V = Binding;

    closed spec fn view(&self) -> Binding {
        Binding { name: self.name@, value: self.value }
    }
}

impl Variable {
    /// The variable `name` with the value of `value`, which is evaluated in
    /// `context`, once.
    pub fn new(name: &str, value: &Node, context: &mut Context, facts: &FloatFacts) -> (r: Result<
        Self,
        RuntimeError,
    >)
        requires
            old(context).wf(),
        ensures
            final(context).wf(),
            final(context).frames() == old(context).frames(),
            final(context).frame() == old(context).frame(),
            final(context).outer() == old(context).outer(),
            final(context).scopes() == eval(value@, old(context).scopes(), facts@).scopes,
            match eval(value@, old(context).scopes(), facts@).result {
                Ok(v) => r matches Ok(variable) && variable@ == (Binding { name: name@, value: v }),
                Err(e) => r matches Err(error) && error@ == e,
            },
        decreases value, 1int,
    {
        match value.get_value(context, facts) {
            Ok(v) => Ok(Self { value: v, name: String::from_str(name) }),
            Err(e) => Err(e),
        }
    }

    /// The variable `name` with the value `value`.
    pub fn of(name: &str, value: Type) -> (variable: Self)
        ensures
            variable@ == (Binding { name: name@, value }),
    {
        Self { value, name: String::from_str(name) }
    }

    /// The value that the variable was given.
    pub fn get_value(&self) -> (value: &Type)
        ensures
            *value == self@.value,
    {
        &self.value
    }

    /// The name of the variable.
    pub fn get_name(&self) -> (name: &str)
        ensures
            name@ == self@.name,
    {
        self.name.as_str()
    }

    /// The name as an owned string's reference.
    pub(crate) fn name_string(&self) -> (name: &String)
        ensures
            name@ == self@.name,
    {
        &self.name
    }

    /// Whether the variable has the name `name`.
    pub fn is_named(&self, name: &String) -> (r: bool)
        ensures
            r == (self@.name == name@),
    {
        self.name == *name
    }

    /// A copy of the variable.
    pub fn duplicate(&self) -> (copy: Self)
        ensures
            copy@ == self@,
    {
        Self { value: self.value, name: self.name.clone() }
    }
}

} // verus!
