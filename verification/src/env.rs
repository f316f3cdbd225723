//! Settings by name, as a process finds them in its environment.

use vstd::prelude::*;
use crate::table::{Key, Table};
use crate::text;
use crate::text::parse_usize;

verus! {

impl Key for String {
    fn same_key(&self, other: &Self) -> bool {
        *self == *other
    }

    fn copy_key(&self) -> Self {
        self.clone()
    }
}

/// The variables of an environment.
#[derive(Debug)]
pub struct EnvVars {
    vars: Table<String, String>,
}

impl View for EnvVars {
    type V = Map<Seq<char>, Seq<char>>;

    closed spec fn view(&self) -> Map<Seq<char>, Seq<char>> {
        self.vars@.map_values(|value: String| value@)
    }
}

/// The value of a variable.
pub open spec fn value_of(vars: Map<Seq<char>, Seq<char>>, name: Seq<char>) -> Option<Seq<char>> {
    if vars.contains_key(name) {
        Some(vars[name])
    } else {
        None
    }
}

/// The number that a variable gives; none where it is unset or no number.
pub open spec fn number_of(vars: Map<Seq<char>, Seq<char>>, name: Seq<char>) -> Option<nat> {
    match value_of(vars, name) {
        Some(value) => text::parsed_number(value, usize::MAX as nat),
        None => None,
    }
}

/// The number that a variable gives, or `default`.
pub open spec fn number_or(
    vars: Map<Seq<char>, Seq<char>>,
    name: Seq<char>,
    default: usize,
) -> nat {
    match number_of(vars, name) {
        Some(value) => value,
        None => default as nat,
    }
}

/// What an optional text says.
pub open spec fn optional_text(text: Option<String>) -> Option<Seq<char>> {
    match text {
        Some(text) => Some(text@),
        None => None,
    }
}

impl EnvVars {
    pub closed spec fn wf(&self) -> bool {
        self.vars.wf()
    }

    pub fn new() -> (r: Self)
        ensures
            r.wf(),
            r@ == Map::<Seq<char>, Seq<char>>::empty(),
    {
        let r = EnvVars { vars: Table::new() };
        assert(r@ =~= Map::<Seq<char>, Seq<char>>::empty());
        r
    }

    /// Sets the variable `name`.
    pub fn set(&mut self, name: &str, value: &str)
        requires
            old(self).wf(),
        ensures
            final(self).wf(),
            final(self)@ == old(self)@.insert(name@, value@),
    {
        let ghost before = self@;
        self.vars.insert(name.to_owned(), value.to_owned());
        assert(self@ =~= before.insert(name@, value@));
    }

    /// The value of the variable `name`.
    pub fn get(&self, name: &str) -> (r: Option<String>)
        requires
            self.wf(),
        ensures
            optional_text(r) == value_of(self@, name@),
    {
        match self.vars.get(&name.to_owned()) {
            Some(value) => Some(value.clone()),
            None => None,
        }
    }

    /// The number that the variable `name` gives, if it gives one.
    pub fn env_optional_usize(&self, name: &str) -> (r: Option<usize>)
        requires
            self.wf(),
        ensures
            match r {
                Some(value) => number_of(self@, name@) == Some(value as nat),
                None => number_of(self@, name@) is None,
            },
    {
        match self.get(name) {
            Some(value) => parse_usize(value.as_str()),
            None => None,
        }
    }

    /// The number that the variable `name` gives, or `default`.
    pub fn env_usize(&self, name: &str, default: usize) -> (r: usize)
        requires
            self.wf(),
        ensures
            r == number_or(self@, name@, default),
    {
        match self.env_optional_usize(name) {
            Some(value) => value,
            None => default,
        }
    }
}

/// A variable that is set to a number gives that number, one that is unset or no number
/// gives the default, and setting a variable changes no other.
pub proof fn law_number_of_a_variable(
    vars: Map<Seq<char>, Seq<char>>,
    name: Seq<char>,
    other: Seq<char>,
    value: nat,
    default: usize,
)
    requires
        value <= usize::MAX,
    ensures
        number_or(vars.insert(name, text::decimal(value)), name, default) == value,
        !vars.contains_key(name) ==> number_or(vars, name, default) == default,
        vars.contains_key(name) && text::parsed_number(vars[name], usize::MAX as nat) is None
            ==> number_or(vars, name, default) == default,
        other != name ==> number_or(vars.insert(name, text::decimal(value)), other, default)
            == number_or(vars, other, default),
{
    text::law_written_number_is_read_back(value, usize::MAX as nat);
}

} // verus!
