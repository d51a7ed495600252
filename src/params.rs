use vstd::prelude::*;

use crate::wire::{arg_to_sql_value, micros_of, wire_of, Instant, SqlArg, WireValue};

verus! {

/// A value bound to the placeholder `@name` of a statement.
#[derive(Debug, Clone, PartialEq, Eq)]
pub struct NamedParam {
    /// The placeholder's name, without its `@`.
    pub name: String,
    pub value: WireValue,
}

/// The parameters of one statement, in the order they were bound.
#[derive(Debug)]
pub struct Params {
    inner: Vec<NamedParam>,
}

impl View for Params {
    type V = Seq<NamedParam>;

    closed spec fn view(&self) -> Seq<NamedParam> {
        self.inner@
    }
}

impl Params {
    pub fn new() -> (r: Params)
        ensures
            r@ == Seq::<NamedParam>::empty(),
    {
        Params { inner: Vec::new() }
    }

    /// Binds `val` to the placeholder `@name`, after the parameters bound so far.
    pub fn bind(self, name: String, val: SqlArg) -> (r: Params)
        ensures
            r@ == self@.push(NamedParam { name, value: wire_of(val) }),
    {
        let mut inner = self.inner;
        let value = arg_to_sql_value(val);
        inner.push(NamedParam { name, value });
        Params { inner }
    }

    /// Binds an instant to the placeholder `@name`, as its microseconds since the epoch.
    pub fn bind_dt(self, name: String, dt: Instant) -> (r: Params)
        ensures
            r@ == self@.push(
                NamedParam { name, value: WireValue::Timestamp(micros_of(dt.unix_nanos as int) as i64) },
            ),
    {
        self.bind(name, SqlArg::from(dt))
    }

    /// The bound parameters, in binding order.
    pub fn into_inner(self) -> (r: Vec<NamedParam>)
        ensures
            r@ == self@,
    {
        self.inner
    }
}

/// A record that can supply the named parameters of a statement.
pub trait ToParams {
    fn to_params(&self) -> Params;
}

} // verus!
