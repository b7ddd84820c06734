//! Messages that accompany the result of a statement.

use vstd::prelude::*;
use vstd::string::StringExecFns;
use crate::defined;
use crate::fault;
use crate::symbols;
use crate::symbols::Symbols;

verus! {

/// A message that is not an error.
#[derive(Clone, Copy, PartialEq, Eq, Debug, Structural)]
pub enum Notice {
    AlreadyInTransaction,
    NoTransaction,
    LocalOutsideTransaction,
    ModesOutsideTransaction,
    Merging(usize),
    Said(usize),
    DropsCast(usize, usize),
}

/// The text of a notice.
pub open spec fn notice_message(t: Seq<Seq<char>>, n: Notice) -> Seq<char> {
    match n {
        Notice::AlreadyInTransaction => "there is already a transaction in progress"@,
        Notice::NoTransaction => "there is no transaction in progress"@,
        Notice::LocalOutsideTransaction => "SET LOCAL can only be used in transaction blocks"@,
        Notice::ModesOutsideTransaction =>
            "SET TRANSACTION can only be used in transaction blocks"@,
        Notice::Merging(name) => "merging column "@ + fault::quoted(t, name)
            + " with inherited definition"@,
        Notice::Said(s) => symbols::text_at(t, s),
        Notice::DropsCast(a, b) => "drop cascades to cast from "@ + defined::type_text(t, a)
            + " to "@ + defined::type_text(t, b),
    }
}

impl Notice {
    /// The text of a notice.
    pub fn message(&self, t: &Symbols) -> (r: String)
        ensures
            r@ == notice_message(t@, *self),
    {
        let mut m: String = String::new();
        match *self {
            Notice::AlreadyInTransaction => {
                m.append("there is already a transaction in progress");
            },
            Notice::NoTransaction => {
                m.append("there is no transaction in progress");
            },
            Notice::LocalOutsideTransaction => {
                m.append("SET LOCAL can only be used in transaction blocks");
            },
            Notice::ModesOutsideTransaction => {
                m.append("SET TRANSACTION can only be used in transaction blocks");
            },
            Notice::Merging(name) => {
                m.append("merging column ");
                fault::push_quoted(&mut m, t, name);
                m.append(" with inherited definition");
            },
            Notice::Said(s) => {
                m.append(t.text(s).as_str());
            },
            Notice::DropsCast(a, b) => {
                m.append("drop cascades to cast from ");
                m.append(defined::type_string(t, a).as_str());
                m.append(" to ");
                m.append(defined::type_string(t, b).as_str());
            },
        }
        assert(m@ =~= notice_message(t@, *self));
        m
    }
}

} // verus!
