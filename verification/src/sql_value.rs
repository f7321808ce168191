use vstd::prelude::*;
use vstd::std_specs::convert::FromSpecImpl;
use crate::statement::{PositionalStatement, StatementModel, placeholder};

verus! {

/// Declares `chrono::NaiveDateTime`, a timestamp without a time zone, as a
/// type whose values are carried through and never looked into.
#[verifier::external_type_specification]
#[verifier::external_body]
pub struct ExNaiveDateTime(chrono::NaiveDateTime);

/// A value that can be bound to a statement.
///
/// A double-precision number is held as its IEEE 754 bit pattern.
#[derive(Debug)]
pub enum SQLValue {
    I16(i16),
    I32(i32),
    I64(i64),
    U64(u64),
    F64(u64),
    DateTime(chrono::NaiveDateTime),
    VecI64(Vec<i64>),
    String(String),
    Bool(bool),
}

/// What a [`SQLValue`] stands for.
pub enum ValueModel {
    I16(i16),
    I32(i32),
    I64(i64),
    U64(u64),
    F64(u64),
    DateTime(chrono::NaiveDateTime),
    VecI64(Seq<i64>),
    Text(Seq<char>),
    Bool(bool),
}

impl ValueModel {
    /// The value as it goes to the wire: an unsigned 64-bit integer has no
    /// representation there and is reinterpreted as a signed one, keeping its
    /// low 64 bits; every other value goes unchanged.
    pub open spec fn narrowed(self) -> ValueModel {
        match self {
            ValueModel::U64(v) => ValueModel::I64(v as i64),
            other => other,
        }
    }
}

impl View for SQLValue {
    type V = ValueModel;

    open spec fn view(&self) -> ValueModel {
        match *self {
            SQLValue::I16(v) => ValueModel::I16(v),
            SQLValue::I32(v) => ValueModel::I32(v),
            SQLValue::I64(v) => ValueModel::I64(v),
            SQLValue::U64(v) => ValueModel::U64(v),
            SQLValue::F64(bits) => ValueModel::F64(bits),
            SQLValue::DateTime(v) => ValueModel::DateTime(v),
            SQLValue::VecI64(v) => ValueModel::VecI64(v@),
            SQLValue::String(v) => ValueModel::Text(v@),
            SQLValue::Bool(v) => ValueModel::Bool(v),
        }
    }
}

/// The models of a sequence of values.
pub open spec fn models(values: Seq<SQLValue>) -> Seq<ValueModel> {
    values.map_values(|v: SQLValue| v@)
}

/// Each value of a sequence as it goes to the wire.
pub open spec fn narrowed_all(values: Seq<ValueModel>) -> Seq<ValueModel> {
    values.map_values(|v: ValueModel| v.narrowed())
}

/// The value lists at the first `n` positions of `lists`, one after the
/// other; positions past the end hold nothing.
pub open spec fn concat_upto(lists: Seq<Seq<ValueModel>>, n: nat) -> Seq<ValueModel>
    decreases n,
{
    if n == 0 {
        Seq::<ValueModel>::empty()
    } else if n > lists.len() {
        concat_upto(lists, (n - 1) as nat)
    } else {
        concat_upto(lists, (n - 1) as nat) + lists[n - 1]
    }
}

/// The models of a list that grew by one value.
pub proof fn lemma_models_push(values: Seq<SQLValue>, v: SQLValue)
    ensures
        models(values.push(v)) == models(values).push(v@),
{
    assert(models(values.push(v)) =~= models(values).push(v@));
}

/// The models of two lists put together.
pub proof fn lemma_models_concat(a: Seq<SQLValue>, b: Seq<SQLValue>)
    ensures
        models(a + b) == models(a) + models(b),
{
    assert(models(a + b) =~= models(a) + models(b));
}

impl Clone for SQLValue {
    fn clone(&self) -> (copy: SQLValue)
        ensures
            copy@ == self@,
    {
        match self {
            SQLValue::I16(v) => SQLValue::I16(*v),
            SQLValue::I32(v) => SQLValue::I32(*v),
            SQLValue::I64(v) => SQLValue::I64(*v),
            SQLValue::U64(v) => SQLValue::U64(*v),
            SQLValue::F64(bits) => SQLValue::F64(*bits),
            SQLValue::DateTime(v) => SQLValue::DateTime(*v),
            SQLValue::VecI64(v) => {
                let copy = v.clone();
                assert(copy@ =~= v@);
                SQLValue::VecI64(copy)
            },
            SQLValue::String(v) => SQLValue::String(v.clone()),
            SQLValue::Bool(v) => SQLValue::Bool(*v),
        }
    }
}

/// A copy of a list of values.
pub fn clone_values(values: &Vec<SQLValue>) -> (copy: Vec<SQLValue>)
    ensures
        models(copy@) == models(values@),
{
    let mut copy: Vec<SQLValue> = Vec::new();
    let mut i: usize = 0;
    while i < values.len()
        invariant
            i <= values.len(),
            copy@.len() == i,
            forall|k: int| 0 <= k < i ==> copy@[k]@ == values@[k]@,
        decreases values.len() - i,
    {
        copy.push(values[i].clone());
        i = i + 1;
    }
    assert(models(copy@) =~= models(values@));
    copy
}

impl SQLValue {
    /// Binds a copy of this value to `qb` at the next position, in its
    /// wire form, and appends the token of that position.
    pub fn push_bind(&self, qb: &mut PositionalStatement)
        ensures
            final(qb)@ == (StatementModel {
                sql: old(qb)@.sql + placeholder(old(qb)@.binds.len() + 1),
                binds: old(qb)@.binds.push(self@.narrowed()),
            }),
    {
        qb.push_bind(self.clone());
    }

    /// A copy of this value, made from its content by the conversion that
    /// the content's type has; a float, which has none, is copied as it is.
    pub fn dummy(&self) -> (again: SQLValue)
        ensures
            again@ == self@,
    {
        match self.clone() {
            SQLValue::I16(v) => SQLValue::from(v),
            SQLValue::I32(v) => SQLValue::from(v),
            SQLValue::I64(v) => SQLValue::from(v),
            SQLValue::U64(v) => SQLValue::from(v),
            SQLValue::F64(bits) => SQLValue::F64(bits),
            SQLValue::DateTime(v) => SQLValue::from(v),
            SQLValue::VecI64(v) => SQLValue::from(v),
            SQLValue::String(v) => SQLValue::from(v),
            SQLValue::Bool(v) => SQLValue::from(v),
        }
    }

    /// The value in the form in which it is bound.
    pub fn narrow(self) -> (bound: SQLValue)
        ensures
            bound@ == self@.narrowed(),
    {
        match self {
            SQLValue::U64(v) => SQLValue::I64(#[verifier::truncate] (v as i64)),
            other => other,
        }
    }
}

impl From<i16> for SQLValue {
    fn from(v: i16) -> (value: SQLValue) {
        SQLValue::I16(v)
    }
}

impl FromSpecImpl<i16> for SQLValue {
    open spec fn obeys_from_spec() -> bool {
        true
    }

    open spec fn from_spec(v: i16) -> SQLValue {
        SQLValue::I16(v)
    }
}

impl From<i32> for SQLValue {
    fn from(v: i32) -> (value: SQLValue) {
        SQLValue::I32(v)
    }
}

impl FromSpecImpl<i32> for SQLValue {
    open spec fn obeys_from_spec() -> bool {
        true
    }

    open spec fn from_spec(v: i32) -> SQLValue {
        SQLValue::I32(v)
    }
}

impl From<i64> for SQLValue {
    fn from(v: i64) -> (value: SQLValue) {
        SQLValue::I64(v)
    }
}

impl FromSpecImpl<i64> for SQLValue {
    open spec fn obeys_from_spec() -> bool {
        true
    }

    open spec fn from_spec(v: i64) -> SQLValue {
        SQLValue::I64(v)
    }
}

impl From<u64> for SQLValue {
    fn from(v: u64) -> (value: SQLValue) {
        SQLValue::U64(v)
    }
}

impl FromSpecImpl<u64> for SQLValue {
    open spec fn obeys_from_spec() -> bool {
        true
    }

    open spec fn from_spec(v: u64) -> SQLValue {
        SQLValue::U64(v)
    }
}

impl From<chrono::NaiveDateTime> for SQLValue {
    fn from(v: chrono::NaiveDateTime) -> (value: SQLValue) {
        SQLValue::DateTime(v)
    }
}

impl FromSpecImpl<chrono::NaiveDateTime> for SQLValue {
    open spec fn obeys_from_spec() -> bool {
        true
    }

    open spec fn from_spec(v: chrono::NaiveDateTime) -> SQLValue {
        SQLValue::DateTime(v)
    }
}

impl From<Vec<i64>> for SQLValue {
    fn from(v: Vec<i64>) -> (value: SQLValue) {
        SQLValue::VecI64(v)
    }
}

impl FromSpecImpl<Vec<i64>> for SQLValue {
    open spec fn obeys_from_spec() -> bool {
        true
    }

    open spec fn from_spec(v: Vec<i64>) -> SQLValue {
        SQLValue::VecI64(v)
    }
}

impl From<String> for SQLValue {
    fn from(v: String) -> (value: SQLValue) {
        SQLValue::String(v)
    }
}

impl FromSpecImpl<String> for SQLValue {
    open spec fn obeys_from_spec() -> bool {
        true
    }

    open spec fn from_spec(v: String) -> SQLValue {
        SQLValue::String(v)
    }
}

impl From<bool> for SQLValue {
    fn from(v: bool) -> (value: SQLValue) {
        SQLValue::Bool(v)
    }
}

impl FromSpecImpl<bool> for SQLValue {
    open spec fn obeys_from_spec() -> bool {
        true
    }

    open spec fn from_spec(v: bool) -> SQLValue {
        SQLValue::Bool(v)
    }
}

} // verus!
