use vstd::prelude::*;
use vstd::string::*;
use crate::sql_value::{
    SQLValue, ValueModel, clone_values, concat_upto, lemma_models_concat, lemma_models_push,
    models,
};
use crate::BoolKind;

verus! {

/// A condition with one marker, its value, and the operator that joins it
/// to the condition that follows.
pub struct ConditionModel {
    pub template: Seq<char>,
    pub value: ValueModel,
    pub joiner: BoolKind,
}

/// A condition with several markers and as many values.
pub struct MultiConditionModel {
    pub template: Seq<char>,
    pub values: Seq<ValueModel>,
}

/// The two ordered lists of conditions of a statement.
pub struct WhereModel {
    pub clauses: Seq<ConditionModel>,
    pub multi_clauses: Seq<MultiConditionModel>,
}

/// The first `n` single-value conditions as text: between two neighbours
/// stands the operator of the earlier one, with a space on either side.
pub open spec fn conditions_upto(clauses: Seq<ConditionModel>, n: nat) -> Seq<char>
    decreases n,
{
    if n == 0 || n > clauses.len() {
        Seq::<char>::empty()
    } else if n == 1 {
        clauses[0].template
    } else {
        conditions_upto(clauses, (n - 1) as nat) + " "@ + clauses[n - 2].joiner.token() + " "@
            + clauses[n - 1].template
    }
}

/// The first `n` multi-value conditions as text, with `" and "` between
/// neighbours.
pub open spec fn multi_conditions_upto(multi: Seq<MultiConditionModel>, n: nat) -> Seq<char>
    decreases n,
{
    if n == 0 || n > multi.len() {
        Seq::<char>::empty()
    } else if n == 1 {
        multi[0].template
    } else {
        multi_conditions_upto(multi, (n - 1) as nat) + " and "@ + multi[n - 1].template
    }
}

/// The value lists of the multi-value conditions, one for each.
pub open spec fn multi_value_lists(multi: Seq<MultiConditionModel>) -> Seq<Seq<ValueModel>> {
    multi.map_values(|m: MultiConditionModel| m.values)
}

impl WhereModel {
    /// No condition at all.
    pub open spec fn empty() -> WhereModel {
        WhereModel {
            clauses: Seq::<ConditionModel>::empty(),
            multi_clauses: Seq::<MultiConditionModel>::empty(),
        }
    }

    /// This set with one more single-value condition at the end of its list.
    pub open spec fn with_condition(
        self,
        template: Seq<char>,
        value: ValueModel,
        joiner: BoolKind,
    ) -> WhereModel {
        WhereModel {
            clauses: self.clauses.push(ConditionModel { template, value, joiner }),
            multi_clauses: self.multi_clauses,
        }
    }

    /// This set with one more multi-value condition at the end of its list.
    pub open spec fn with_multi(self, template: Seq<char>, values: Seq<ValueModel>) -> WhereModel {
        WhereModel {
            clauses: self.clauses,
            multi_clauses: self.multi_clauses.push(MultiConditionModel { template, values }),
        }
    }

    /// Both lists are empty.
    pub open spec fn is_empty(self) -> bool {
        self.clauses.len() == 0 && self.multi_clauses.len() == 0
    }

    /// The filter as text: nothing for an empty set; else `" where "`, the
    /// single-value conditions, and directly behind them the multi-value
    /// conditions.
    pub open spec fn text(self) -> Seq<char> {
        if self.is_empty() {
            Seq::<char>::empty()
        } else {
            " where "@ + conditions_upto(self.clauses, self.clauses.len())
                + multi_conditions_upto(self.multi_clauses, self.multi_clauses.len())
        }
    }

    /// The values of the single-value conditions in the order of their
    /// list, then those of the multi-value conditions in the order of theirs,
    /// whatever the order in which the two lists were filled.
    pub open spec fn values(self) -> Seq<ValueModel> {
        self.clauses.map_values(|c: ConditionModel| c.value) + concat_upto(
            multi_value_lists(self.multi_clauses),
            self.multi_clauses.len(),
        )
    }
}

/// The conditions of a statement, in two lists that are filled independently.
pub struct WhereClauses {
    clauses: Vec<(String, SQLValue, BoolKind)>,
    multi_clauses: Vec<(String, Vec<SQLValue>)>,
}

/// What a stored single-value condition stands for.
pub open spec fn condition_model(c: (String, SQLValue, BoolKind)) -> ConditionModel {
    ConditionModel { template: c.0@, value: c.1@, joiner: c.2 }
}

/// What a stored multi-value condition stands for.
pub open spec fn multi_condition_model(m: (String, Vec<SQLValue>)) -> MultiConditionModel {
    MultiConditionModel { template: m.0@, values: models(m.1@) }
}

impl View for WhereClauses {
    type V = WhereModel;

    closed spec fn view(&self) -> WhereModel {
        WhereModel {
            clauses: self.clauses@.map_values(|c: (String, SQLValue, BoolKind)| condition_model(c)),
            multi_clauses: self.multi_clauses@.map_values(
                |m: (String, Vec<SQLValue>)| multi_condition_model(m),
            ),
        }
    }
}

impl Clone for WhereClauses {
    fn clone(&self) -> (copy: WhereClauses)
        ensures
            copy@ == self@,
    {
        let mut clauses: Vec<(String, SQLValue, BoolKind)> = Vec::new();
        let mut i: usize = 0;
        while i < self.clauses.len()
            invariant
                i <= self.clauses.len(),
                clauses@.len() == i,
                forall|k: int|
                    0 <= k < i ==> condition_model(clauses@[k]) == condition_model(
                        self.clauses@[k],
                    ),
            decreases self.clauses.len() - i,
        {
            let c = &self.clauses[i];
            clauses.push((c.0.clone(), c.1.clone(), c.2));
            i = i + 1;
        }
        let mut multi_clauses: Vec<(String, Vec<SQLValue>)> = Vec::new();
        let mut j: usize = 0;
        while j < self.multi_clauses.len()
            invariant
                j <= self.multi_clauses.len(),
                multi_clauses@.len() == j,
                forall|k: int|
                    0 <= k < j ==> multi_condition_model(multi_clauses@[k])
                        == multi_condition_model(self.multi_clauses@[k]),
            decreases self.multi_clauses.len() - j,
        {
            let m = &self.multi_clauses[j];
            multi_clauses.push((m.0.clone(), clone_values(&m.1)));
            j = j + 1;
        }
        let copy = WhereClauses { clauses, multi_clauses };
        assert(copy@.clauses =~= self@.clauses);
        assert(copy@.multi_clauses =~= self@.multi_clauses);
        copy
    }
}

impl WhereClauses {
    /// A set without conditions.
    pub fn new() -> (set: Self)
        ensures
            set@ == WhereModel::empty(),
    {
        let set = WhereClauses { clauses: Vec::new(), multi_clauses: Vec::new() };
        assert(set@.clauses =~= Seq::<ConditionModel>::empty());
        assert(set@.multi_clauses =~= Seq::<MultiConditionModel>::empty());
        set
    }

    /// Appends a single-value condition. The template is expected to hold
    /// one marker; nothing checks it.
    pub fn push(&mut self, clause: String, value: SQLValue, kind: BoolKind)
        ensures
            final(self)@ == old(self)@.with_condition(clause@, value@, kind),
    {
        self.clauses.push((clause, value, kind));
        assert(final(self)@.clauses =~= old(self)@.clauses.push(
            ConditionModel { template: clause@, value: value@, joiner: kind },
        ));
    }

    /// Appends a multi-value condition.
    pub fn push_multi(&mut self, clause: String, value: Vec<SQLValue>)
        ensures
            final(self)@ == old(self)@.with_multi(clause@, models(value@)),
    {
        self.multi_clauses.push((clause, value));
        assert(final(self)@.multi_clauses =~= old(self)@.multi_clauses.push(
            MultiConditionModel { template: clause@, values: models(value@) },
        ));
    }

    /// The filter as text with its markers, and the values that belong to
    /// the markers.
    pub fn parts(self) -> (out: (String, Vec<SQLValue>))
        ensures
            out.0@ == self@.text(),
            models(out.1@) == self@.values(),
    {
        let ghost model = self@;
        let mut values: Vec<SQLValue> = Vec::new();
        if self.clauses.is_empty() && self.multi_clauses.is_empty() {
            assert(models(values@) =~= model.values());
            return (String::new(), values);
        }
        let mut out = String::from_str(" where ");
        let mut i: usize = 0;
        while i < self.clauses.len()
            invariant
                i <= self.clauses.len(),
                model == self@,
                out@ == " where "@ + conditions_upto(model.clauses, i as nat),
            decreases self.clauses.len() - i,
        {
            if i > 0 {
                out.append(" ");
                out.append(self.clauses[i - 1].2.as_str());
                out.append(" ");
            }
            out.append(self.clauses[i].0.as_str());
            i = i + 1;
        }
        let mut j: usize = 0;
        while j < self.multi_clauses.len()
            invariant
                j <= self.multi_clauses.len(),
                model == self@,
                out@ == " where "@ + conditions_upto(model.clauses, model.clauses.len())
                    + multi_conditions_upto(model.multi_clauses, j as nat),
            decreases self.multi_clauses.len() - j,
        {
            if j > 0 {
                out.append(" and ");
            }
            out.append(self.multi_clauses[j].0.as_str());
            j = j + 1;
        }
        let WhereClauses { clauses, multi_clauses } = self;
        let ghost singles = model.clauses.map_values(|c: ConditionModel| c.value);
        assert(models(values@) =~= singles.take(0));
        for c in it: clauses
            invariant
                it.seq() == clauses@,
                model.clauses == clauses@.map_values(
                    |c: (String, SQLValue, BoolKind)| condition_model(c),
                ),
                singles == model.clauses.map_values(|c: ConditionModel| c.value),
                models(values@) == singles.take(it.index()),
        {
            proof {
                lemma_models_push(values@, c.1);
                assert(singles.take(it.index() + 1) =~= singles.take(it.index()).push(c.1@));
            }
            values.push(c.1);
        }
        assert(singles.take(singles.len() as int) =~= singles);
        for m in it: multi_clauses
            invariant
                it.seq() == multi_clauses@,
                model.multi_clauses == multi_clauses@.map_values(
                    |m: (String, Vec<SQLValue>)| multi_condition_model(m),
                ),
                models(values@) == singles + concat_upto(
                    multi_value_lists(model.multi_clauses),
                    it.index() as nat,
                ),
        {
            let mut list = m.1;
            proof {
                lemma_models_concat(values@, list@);
                assert(multi_value_lists(model.multi_clauses)[it.index()] == models(list@));
            }
            values.append(&mut list);
        }
        (out, values)
    }
}

} // verus!
