use vstd::prelude::*;
use vstd::string::*;
use crate::pairing::{Paired, paired_at, zip_longest};
use crate::sql_value::{SQLValue, ValueModel, models, narrowed_all, lemma_models_push};
use crate::text::{MARKER, split_on, split_markers, splice, splice_upto, piece_at, longest, texts};

verus! {

/// The character that stands for the digit `d`.
pub open spec fn digit(d: nat) -> char {
    if d == 0 {
        '0'
    } else if d == 1 {
        '1'
    } else if d == 2 {
        '2'
    } else if d == 3 {
        '3'
    } else if d == 4 {
        '4'
    } else if d == 5 {
        '5'
    } else if d == 6 {
        '6'
    } else if d == 7 {
        '7'
    } else if d == 8 {
        '8'
    } else {
        '9'
    }
}

/// A number in decimal, without leading zeros.
pub open spec fn decimal(n: nat) -> Seq<char>
    decreases n,
{
    if n < 10 {
        seq![digit(n)]
    } else {
        decimal(n / 10).push(digit(n % 10))
    }
}

/// The token that refers to the bound value at `position`, counted from 1.
pub open spec fn placeholder(position: nat) -> Seq<char> {
    seq!['$'] + decimal(position)
}

/// The tokens for the positions 1 to `n`, in that order.
pub open spec fn placeholders(n: nat) -> Seq<Seq<char>> {
    Seq::new(n, |i: int| placeholder((i + 1) as nat))
}

/// A statement in positional form and the values bound to it.
pub struct StatementModel {
    pub sql: Seq<char>,
    pub binds: Seq<ValueModel>,
}

/// What rendering makes of a template and its values: each marker gives
/// way to the token of the next position, markers without a value vanish,
/// values without a marker have their tokens put at the end, and every value
/// is bound in its wire form.
pub open spec fn rendered(template: Seq<char>, values: Seq<ValueModel>) -> StatementModel {
    StatementModel {
        sql: splice(split_on(template, MARKER), placeholders(values.len())),
        binds: narrowed_all(values),
    }
}

fn digit_str(d: usize) -> (s: &'static str)
    requires
        d < 10,
    ensures
        s@ == seq![digit(d as nat)],
{
    proof {
        reveal_strlit("0");
        reveal_strlit("1");
        reveal_strlit("2");
        reveal_strlit("3");
        reveal_strlit("4");
        reveal_strlit("5");
        reveal_strlit("6");
        reveal_strlit("7");
        reveal_strlit("8");
        reveal_strlit("9");
    }
    let s = if d == 0 {
        "0"
    } else if d == 1 {
        "1"
    } else if d == 2 {
        "2"
    } else if d == 3 {
        "3"
    } else if d == 4 {
        "4"
    } else if d == 5 {
        "5"
    } else if d == 6 {
        "6"
    } else if d == 7 {
        "7"
    } else if d == 8 {
        "8"
    } else {
        "9"
    };
    assert(s@ =~= seq![digit(d as nat)]);
    s
}

/// Appends `n` in decimal.
fn append_decimal(out: &mut String, n: usize)
    ensures
        final(out)@ == old(out)@ + decimal(n as nat),
    decreases n,
{
    if n >= 10 {
        append_decimal(out, n / 10);
    }
    out.append(digit_str(n % 10));
    assert(final(out)@ =~= old(out)@ + decimal(n as nat));
}

/// A statement under construction for a dialect with positional parameters.
pub struct PositionalStatement {
    sql: String,
    binds: Vec<SQLValue>,
}

impl View for PositionalStatement {
    type V = StatementModel;

    closed spec fn view(&self) -> StatementModel {
        StatementModel { sql: self.sql@, binds: models(self.binds@) }
    }
}

impl PositionalStatement {
    /// A statement without text and without values.
    pub fn new() -> (stmt: Self)
        ensures
            stmt@ == (StatementModel {
                sql: Seq::<char>::empty(),
                binds: Seq::<ValueModel>::empty(),
            }),
    {
        let stmt = PositionalStatement { sql: String::new(), binds: Vec::new() };
        assert(models(stmt.binds@) =~= Seq::<ValueModel>::empty());
        stmt
    }

    /// Appends literal text.
    pub fn push(&mut self, text: &str)
        ensures
            final(self)@ == (StatementModel {
                sql: old(self)@.sql + text@,
                binds: old(self)@.binds,
            }),
    {
        self.sql.append(text);
    }

    /// Binds `value` in its wire form at the next position and appends the
    /// token of that position.
    pub fn push_bind(&mut self, value: SQLValue)
        ensures
            final(self)@ == (StatementModel {
                sql: old(self)@.sql + placeholder(old(self)@.binds.len() + 1),
                binds: old(self)@.binds.push(value@.narrowed()),
            }),
    {
        let bound = value.narrow();
        proof {
            lemma_models_push(self.binds@, bound);
        }
        self.binds.push(bound);
        let position = self.binds.len();
        proof {
            reveal_strlit("$");
        }
        self.sql.append("$");
        append_decimal(&mut self.sql, position);
        assert(final(self)@.sql =~= old(self)@.sql + placeholder(old(self)@.binds.len() + 1));
    }

    /// The text so far.
    pub fn sql(&self) -> (text: &str)
        ensures
            text@ == self@.sql,
    {
        self.sql.as_str()
    }

    /// The values bound so far, in the order of their positions.
    pub fn binds(&self) -> (values: &Vec<SQLValue>)
        ensures
            models(values@) == self@.binds,
    {
        &self.binds
    }

    /// The text and the bound values.
    pub fn into_parts(self) -> (out: (String, Vec<SQLValue>))
        ensures
            out.0@ == self@.sql,
            models(out.1@) == self@.binds,
    {
        (self.sql, self.binds)
    }
}

/// Renders a template and its values for a dialect with positional
/// parameters: the markers give way, in order, to the tokens `$1`, `$2`, ...,
/// one for each value, and each value is bound in its wire form.
pub fn render(template: &str, values: Vec<SQLValue>) -> (stmt: PositionalStatement)
    ensures
        stmt@ == rendered(template@, models(values@)),
{
    let mut stmt = PositionalStatement::new();
    let segments = split_markers(template);
    let ghost segs = texts(segments@);
    let ghost vals = models(values@);
    let ghost left = segments@;
    let ghost right = values@;
    let pairs = zip_longest(segments, values);
    assert(stmt@.binds =~= narrowed_all(vals).take(0));
    for pair in it: pairs
        invariant
            it.seq() == pairs@,
            segs == texts(left),
            vals == models(right),
            pairs@.len() == longest(left.len(), right.len()),
            forall|i: int|
                0 <= i < pairs@.len() ==> #[trigger] pairs@[i] == paired_at(left, right, i),
            stmt@.sql == splice_upto(segs, placeholders(vals.len()), it.index() as nat),
            it.index() <= vals.len() ==> stmt@.binds == narrowed_all(vals).take(it.index()),
            it.index() > vals.len() ==> stmt@.binds == narrowed_all(vals),
    {
        let ghost i = it.index();
        assert(pair == paired_at(left, right, i));
        proof {
            if i < vals.len() {
                assert(narrowed_all(vals).take(i + 1) =~= narrowed_all(vals).take(i).push(
                    vals[i].narrowed(),
                ));
                assert(piece_at(placeholders(vals.len()), i) == placeholder((i + 1) as nat));
            }
            if i + 1 > vals.len() && i <= vals.len() {
                assert(narrowed_all(vals).take(i) =~= narrowed_all(vals));
            }
        }
        match pair {
            Paired::Both(segment, value) => {
                stmt.push(segment.as_str());
                stmt.push_bind(value);
            },
            Paired::Left(segment) => {
                stmt.push(segment.as_str());
            },
            Paired::Right(value) => {
                stmt.push_bind(value);
            },
        }
        assert(stmt@.sql =~= splice_upto(segs, placeholders(vals.len()), (i + 1) as nat));
    }
    proof {
        assert(narrowed_all(vals).take(vals.len() as int) =~= narrowed_all(vals));
        assert(placeholders(vals.len()).len() == vals.len());
    }
    stmt
}

} // verus!
