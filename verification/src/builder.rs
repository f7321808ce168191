use vstd::prelude::*;
use vstd::string::*;
use crate::order::OrderDir;
use crate::pairing::{Paired, paired_at, zip_longest};
use crate::sql_value::{
    SQLValue, ValueModel, concat_upto, lemma_models_concat, lemma_models_push, models,
};
use crate::statement::{PositionalStatement, render, rendered};
use crate::text::{
    MARKER, append_joined, append_prefixed, clone_texts, join, longest, prefixed_upto, splice,
    splice_upto, split_markers, split_on, texts,
};
use crate::where_clause::{WhereClauses, WhereModel};
use crate::BoolKind;

verus! {

/// What a statement selects from.
pub enum TableModel {
    /// A plain name.
    Simple(Seq<char>),
    /// A template and the nested statements that take the place of its
    /// markers, in order.
    Complex(Seq<char>, Seq<BuilderModel>),
}

/// The configuration of a statement.
pub struct BuilderModel {
    pub table: TableModel,
    pub select: Seq<Seq<char>>,
    pub group_by: Seq<Seq<char>>,
    pub joins: Seq<Seq<char>>,
    pub where_clause: WhereModel,
    pub limit: Option<u64>,
    pub offset: Option<u64>,
    pub order_by: Option<(Seq<char>, OrderDir)>,
}

/// A text with markers and the values that belong to the markers, in order.
pub struct PartsModel {
    pub text: Seq<char>,
    pub values: Seq<ValueModel>,
}

/// The first `n` of `children`, each assembled on its own.
pub open spec fn assemble_upto(children: Seq<BuilderModel>, n: nat) -> Seq<PartsModel>
    decreases children, n,
{
    if n == 0 || n > children.len() {
        Seq::<PartsModel>::empty()
    } else {
        assemble_upto(children, (n - 1) as nat).push(children[n - 1].assemble())
    }
}

/// Every one of `children` assembled on its own.
pub open spec fn assemble_each(children: Seq<BuilderModel>) -> Seq<PartsModel>
    decreases children, children.len() + 1,
{
    assemble_upto(children, children.len())
}

/// `"*"` where nothing was chosen, else the columns with `", "` between.
pub open spec fn projection_text(select: Seq<Seq<char>>) -> Seq<char> {
    if select.len() == 0 {
        "*"@
    } else {
        join(select, ", "@)
    }
}

/// Nothing where no column was named, else `" group by "` and the columns
/// with `", "` between.
pub open spec fn group_text(group_by: Seq<Seq<char>>) -> Seq<char> {
    if group_by.len() == 0 {
        Seq::<char>::empty()
    } else {
        " group by "@ + join(group_by, ", "@)
    }
}

/// The one sort column and its direction, with a space behind.
pub open spec fn order_text(order_by: Option<(Seq<char>, OrderDir)>) -> Seq<char> {
    match order_by {
        Some((column, dir)) => " order by "@ + column + " "@ + dir.token() + " "@,
        None => Seq::<char>::empty(),
    }
}

/// A bound that is set stands in the text as its keyword and one marker.
pub open spec fn bound_text(keyword: Seq<char>, bound: Option<u64>) -> Seq<char> {
    match bound {
        Some(_) => keyword + seq![MARKER],
        None => Seq::<char>::empty(),
    }
}

/// A bound that is set is the one value of its marker, an unsigned 64-bit
/// integer.
pub open spec fn bound_values(bound: Option<u64>) -> Seq<ValueModel> {
    match bound {
        Some(n) => seq![ValueModel::U64(n)],
        None => Seq::<ValueModel>::empty(),
    }
}

impl TableModel {
    /// The table expression: a plain name as it is; for a template, its
    /// segments interleaved with the assembled children, and the children's
    /// values in the order of the children.
    pub open spec fn assemble(self) -> PartsModel
        decreases self,
    {
        match self {
            TableModel::Simple(name) => PartsModel {
                text: name,
                values: Seq::<ValueModel>::empty(),
            },
            TableModel::Complex(template, children) => {
                let subs = assemble_each(children);
                PartsModel {
                    text: splice(
                        split_on(template, MARKER),
                        subs.map_values(|p: PartsModel| p.text),
                    ),
                    values: concat_upto(
                        subs.map_values(|p: PartsModel| p.values),
                        children.len(),
                    ),
                }
            },
        }
    }
}

impl BuilderModel {
    /// A statement with an empty table name and nothing else.
    pub open spec fn empty() -> BuilderModel {
        BuilderModel {
            table: TableModel::Simple(Seq::<char>::empty()),
            select: Seq::<Seq<char>>::empty(),
            group_by: Seq::<Seq<char>>::empty(),
            joins: Seq::<Seq<char>>::empty(),
            where_clause: WhereModel::empty(),
            limit: None,
            offset: None,
            order_by: None,
        }
    }

    /// The statement as one text with markers, and the values of the
    /// markers in the order in which the markers stand: those of the table
    /// expression, those of the conditions, the limit, the offset.
    pub open spec fn assemble(self) -> PartsModel
        decreases self,
    {
        let table = self.table.assemble();
        PartsModel {
            text: "select "@ + projection_text(self.select) + " from "@ + table.text
                + prefixed_upto(self.joins, " "@, self.joins.len()) + self.where_clause.text()
                + group_text(self.group_by) + order_text(self.order_by) + bound_text(
                " limit "@,
                self.limit,
            ) + bound_text(" offset "@, self.offset),
            values: table.values + self.where_clause.values() + bound_values(self.limit)
                + bound_values(self.offset),
        }
    }

    /// The statement in positional form, with its values in wire form.
    pub open spec fn rendered(self) -> crate::statement::StatementModel {
        rendered(self.assemble().text, self.assemble().values)
    }
}

/// What a statement selects from: a plain name, or a template whose markers
/// stand for nested statements.
pub enum TableType {
    Simple(String),
    Complex(String, Vec<ComposableQueryBuilder>),
}

/// A statement under configuration.
pub struct ComposableQueryBuilder {
    table: TableType,
    select: Vec<String>,
    group_by: Vec<String>,
    joins: Vec<String>,
    where_clause: WhereClauses,
    limit: Option<u64>,
    offset: Option<u64>,
    order_by: Option<(String, OrderDir)>,
}

/// The models of the first `n` of `children`.
spec fn builder_models_upto(children: Seq<ComposableQueryBuilder>, n: nat) -> Seq<
    BuilderModel,
>
    decreases children, n,
{
    if n == 0 || n > children.len() {
        Seq::<BuilderModel>::empty()
    } else {
        builder_models_upto(children, (n - 1) as nat).push(children[n - 1].view())
    }
}

/// The models of a sequence of builders.
pub open spec fn builder_models(children: Seq<ComposableQueryBuilder>) -> Seq<BuilderModel> {
    Seq::new(children.len(), |i: int| children[i]@)
}

/// The sort column as text, with its direction.
pub open spec fn order_model(order_by: Option<(String, OrderDir)>) -> Option<
    (Seq<char>, OrderDir),
> {
    match order_by {
        Some((column, dir)) => Some((column@, dir)),
        None => None,
    }
}

impl TableType {
    /// What this table expression stands for.
    pub closed spec fn view(&self) -> TableModel
        decreases self,
    {
        match self {
            TableType::Simple(name) => TableModel::Simple(name@),
            TableType::Complex(template, children) => TableModel::Complex(
                template@,
                builder_models_upto(children@, children@.len()),
            ),
        }
    }
}

impl ComposableQueryBuilder {
    /// The configuration that this builder holds.
    pub closed spec fn view(&self) -> BuilderModel
        decreases self,
    {
        BuilderModel {
            table: self.table.view(),
            select: texts(self.select@),
            group_by: texts(self.group_by@),
            joins: texts(self.joins@),
            where_clause: self.where_clause@,
            limit: self.limit,
            offset: self.offset,
            order_by: order_model(self.order_by),
        }
    }
}

proof fn lemma_builder_models_upto(children: Seq<ComposableQueryBuilder>, n: nat)
    requires
        n <= children.len(),
    ensures
        builder_models_upto(children, n) == builder_models(children).take(n as int),
    decreases n,
{
    if n > 0 {
        lemma_builder_models_upto(children, (n - 1) as nat);
        assert(builder_models(children).take(n as int) =~= builder_models(children).take(
            n - 1,
        ).push(children[n - 1]@));
    } else {
        assert(builder_models(children).take(0) =~= Seq::<BuilderModel>::empty());
    }
}

/// The model of a table expression is made of the models of its parts.
pub proof fn lemma_table_view(table: TableType)
    ensures
        table matches TableType::Simple(name) ==> table@ == TableModel::Simple(name@),
        table matches TableType::Complex(template, children) ==> table@ == TableModel::Complex(
            template@,
            builder_models(children@),
        ),
{
    match table {
        TableType::Simple(_) => {},
        TableType::Complex(_, children) => {
            lemma_builder_models_upto(children@, children@.len());
            assert(builder_models(children@).take(children@.len() as int) =~= builder_models(
                children@,
            ));
        },
    }
}

/// The first `n` assembled children, position by position.
proof fn lemma_assemble_upto(children: Seq<BuilderModel>, n: nat)
    requires
        n <= children.len(),
    ensures
        assemble_upto(children, n).len() == n,
        forall|k: int| 0 <= k < n ==> #[trigger] assemble_upto(children, n)[k]
            == children[k].assemble(),
    decreases n,
{
    if n > 0 {
        lemma_assemble_upto(children, (n - 1) as nat);
    }
}

impl Clone for TableType {
    fn clone(&self) -> (copy: TableType)
        ensures
            copy@ == self@,
        decreases self,
    {
        proof {
            lemma_table_view(*self);
        }
        let copy = match self {
            TableType::Simple(name) => TableType::Simple(name.clone()),
            TableType::Complex(template, children) => {
                let mut kids: Vec<ComposableQueryBuilder> = Vec::new();
                let mut i: usize = 0;
                proof {
                    assert(decreases_to!(self => children));
                    assert(decreases_to!(children => children@));
                    assert forall|k: int| 0 <= k < children@.len() implies decreases_to!(
                        self => #[trigger] children@[k]
                    ) by {
                        assert(decreases_to!(children@ => children@[k]));
                    }
                }
                while i < children.len()
                    invariant
                        i <= children.len(),
                        forall|k: int|
                            0 <= k < children@.len() ==> decreases_to!(
                                self => #[trigger] children@[k]
                            ),
                        kids@.len() == i,
                        forall|k: int| 0 <= k < i ==> kids@[k]@ == children@[k]@,
                    decreases children.len() - i,
                {
                    kids.push(children[i].clone());
                    i = i + 1;
                }
                assert(builder_models(kids@) =~= builder_models(children@));
                TableType::Complex(template.clone(), kids)
            },
        };
        proof {
            lemma_table_view(copy);
        }
        copy
    }
}

impl Clone for ComposableQueryBuilder {
    fn clone(&self) -> (copy: ComposableQueryBuilder)
        ensures
            copy@ == self@,
        decreases self,
    {
        let order_by = match &self.order_by {
            Some((column, dir)) => Some((column.clone(), *dir)),
            None => None,
        };
        ComposableQueryBuilder {
            table: self.table.clone(),
            select: clone_texts(&self.select),
            group_by: clone_texts(&self.group_by),
            joins: clone_texts(&self.joins),
            where_clause: self.where_clause.clone(),
            limit: self.limit,
            offset: self.offset,
            order_by,
        }
    }
}

impl TableType {
    /// Appends the table expression to `text` and its values to `vals`.
    fn assemble_into(self, text: &mut String, vals: &mut Vec<SQLValue>)
        ensures
            final(text)@ == old(text)@ + self@.assemble().text,
            models(final(vals)@) == models(old(vals)@) + self@.assemble().values,
        decreases self,
    {
        let ghost head = text@;
        let ghost before = models(vals@);
        proof {
            lemma_table_view(self);
        }
        match self {
            TableType::Simple(name) => {
                text.append(name.as_str());
                assert(models(vals@) =~= before + Seq::<ValueModel>::empty());
            },
            TableType::Complex(template, children) => {
                let segments = split_markers(template.as_str());
                let ghost segs = texts(segments@);
                let ghost kids = children@;
                let ghost left = segments@;
                let ghost subs = assemble_each(builder_models(kids));
                let ghost sub_texts = subs.map_values(|p: PartsModel| p.text);
                let ghost sub_values = subs.map_values(|p: PartsModel| p.values);
                proof {
                    assert(decreases_to!(self => children));
                    assert(decreases_to!(children => children@));
                    assert forall|k: int| 0 <= k < kids.len() implies decreases_to!(
                        self => #[trigger] kids[k]
                    ) by {
                        assert(decreases_to!(kids => kids[k]));
                    }
                }
                let pairs = zip_longest(segments, children);
                proof {
                    lemma_assemble_upto(builder_models(kids), kids.len());
                    assert(text@ =~= head + splice_upto(segs, sub_texts, 0));
                    assert(models(vals@) =~= before + concat_upto(sub_values, 0));
                }
                for pair in it: pairs
                    invariant
                        it.seq() == pairs@,
                        segs == texts(left),
                        pairs@.len() == longest(left.len(), kids.len()),
                        forall|i: int|
                            0 <= i < pairs@.len() ==> #[trigger] pairs@[i] == paired_at(
                                left,
                                kids,
                                i,
                            ),
                        forall|k: int|
                            0 <= k < kids.len() ==> decreases_to!(self => #[trigger] kids[k]),
                        subs.len() == kids.len(),
                        forall|k: int|
                            0 <= k < kids.len() ==> #[trigger] subs[k] == kids[k]@.assemble(),
                        sub_texts == subs.map_values(|p: PartsModel| p.text),
                        sub_values == subs.map_values(|p: PartsModel| p.values),
                        text@ == head + splice_upto(segs, sub_texts, it.index() as nat),
                        models(vals@) == before + concat_upto(sub_values, it.index() as nat),
                {
                    let ghost i = it.index();
                    assert(pair == paired_at(left, kids, i));
                    match pair {
                        Paired::Both(segment, qb) => {
                            assert(qb == kids[i]);
                            text.append(segment.as_str());
                            let (sub_text, mut sub_vals) = qb.parts();
                            proof {
                                lemma_models_concat(vals@, sub_vals@);
                            }
                            text.append(sub_text.as_str());
                            vals.append(&mut sub_vals);
                        },
                        Paired::Left(segment) => {
                            text.append(segment.as_str());
                        },
                        Paired::Right(qb) => {
                            assert(qb == kids[i]);
                            let (sub_text, mut sub_vals) = qb.parts();
                            proof {
                                lemma_models_concat(vals@, sub_vals@);
                            }
                            text.append(sub_text.as_str());
                            vals.append(&mut sub_vals);
                        },
                    }
                    assert(text@ =~= head + splice_upto(segs, sub_texts, (i + 1) as nat));
                    assert(models(vals@) =~= before + concat_upto(sub_values, (i + 1) as nat));
                }
                proof {
                    lemma_concat_past_end(sub_values, longest(left.len(), kids.len()));
                }
            },
        }
    }
}

fn append_projection(text: &mut String, select: &Vec<String>)
    ensures
        final(text)@ == old(text)@ + projection_text(texts(select@)),
{
    if select.is_empty() {
        text.append("*");
    } else {
        append_joined(text, select, ", ");
    }
}

fn append_group(text: &mut String, group_by: &Vec<String>)
    ensures
        final(text)@ == old(text)@ + group_text(texts(group_by@)),
{
    if !group_by.is_empty() {
        text.append(" group by ");
        append_joined(text, group_by, ", ");
        assert(final(text)@ =~= old(text)@ + group_text(texts(group_by@)));
    } else {
        assert(final(text)@ =~= old(text)@ + group_text(texts(group_by@)));
    }
}

fn append_order(text: &mut String, order_by: &Option<(String, OrderDir)>)
    ensures
        final(text)@ == old(text)@ + order_text(order_model(*order_by)),
{
    match order_by {
        Some((column, dir)) => {
            text.append(" order by ");
            text.append(column.as_str());
            text.append(" ");
            text.append(dir.as_str());
            text.append(" ");
        },
        None => {},
    }
    assert(final(text)@ =~= old(text)@ + order_text(order_model(*order_by)));
}

/// Appends the keyword and a marker for a bound that is set, and the bound
/// as the marker's value.
fn append_bound(
    text: &mut String,
    vals: &mut Vec<SQLValue>,
    keyword: &str,
    bound: Option<u64>,
)
    ensures
        final(text)@ == old(text)@ + bound_text(keyword@, bound),
        models(final(vals)@) == models(old(vals)@) + bound_values(bound),
{
    match bound {
        Some(n) => {
            proof {
                reveal_strlit("?");
                lemma_models_push(vals@, SQLValue::U64(n));
            }
            text.append(keyword);
            text.append("?");
            vals.push(SQLValue::U64(n));
            assert("?"@ =~= seq![MARKER]);
        },
        None => {},
    }
    assert(final(text)@ =~= old(text)@ + bound_text(keyword@, bound));
    assert(models(final(vals)@) =~= models(old(vals)@) + bound_values(bound));
}

impl ComposableQueryBuilder {
    /// A statement on a table with an empty name, with nothing chosen and
    /// no condition.
    pub fn new() -> (builder: Self)
        ensures
            builder@ == BuilderModel::empty(),
    {
        let builder = ComposableQueryBuilder {
            table: TableType::Simple(String::new()),
            select: Vec::new(),
            group_by: Vec::new(),
            joins: Vec::new(),
            where_clause: WhereClauses::new(),
            limit: None,
            offset: None,
            order_by: None,
        };
        proof {
            lemma_table_view(builder.table);
            assert(builder@.select =~= Seq::<Seq<char>>::empty());
            assert(builder@.group_by =~= Seq::<Seq<char>>::empty());
            assert(builder@.joins =~= Seq::<Seq<char>>::empty());
        }
        builder
    }

    /// Sets a plain table name, in place of any table expression set before.
    pub fn table(self, table: &str) -> (builder: Self)
        ensures
            builder@ == (BuilderModel { table: TableModel::Simple(table@), ..self@ }),
    {
        let mut builder = self;
        builder.table = TableType::Simple(String::from_str(table));
        proof {
            lemma_table_view(builder.table);
        }
        builder
    }

    /// Sets a table expression made of a template and of the nested
    /// statements that take the place of its markers, in place of any table
    /// expression set before.
    pub fn complex_table(
        self,
        complex_table: &str,
        parts: Vec<ComposableQueryBuilder>,
    ) -> (builder: Self)
        ensures
            builder@ == (BuilderModel {
                table: TableModel::Complex(complex_table@, builder_models(parts@)),
                ..self@
            }),
    {
        let mut builder = self;
        builder.table = TableType::Complex(String::from_str(complex_table), parts);
        proof {
            lemma_table_view(builder.table);
        }
        builder
    }

    /// Adds one column to the projection.
    pub fn select(self, select: &str) -> (builder: Self)
        ensures
            builder@ == (BuilderModel { select: self@.select.push(select@), ..self@ }),
    {
        let mut builder = self;
        builder.select.push(String::from_str(select));
        assert(builder@.select =~= self@.select.push(select@));
        builder
    }

    /// Adds columns to the projection, in their order.
    pub fn select_many(self, select: Vec<String>) -> (builder: Self)
        ensures
            builder@ == (BuilderModel { select: self@.select + texts(select@), ..self@ }),
    {
        let mut builder = self;
        let mut more = select;
        builder.select.append(&mut more);
        assert(builder@.select =~= self@.select + texts(select@));
        builder
    }

    /// Adds one column to group by.
    pub fn group_by(self, group_by: &str) -> (builder: Self)
        ensures
            builder@ == (BuilderModel { group_by: self@.group_by.push(group_by@), ..self@ }),
    {
        let mut builder = self;
        builder.group_by.push(String::from_str(group_by));
        assert(builder@.group_by =~= self@.group_by.push(group_by@));
        builder
    }

    /// Adds columns to group by, in their order.
    pub fn group_by_many(self, group_by: Vec<String>) -> (builder: Self)
        ensures
            builder@ == (BuilderModel { group_by: self@.group_by + texts(group_by@), ..self@ }),
    {
        let mut builder = self;
        let mut more = group_by;
        builder.group_by.append(&mut more);
        assert(builder@.group_by =~= self@.group_by + texts(group_by@));
        builder
    }

    /// Adds a join as raw text.
    pub fn join(self, join: &str) -> (builder: Self)
        ensures
            builder@ == (BuilderModel { joins: self@.joins.push(join@), ..self@ }),
    {
        let mut builder = self;
        builder.joins.push(String::from_str(join));
        assert(builder@.joins =~= self@.joins.push(join@));
        builder
    }

    /// Adds a condition with one marker, joined to the next one by `and`.
    pub fn where_clause(self, where_clause: &str, v: SQLValue) -> (builder: Self)
        ensures
            builder@ == (BuilderModel {
                where_clause: self@.where_clause.with_condition(where_clause@, v@, BoolKind::And),
                ..self@
            }),
    {
        let mut builder = self;
        builder.where_clause.push(String::from_str(where_clause), v, BoolKind::And);
        builder
    }

    /// Adds a condition with one marker, joined to the next one by `or`.
    pub fn or_where(self, where_clause: &str, v: SQLValue) -> (builder: Self)
        ensures
            builder@ == (BuilderModel {
                where_clause: self@.where_clause.with_condition(where_clause@, v@, BoolKind::Or),
                ..self@
            }),
    {
        let mut builder = self;
        builder.where_clause.push(String::from_str(where_clause), v, BoolKind::Or);
        builder
    }

    /// Adds a condition with several markers and their values.
    pub fn multi_where(self, where_clause: &str, v: Vec<SQLValue>) -> (builder: Self)
        ensures
            builder@ == (BuilderModel {
                where_clause: self@.where_clause.with_multi(where_clause@, models(v@)),
                ..self@
            }),
    {
        let mut builder = self;
        builder.where_clause.push_multi(String::from_str(where_clause), v);
        builder
    }

    /// Adds the condition that `cb` makes, joined by `and`, if `condition`
    /// holds; `cb` is called in that case only.
    pub fn where_if<F: Fn() -> (String, SQLValue)>(self, condition: bool, cb: F) -> (builder:
        Self)
        requires
            condition ==> cb.requires(()),
        ensures
            !condition ==> builder@ == self@,
            condition ==> exists|made: (String, SQLValue)|
                cb.ensures((), made) && builder@ == (BuilderModel {
                    where_clause: self@.where_clause.with_condition(
                        made.0@,
                        made.1@,
                        BoolKind::And,
                    ),
                    ..self@
                }),
    {
        if !condition {
            return self;
        }
        let mut builder = self;
        let made = cb();
        let ghost seen = made;
        let (s, v) = made;
        builder.where_clause.push(s, v, BoolKind::And);
        assert(cb.ensures((), seen) && builder@ == (BuilderModel {
            where_clause: self@.where_clause.with_condition(seen.0@, seen.1@, BoolKind::And),
            ..self@
        }));
        builder
    }

    /// Sets the limit.
    pub fn limit(self, limit: u64) -> (builder: Self)
        ensures
            builder@ == (BuilderModel { limit: Some(limit), ..self@ }),
    {
        let mut builder = self;
        builder.limit = Some(limit);
        builder
    }

    /// Sets the limit, or takes it away.
    pub fn limit_opt(self, limit: Option<u64>) -> (builder: Self)
        ensures
            builder@ == (BuilderModel { limit: limit, ..self@ }),
    {
        let mut builder = self;
        match limit {
            Some(limit) => builder.limit = Some(limit),
            None => builder.limit = None,
        }
        builder
    }

    /// Sets the offset.
    pub fn offset(self, offset: u64) -> (builder: Self)
        ensures
            builder@ == (BuilderModel { offset: Some(offset), ..self@ }),
    {
        let mut builder = self;
        builder.offset = Some(offset);
        builder
    }

    /// Sets the offset, or takes it away.
    pub fn offset_opt(self, offset: Option<u64>) -> (builder: Self)
        ensures
            builder@ == (BuilderModel { offset: offset, ..self@ }),
    {
        let mut builder = self;
        match offset {
            Some(offset) => builder.offset = Some(offset),
            None => builder.offset = None,
        }
        builder
    }

    /// Sets the one sort column and its direction, in place of any set
    /// before.
    pub fn order_by(self, col: &str, dir: OrderDir) -> (builder: Self)
        ensures
            builder@ == (BuilderModel { order_by: Some((col@, dir)), ..self@ }),
    {
        let mut builder = self;
        builder.order_by = Some((String::from_str(col), dir));
        builder
    }

    /// The statement for a dialect with positional parameters: the
    /// assembled text with the tokens `$1`, `$2`, ... in place of its
    /// markers, and the assembled values bound in that order, each in its wire
    /// form.
    pub fn into_builder(self) -> (stmt: PositionalStatement)
        ensures
            stmt@ == self@.rendered(),
    {
        let (text, values) = self.parts();
        render(text.as_str(), values)
    }

    /// Assembles the statement: one text with markers, and the values that
    /// belong to the markers, in the order of the markers.
    pub fn parts(self) -> (out: (String, Vec<SQLValue>))
        ensures
            out.0@ == self@.assemble().text,
            models(out.1@) == self@.assemble().values,
        decreases self,
    {
        let ghost model = self@;
        let ComposableQueryBuilder {
            table,
            select,
            group_by,
            joins,
            where_clause,
            limit,
            offset,
            order_by,
        } = self;
        let mut vals: Vec<SQLValue> = Vec::new();
        let mut text = String::from_str("select ");
        append_projection(&mut text, &select);
        text.append(" from ");
        assert(models(vals@) =~= Seq::<ValueModel>::empty());
        table.assemble_into(&mut text, &mut vals);
        append_prefixed(&mut text, &joins, " ");
        let (where_text, mut where_values) = where_clause.parts();
        proof {
            lemma_models_concat(vals@, where_values@);
        }
        text.append(where_text.as_str());
        vals.append(&mut where_values);
        append_group(&mut text, &group_by);
        append_order(&mut text, &order_by);
        append_bound(&mut text, &mut vals, " limit ", limit);
        append_bound(&mut text, &mut vals, " offset ", offset);
        assert(text@ =~= model.assemble().text);
        assert(models(vals@) =~= model.assemble().values);
        (text, vals)
    }
}

/// Positions past the end of the lists add nothing.
proof fn lemma_concat_past_end(lists: Seq<Seq<ValueModel>>, n: nat)
    requires
        n >= lists.len(),
    ensures
        concat_upto(lists, n) == concat_upto(lists, lists.len()),
    decreases n,
{
    if n > lists.len() {
        lemma_concat_past_end(lists, (n - 1) as nat);
    }
}

} // verus!
