use vstd::prelude::*;
use crate::builder::{
    BuilderModel, ComposableQueryBuilder, PartsModel, TableModel, assemble_each, bound_values,
};
use crate::sql_value::{ValueModel, concat_upto, narrowed_all};
use crate::statement::{decimal, digit, placeholder, placeholders, rendered};
use crate::text::{MARKER, join, join_upto, longest, piece_at, splice, splice_upto, split_on};
use crate::where_clause::{ConditionModel, WhereModel, multi_value_lists};
use crate::BoolKind;

verus! {

/// How often `m` occurs in `s`.
pub open spec fn occurrences(s: Seq<char>, m: char) -> nat
    decreases s.len(),
{
    if s.len() == 0 {
        0
    } else {
        occurrences(s.drop_last(), m) + if s.last() == m {
            1nat
        } else {
            0nat
        }
    }
}

/// The lengths of the first `n` pieces, added up.
pub open spec fn total_len(pieces: Seq<Seq<char>>, n: nat) -> nat
    decreases n,
{
    if n == 0 {
        0
    } else {
        total_len(pieces, (n - 1) as nat) + piece_at(pieces, n - 1).len()
    }
}

/// A text with `n` markers has `n + 1` segments, and no segment holds a
/// marker.
pub proof fn lemma_split_segments(s: Seq<char>, m: char)
    ensures
        split_on(s, m).len() == occurrences(s, m) + 1,
        forall|i: int, j: int|
            0 <= i < split_on(s, m).len() && 0 <= j < split_on(s, m)[i].len() ==> split_on(
                s,
                m,
            )[i][j] != m,
    decreases s.len(),
{
    if s.len() > 0 {
        lemma_split_segments(s.drop_last(), m);
    }
}

proof fn lemma_join_prefix(a: Seq<Seq<char>>, b: Seq<Seq<char>>, sep: Seq<char>, n: nat)
    requires
        n <= a.len(),
        n <= b.len(),
        forall|i: int| 0 <= i < n ==> a[i] == b[i],
    ensures
        join_upto(a, sep, n) == join_upto(b, sep, n),
    decreases n,
{
    if n > 1 {
        lemma_join_prefix(a, b, sep, (n - 1) as nat);
    }
}

/// The segments of a text, put together again with the marker between
/// them, are the text.
pub proof fn lemma_split_then_join(s: Seq<char>, m: char)
    ensures
        join(split_on(s, m), seq![m]) == s,
    decreases s.len(),
{
    let sep = seq![m];
    if s.len() == 0 {
        assert(join(split_on(s, m), sep) =~= s);
    } else {
        let head = split_on(s.drop_last(), m);
        let all = split_on(s, m);
        lemma_split_then_join(s.drop_last(), m);
        lemma_split_segments(s.drop_last(), m);
        let k = head.len();
        if s.last() == m {
            lemma_join_prefix(all, head, sep, k);
            assert(join_upto(all, sep, k + 1) == join_upto(all, sep, k) + sep + all[k as int]);
            assert(join(all, sep) =~= s.drop_last().push(m));
        } else {
            if k == 1 {
                assert(join(all, sep) =~= s.drop_last().push(s.last()));
            } else {
                lemma_join_prefix(all, head, sep, (k - 1) as nat);
                assert(join_upto(head, sep, k) == join_upto(head, sep, (k - 1) as nat) + sep
                    + head[k - 1]);
                assert(join_upto(all, sep, k) == join_upto(all, sep, (k - 1) as nat) + sep
                    + all[k - 1]);
                assert(join(all, sep) =~= s.drop_last().push(s.last()));
            }
        }
        assert(s.drop_last().push(s.last()) =~= s);
    }
}

/// Text without a marker is one segment.
pub proof fn lemma_split_plain(s: Seq<char>, m: char)
    requires
        forall|j: int| 0 <= j < s.len() ==> s[j] != m,
    ensures
        split_on(s, m) == seq![s],
    decreases s.len(),
{
    if s.len() == 0 {
        assert(s =~= Seq::<char>::empty());
    } else {
        lemma_split_plain(s.drop_last(), m);
        let head = split_on(s.drop_last(), m);
        assert(head.last() == s.drop_last());
        assert(s.drop_last().push(s.last()) =~= s);
        assert(s.last() == s[s.len() - 1]);
        assert(head.update(head.len() - 1, head.last().push(s.last())) =~= seq![s]);
    }
}

/// Text without a marker, put behind a text, lengthens the last segment
/// of that text.
pub proof fn lemma_split_append_plain(a: Seq<char>, b: Seq<char>, m: char)
    requires
        forall|j: int| 0 <= j < b.len() ==> b[j] != m,
    ensures
        split_on(a + b, m).len() == split_on(a, m).len(),
        split_on(a + b, m) == split_on(a, m).update(
            split_on(a, m).len() - 1,
            split_on(a, m).last() + b,
        ),
    decreases b.len(),
{
    lemma_split_segments(a, m);
    let segs = split_on(a, m);
    if b.len() == 0 {
        assert(a + b =~= a);
        assert(segs.last() + b =~= segs.last());
        assert(segs.update(segs.len() - 1, segs.last()) =~= segs);
    } else {
        lemma_split_append_plain(a, b.drop_last(), m);
        let whole = a + b;
        assert(whole.drop_last() =~= a + b.drop_last());
        assert(whole.last() == b.last());
        let head = split_on(a + b.drop_last(), m);
        assert((segs.last() + b.drop_last()).push(b.last()) =~= segs.last() + b);
        assert(head.update(head.len() - 1, head.last().push(b.last())) =~= segs.update(
            segs.len() - 1,
            segs.last() + b,
        ));
    }
}

/// Splitting undoes joining: texts without a marker, joined by the
/// marker, are split into the same texts again.
pub proof fn lemma_join_then_split(segments: Seq<Seq<char>>, m: char, n: nat)
    requires
        1 <= n <= segments.len(),
        forall|i: int, j: int|
            0 <= i < segments.len() && 0 <= j < segments[i].len() ==> segments[i][j] != m,
    ensures
        split_on(join_upto(segments, seq![m], n), m) == segments.take(n as int),
    decreases n,
{
    let sep = seq![m];
    if n == 1 {
        lemma_split_plain(segments[0], m);
        assert(segments.take(1) =~= seq![segments[0]]);
    } else {
        lemma_join_then_split(segments, m, (n - 1) as nat);
        let before = join_upto(segments, sep, (n - 1) as nat);
        let marked = before + sep;
        assert(marked =~= before.push(m));
        assert(marked.drop_last() =~= before);
        assert(split_on(marked, m) == split_on(before, m).push(Seq::<char>::empty()));
        lemma_split_append_plain(marked, segments[n - 1], m);
        assert(Seq::<char>::empty() + segments[n - 1] =~= segments[n - 1]);
        assert(split_on(marked + segments[n - 1], m) =~= segments.take(n as int));
    }
}

/// Interleaving loses nothing and adds nothing: the result is as long as
/// all segments and all inserts together.
pub proof fn lemma_splice_len(segments: Seq<Seq<char>>, inserts: Seq<Seq<char>>, n: nat)
    ensures
        splice_upto(segments, inserts, n).len() == total_len(segments, n) + total_len(inserts, n),
    decreases n,
{
    if n > 0 {
        lemma_splice_len(segments, inserts, (n - 1) as nat);
    }
}

/// With one insert for every marker, the result is the first segment, then
/// for each insert the insert and the segment behind its marker.
pub proof fn lemma_splice_matched(segments: Seq<Seq<char>>, inserts: Seq<Seq<char>>)
    requires
        segments.len() == inserts.len() + 1,
    ensures
        splice(segments, inserts) == splice_upto(segments, inserts, inserts.len())
            + segments.last(),
{
    let n = inserts.len();
    assert(longest(segments.len(), n) == n + 1);
    assert(piece_at(inserts, n as int) =~= Seq::<char>::empty());
    assert(splice(segments, inserts) =~= splice_upto(segments, inserts, n) + segments.last());
}

proof fn lemma_decimal_len(n: nat)
    ensures
        decimal(n).len() >= 1,
        n >= 10 ==> decimal(n).len() >= 2,
    decreases n,
{
    if n >= 10 {
        lemma_decimal_len(n / 10);
    }
}

/// Two numbers with the same decimal form are the same number.
pub proof fn lemma_decimal_injective(a: nat, b: nat)
    requires
        decimal(a) == decimal(b),
    ensures
        a == b,
    decreases a,
{
    lemma_decimal_len(a);
    lemma_decimal_len(b);
    if a < 10 && b < 10 {
        assert(decimal(a)[0] == digit(a));
        assert(decimal(b)[0] == digit(b));
    } else if a >= 10 && b >= 10 {
        let da = decimal(a / 10);
        let db = decimal(b / 10);
        assert(decimal(a).drop_last() =~= da);
        assert(decimal(b).drop_last() =~= db);
        assert(decimal(a).last() == digit(a % 10));
        assert(decimal(b).last() == digit(b % 10));
        lemma_decimal_injective(a / 10, b / 10);
    } else {
        assert(decimal(a).len() != decimal(b).len());
    }
}

/// Different positions have different tokens.
pub proof fn lemma_placeholders_differ(i: nat, j: nat)
    requires
        i != j,
    ensures
        placeholder(i) != placeholder(j),
{
    if placeholder(i) == placeholder(j) {
        assert(placeholder(i).subrange(1, placeholder(i).len() as int) =~= decimal(i));
        assert(placeholder(j).subrange(1, placeholder(j).len() as int) =~= decimal(j));
        lemma_decimal_injective(i, j);
    }
}

/// Rendering a template with `v` values binds `v` values, the i-th
/// assembled value in wire form at position i, and puts into the text the
/// tokens of the positions 1 to `v`, each once and in rising order, between
/// the segments of the template; nothing else is added, and only the markers
/// are taken away.
pub proof fn lemma_render_round_trip(template: Seq<char>, values: Seq<ValueModel>)
    ensures
        rendered(template, values).binds.len() == values.len(),
        forall|i: int|
            0 <= i < values.len() ==> rendered(template, values).binds[i] == values[i].narrowed(),
        placeholders(values.len()).len() == values.len(),
        forall|i: int|
            0 <= i < values.len() ==> #[trigger] placeholders(values.len())[i] == placeholder(
                (i + 1) as nat,
            ),
        forall|i: int, j: int|
            0 <= i < j < values.len() ==> placeholders(values.len())[i] != placeholders(
                values.len(),
            )[j],
        rendered(template, values).sql == splice(
            split_on(template, MARKER),
            placeholders(values.len()),
        ),
        rendered(template, values).sql.len() == total_len(
            split_on(template, MARKER),
            longest(split_on(template, MARKER).len(), values.len()),
        ) + total_len(
            placeholders(values.len()),
            longest(split_on(template, MARKER).len(), values.len()),
        ),
{
    let tokens = placeholders(values.len());
    assert forall|i: int, j: int| 0 <= i < j < values.len() implies tokens[i] != tokens[j] by {
        lemma_placeholders_differ((i + 1) as nat, (j + 1) as nat);
    }
    lemma_splice_len(
        split_on(template, MARKER),
        tokens,
        longest(split_on(template, MARKER).len(), values.len()),
    );
}

/// A statement binds as many values as its assembly yields, in the same
/// order.
pub proof fn lemma_statement_binds_every_value(builder: BuilderModel)
    ensures
        builder.rendered().binds == narrowed_all(builder.assemble().values),
        builder.rendered().binds.len() == builder.assemble().values.len(),
{
}

/// Assembly is a function of the configuration: two builders with the
/// same configuration, such as a builder and its copy, assemble and render
/// to the same output.
pub proof fn lemma_assemble_deterministic(a: ComposableQueryBuilder, b: ComposableQueryBuilder)
    requires
        a@ == b@,
    ensures
        a@.assemble() == b@.assemble(),
        a@.rendered() == b@.rendered(),
{
}

/// The two condition lists are filled independently: adding a multi-value
/// condition before or after a single-value one gives the same set, and the
/// values of the single-value conditions always come first.
pub proof fn lemma_condition_lists_independent(
    set: WhereModel,
    template: Seq<char>,
    value: ValueModel,
    joiner: BoolKind,
    multi_template: Seq<char>,
    multi_values: Seq<ValueModel>,
)
    ensures
        set.with_multi(multi_template, multi_values).with_condition(template, value, joiner)
            == set.with_condition(template, value, joiner).with_multi(
            multi_template,
            multi_values,
        ),
        set.with_condition(template, value, joiner).with_multi(
            multi_template,
            multi_values,
        ).values() == set.clauses.map_values(|c: ConditionModel| c.value).push(value)
            + concat_upto(multi_value_lists(set.multi_clauses), set.multi_clauses.len())
            + multi_values,
{
    let both = set.with_condition(template, value, joiner).with_multi(
        multi_template,
        multi_values,
    );
    lemma_concat_prefix(
        multi_value_lists(both.multi_clauses),
        multi_value_lists(set.multi_clauses),
        set.multi_clauses.len(),
    );
    assert(both.clauses.map_values(|c: ConditionModel| c.value) =~= set.clauses.map_values(
        |c: ConditionModel| c.value,
    ).push(value));
    assert(both.values() =~= set.clauses.map_values(|c: ConditionModel| c.value).push(value)
        + concat_upto(multi_value_lists(set.multi_clauses), set.multi_clauses.len())
        + multi_values);
}

proof fn lemma_concat_prefix(a: Seq<Seq<ValueModel>>, b: Seq<Seq<ValueModel>>, n: nat)
    requires
        n <= a.len(),
        n <= b.len(),
        forall|i: int| 0 <= i < n ==> a[i] == b[i],
    ensures
        concat_upto(a, n) == concat_upto(b, n),
    decreases n,
{
    if n > 0 {
        lemma_concat_prefix(a, b, (n - 1) as nat);
    }
}

/// The values of a list of children stand in the order of the children:
/// those of child `i` fill one stretch of the whole, which begins where the
/// values of the children before it end.
pub proof fn lemma_child_values_in_order(lists: Seq<Seq<ValueModel>>, i: int, n: nat)
    requires
        0 <= i < n <= lists.len(),
    ensures
        concat_upto(lists, i as nat).len() + lists[i].len() <= concat_upto(lists, n).len(),
        concat_upto(lists, n).subrange(
            concat_upto(lists, i as nat).len() as int,
            (concat_upto(lists, i as nat).len() + lists[i].len()) as int,
        ) == lists[i],
        concat_upto(lists, n).take(concat_upto(lists, i as nat).len() as int) == concat_upto(
            lists,
            i as nat,
        ),
    decreases n,
{
    let before = concat_upto(lists, i as nat);
    if n == i + 1 {
        assert(concat_upto(lists, n) == before + lists[i]);
        assert((before + lists[i]).subrange(
            before.len() as int,
            (before.len() + lists[i].len()) as int,
        )
            =~= lists[i]);
        assert((before + lists[i]).take(before.len() as int) =~= before);
    } else {
        lemma_child_values_in_order(lists, i, (n - 1) as nat);
        let shorter = concat_upto(lists, (n - 1) as nat);
        assert(concat_upto(lists, n) == shorter + lists[n - 1]);
        assert((shorter + lists[n - 1]).subrange(
            before.len() as int,
            (before.len() + lists[i].len()) as int,
        ) =~= shorter.subrange(
            before.len() as int,
            (before.len() + lists[i].len()) as int,
        ));
        assert((shorter + lists[n - 1]).take(before.len() as int) =~= shorter.take(
            before.len() as int,
        ));
    }
}

/// A nested statement gives its values before everything that follows it
/// in its parent: the parent's values begin with the values of its table
/// expression, where each child's values stand in the child's place, and go
/// on with the parent's own conditions, limit and offset.
pub proof fn lemma_values_depth_first(builder: BuilderModel)
    ensures
        builder.assemble().values == builder.table.assemble().values
            + builder.where_clause.values() + bound_values(builder.limit) + bound_values(
            builder.offset,
        ),
        builder.table matches TableModel::Complex(_, children) ==> builder.table.assemble().values
            == concat_upto(
            assemble_each(children).map_values(|p: PartsModel| p.values),
            children.len(),
        ),
        builder.table matches TableModel::Simple(_) ==> builder.table.assemble().values
            == Seq::<ValueModel>::empty(),
{
}

/// A template with one marker and one child is the text before the
/// marker, the assembled child, and the text behind the marker; the values
/// are the child's.
pub proof fn lemma_one_child_in_place(before: Seq<char>, after: Seq<char>, child: BuilderModel)
    requires
        forall|j: int| 0 <= j < before.len() ==> before[j] != MARKER,
        forall|j: int| 0 <= j < after.len() ==> after[j] != MARKER,
    ensures
        TableModel::Complex(before + seq![MARKER] + after, seq![child]).assemble().text == before
            + child.assemble().text + after,
        TableModel::Complex(before + seq![MARKER] + after, seq![child]).assemble().values
            == child.assemble().values,
{
    let template = before + seq![MARKER] + after;
    let segments = seq![before, after];
    lemma_join_then_split(segments, MARKER, 2);
    assert(join_upto(segments, seq![MARKER], 2) =~= template) by {
        reveal_with_fuel(join_upto, 3);
    }
    assert(segments.take(2) =~= segments);
    let children = seq![child];
    let subs = assemble_each(children);
    assert(subs =~= seq![child.assemble()]) by {
        reveal_with_fuel(crate::builder::assemble_upto, 2);
    }
    let sub_texts = subs.map_values(|p: PartsModel| p.text);
    let sub_values = subs.map_values(|p: PartsModel| p.values);
    assert(splice(segments, sub_texts) =~= before + child.assemble().text + after) by {
        reveal_with_fuel(splice_upto, 3);
    }
    assert(concat_upto(sub_values, 1) =~= child.assemble().values) by {
        reveal_with_fuel(concat_upto, 2);
    }
}

/// A limit is one value of the assembly, an unsigned integer, and is bound
/// as the signed integer with the same low 64 bits.
pub proof fn lemma_limit_is_narrowed(builder: BuilderModel, n: u64)
    requires
        builder.limit == Some(n),
    ensures
        ({
            let at = (builder.table.assemble().values.len()
                + builder.where_clause.values().len()) as int;
            &&& at < builder.assemble().values.len()
            &&& builder.assemble().values[at] == ValueModel::U64(n)
            &&& builder.rendered().binds[at] == ValueModel::I64(n as i64)
        }),
{
}

} // verus!
