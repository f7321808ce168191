use vstd::prelude::*;
use vstd::string::*;

verus! {

/// The reserved character that marks, in a template, the place of one bound
/// value or of one nested statement.
pub const MARKER: char = '?';

/// The literal segments of `s` that lie between the occurrences of `m`: a
/// text with `n` occurrences has `n + 1` segments, some of them possibly empty.
pub open spec fn split_on(s: Seq<char>, m: char) -> Seq<Seq<char>>
    decreases s.len(),
{
    if s.len() == 0 {
        seq![Seq::<char>::empty()]
    } else {
        let head = split_on(s.drop_last(), m);
        if s.last() == m {
            head.push(Seq::<char>::empty())
        } else {
            head.update(head.len() - 1, head.last().push(s.last()))
        }
    }
}

/// The piece at position `i` of a sequence of texts, empty past its end.
pub open spec fn piece_at(pieces: Seq<Seq<char>>, i: int) -> Seq<char> {
    if 0 <= i < pieces.len() {
        pieces[i]
    } else {
        Seq::<char>::empty()
    }
}

/// The first `n` positions of the interleaving of `segments` and `inserts`:
/// at each position the segment comes first, the insert second, and a side
/// that has run out contributes nothing.
pub open spec fn splice_upto(segments: Seq<Seq<char>>, inserts: Seq<Seq<char>>, n: nat) -> Seq<
    char,
>
    decreases n,
{
    if n == 0 {
        Seq::<char>::empty()
    } else {
        splice_upto(segments, inserts, (n - 1) as nat) + piece_at(segments, n - 1) + piece_at(
            inserts,
            n - 1,
        )
    }
}

/// The larger of two lengths.
pub open spec fn longest(a: nat, b: nat) -> nat {
    if a >= b {
        a
    } else {
        b
    }
}

/// Segments and inserts interleaved position by position, the longer side
/// running on alone once the shorter one has ended.
pub open spec fn splice(segments: Seq<Seq<char>>, inserts: Seq<Seq<char>>) -> Seq<char> {
    splice_upto(segments, inserts, longest(segments.len(), inserts.len()))
}

/// The first `n` texts of `items`, each but the first preceded by `sep`.
pub open spec fn join_upto(items: Seq<Seq<char>>, sep: Seq<char>, n: nat) -> Seq<char>
    decreases n,
{
    if n == 0 || n > items.len() {
        Seq::<char>::empty()
    } else if n == 1 {
        items[0]
    } else {
        join_upto(items, sep, (n - 1) as nat) + sep + items[n - 1]
    }
}

/// All of `items` with `sep` between neighbours.
pub open spec fn join(items: Seq<Seq<char>>, sep: Seq<char>) -> Seq<char> {
    join_upto(items, sep, items.len())
}

/// The first `n` texts of `items`, each preceded by `lead`.
pub open spec fn prefixed_upto(items: Seq<Seq<char>>, lead: Seq<char>, n: nat) -> Seq<char>
    decreases n,
{
    if n == 0 || n > items.len() {
        Seq::<char>::empty()
    } else {
        prefixed_upto(items, lead, (n - 1) as nat) + lead + items[n - 1]
    }
}

/// The views of a sequence of strings.
pub open spec fn texts(v: Seq<String>) -> Seq<Seq<char>> {
    v.map_values(|s: String| s@)
}

/// Splitting a text that was extended by one character either opens a new
/// segment or lengthens the last one.
pub proof fn lemma_split_step(
    done: Seq<Seq<char>>,
    open: Seq<char>,
    prefix: Seq<char>,
    c: char,
    m: char,
)
    requires
        done.push(open) == split_on(prefix, m),
    ensures
        c == m ==> done.push(open).push(Seq::<char>::empty()) == split_on(prefix.push(c), m),
        c != m ==> done.push(open.push(c)) == split_on(prefix.push(c), m),
{
    let whole = prefix.push(c);
    assert(whole.drop_last() == prefix);
    assert(whole.last() == c);
    let head = done.push(open);
    assert(head.last() == open);
    if c != m {
        assert(head.update(head.len() - 1, open.push(c)) == done.push(open.push(c)));
    }
}

/// Cuts `s` at every marker.
pub fn split_markers(s: &str) -> (segments: Vec<String>)
    ensures
        texts(segments@) == split_on(s@, MARKER),
{
    let n = s.unicode_len();
    let mut segments: Vec<String> = Vec::new();
    let mut start: usize = 0;
    let mut i: usize = 0;
    proof {
        assert(s@.subrange(0, 0) == Seq::<char>::empty());
        assert(texts(segments@).push(s@.subrange(0, 0)) == seq![Seq::<char>::empty()]);
    }
    for c in it: s.chars()
        invariant
            it.seq() == s@,
            i == it.index(),
            n == s@.len(),
            start <= i <= n,
            texts(segments@).push(s@.subrange(start as int, i as int)) == split_on(
                s@.subrange(0, i as int),
                MARKER,
            ),
    {
        proof {
            lemma_split_step(
                texts(segments@),
                s@.subrange(start as int, i as int),
                s@.subrange(0, i as int),
                c,
                MARKER,
            );
            assert(s@.subrange(0, i as int).push(c) == s@.subrange(0, i + 1));
            assert(s@.subrange(start as int, i as int).push(c) == s@.subrange(
                start as int,
                i + 1,
            ));
        }
        if c == MARKER {
            let piece = String::from_str(s.substring_char(start, i));
            let ghost before = segments@;
            segments.push(piece);
            proof {
                assert(texts(segments@) == texts(before).push(piece@));
                assert(s@.subrange(i + 1, i + 1) == Seq::<char>::empty());
            }
            start = i + 1;
        }
        i = i + 1;
    }
    let piece = String::from_str(s.substring_char(start, n));
    let ghost before = segments@;
    segments.push(piece);
    proof {
        assert(texts(segments@) == texts(before).push(piece@));
        assert(s@.subrange(0, n as int) == s@);
    }
    segments
}

/// A copy of a list of texts.
pub fn clone_texts(items: &Vec<String>) -> (copy: Vec<String>)
    ensures
        texts(copy@) == texts(items@),
{
    let mut copy: Vec<String> = Vec::new();
    let mut i: usize = 0;
    while i < items.len()
        invariant
            i <= items.len(),
            copy@.len() == i,
            forall|k: int| 0 <= k < i ==> copy@[k]@ == items@[k]@,
        decreases items.len() - i,
    {
        copy.push(items[i].clone());
        i = i + 1;
    }
    assert(texts(copy@) =~= texts(items@));
    copy
}

/// Appends `items` to `out`, with `sep` between neighbours.
pub fn append_joined(out: &mut String, items: &Vec<String>, sep: &str)
    ensures
        final(out)@ == old(out)@ + join(texts(items@), sep@),
{
    let mut i: usize = 0;
    assert(out@ =~= old(out)@ + join_upto(texts(items@), sep@, 0));
    while i < items.len()
        invariant
            i <= items.len(),
            out@ == old(out)@ + join_upto(texts(items@), sep@, i as nat),
        decreases items.len() - i,
    {
        if i > 0 {
            out.append(sep);
        }
        out.append(items[i].as_str());
        i = i + 1;
        assert(out@ =~= old(out)@ + join_upto(texts(items@), sep@, i as nat));
    }
}

/// Appends each of `items` to `out`, behind `lead`.
pub fn append_prefixed(out: &mut String, items: &Vec<String>, lead: &str)
    ensures
        final(out)@ == old(out)@ + prefixed_upto(texts(items@), lead@, items@.len()),
{
    let mut i: usize = 0;
    assert(out@ =~= old(out)@ + prefixed_upto(texts(items@), lead@, 0));
    while i < items.len()
        invariant
            i <= items.len(),
            out@ == old(out)@ + prefixed_upto(texts(items@), lead@, i as nat),
        decreases items.len() - i,
    {
        out.append(lead);
        out.append(items[i].as_str());
        i = i + 1;
        assert(out@ =~= old(out)@ + prefixed_upto(texts(items@), lead@, i as nat));
    }
}

} // verus!
