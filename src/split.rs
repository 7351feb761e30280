//! Splitting text on the `.` delimiter, and joining segments back.
use vstd::prelude::*;

verus! {

/// The segments of `s` between `.` delimiters, left to right. Text with no
/// delimiter is a single segment, so empty text gives one empty segment and
/// a trailing `.` gives a trailing empty segment.
pub open spec fn split_dots(s: Seq<char>) -> Seq<Seq<char>>
    decreases s.len(),
{
    if s.len() == 0 {
        seq![Seq::<char>::empty()]
    } else {
        let p = split_dots(s.drop_last());
        if s.last() == '.' {
            p.push(Seq::<char>::empty())
        } else {
            p.update(p.len() - 1, p.last().push(s.last()))
        }
    }
}

/// The segments joined with `.` between each two.
pub open spec fn join_dots(ts: Seq<Seq<char>>) -> Seq<char>
    decreases ts.len(),
{
    if ts.len() == 0 {
        Seq::<char>::empty()
    } else if ts.len() == 1 {
        ts[0]
    } else {
        join_dots(ts.drop_last()) + seq!['.'] + ts.last()
    }
}

/// The text holds no delimiter.
pub open spec fn dot_free(t: Seq<char>) -> bool {
    forall|i: int| 0 <= i < t.len() ==> #[trigger] t[i] != '.'
}

/// The views of a sequence of strings.
pub open spec fn views(v: Seq<String>) -> Seq<Seq<char>> {
    v.map_values(|t: String| t@)
}

/// Splitting always gives at least one segment.
pub proof fn lemma_split_nonempty(s: Seq<char>)
    ensures
        split_dots(s).len() >= 1,
    decreases s.len(),
{
    if s.len() > 0 {
        lemma_split_nonempty(s.drop_last());
    }
}

/// Appending text with no delimiter extends the last segment.
pub proof fn lemma_split_extend(p: Seq<char>, b: Seq<char>)
    requires
        dot_free(b),
    ensures
        split_dots(p + b) == split_dots(p).update(
            split_dots(p).len() - 1,
            split_dots(p).last() + b,
        ),
    decreases b.len(),
{
    let sp = split_dots(p);
    lemma_split_nonempty(p);
    if b.len() == 0 {
        assert(p + b =~= p);
        assert(sp.last() + b =~= sp.last());
        assert(sp.update(sp.len() - 1, sp.last() + b) =~= sp);
    } else {
        let b1 = b.drop_last();
        assert(dot_free(b1)) by {
            assert forall|i: int| 0 <= i < b1.len() implies #[trigger] b1[i] != '.' by {
                assert(b1[i] == b[i]);
            }
        }
        lemma_split_extend(p, b1);
        assert((p + b).drop_last() =~= p + b1);
        assert((p + b).last() == b.last());
        assert(b.last() == b[b.len() - 1]);
        assert((sp.last() + b1).push(b.last()) =~= sp.last() + b);
        assert(split_dots(p + b) =~= sp.update(sp.len() - 1, sp.last() + b));
    }
}

/// A delimiter opens a new, empty segment.
pub proof fn lemma_split_dot(p: Seq<char>)
    ensures
        split_dots(p.push('.')) == split_dots(p).push(Seq::<char>::empty()),
{
    assert(p.push('.').drop_last() =~= p);
}

/// Splitting undoes joining, for one or more segments without delimiters.
pub proof fn lemma_split_join(ts: Seq<Seq<char>>)
    requires
        ts.len() >= 1,
        forall|k: int| 0 <= k < ts.len() ==> dot_free(#[trigger] ts[k]),
    ensures
        split_dots(join_dots(ts)) == ts,
    decreases ts.len(),
{
    let e = Seq::<char>::empty();
    if ts.len() == 1 {
        lemma_split_extend(e, ts[0]);
        assert(e + ts[0] =~= ts[0]);
        assert(split_dots(e) =~= seq![e]);
        assert(split_dots(ts[0]) =~= ts);
    } else {
        let init = ts.drop_last();
        assert forall|k: int| 0 <= k < init.len() implies dot_free(#[trigger] init[k]) by {
            assert(init[k] == ts[k]);
        }
        lemma_split_join(init);
        let j = join_dots(init);
        lemma_split_dot(j);
        assert(dot_free(ts.last())) by {
            assert(ts.last() == ts[ts.len() - 1]);
        }
        lemma_split_extend(j.push('.'), ts.last());
        assert(j + seq!['.'] =~= j.push('.'));
        assert(e + ts.last() =~= ts.last());
        assert(init.push(e).update(init.len() as int, ts.last()) =~= ts);
    }
}

/// Splits `input` on every `.`, keeping empty segments.
pub fn split_on_dots(input: &str) -> (r: Vec<String>)
    ensures
        views(r@) == split_dots(input@),
{
    let n = input.unicode_len();
    let mut tokens: Vec<String> = Vec::new();
    let mut start: usize = 0;
    let mut i: usize = 0;
    assert(input@.subrange(0, 0) =~= Seq::<char>::empty());
    assert(views(tokens@).push(input@.subrange(0, 0)) =~= seq![Seq::<char>::empty()]);
    while i < n
        invariant
            n == input@.len(),
            start <= i <= n,
            views(tokens@).push(input@.subrange(start as int, i as int)) == split_dots(
                input@.subrange(0, i as int),
            ),
        decreases n - i,
    {
        let c = input.get_char(i);
        let ghost prev = input@.subrange(0, i as int);
        let ghost cur = input@.subrange(start as int, i as int);
        let ghost old_views = views(tokens@);
        assert(input@.subrange(0, i + 1).drop_last() =~= prev);
        assert(input@.subrange(0, i + 1).last() == c);
        if c == '.' {
            let t = input.substring_char(start, i).to_owned();
            tokens.push(t);
            start = i + 1;
            assert(views(tokens@) =~= old_views.push(cur));
            assert(input@.subrange(start as int, i + 1) =~= Seq::<char>::empty());
        } else {
            assert(input@.subrange(start as int, i + 1) =~= cur.push(c));
            assert(old_views.push(cur).update(old_views.len() as int, cur.push(c))
                =~= old_views.push(cur.push(c)));
        }
        i = i + 1;
    }
    let last = input.substring_char(start, n).to_owned();
    let ghost before = views(tokens@);
    tokens.push(last);
    assert(views(tokens@) =~= before.push(last@));
    assert(input@.subrange(0, n as int) =~= input@);
    tokens
}

} // verus!
