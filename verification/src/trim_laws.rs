//! Trimming a whole text does not change its content lines, so neither its
//! summary nor its line count.

use vstd::prelude::*;
use crate::text::{
    content_lines, keep_nonempty, lines_of, newline_pieces, nonempty, strip_cr, summary_of, trim_end,
    trim_start, trimmed, white_space,
};

verus! {

broadcast use vstd::seq_lib::group_seq_properties;

proof fn lemma_trimmed_push_ws(x: Seq<char>, c: char)
    requires
        white_space(c),
    ensures
        trimmed(x.push(c)) == trimmed(x),
    decreases x.len(),
{
    if x.len() == 0 {
        assert(x.push(c).drop_first() =~= Seq::<char>::empty());
    } else {
        let rest = x.drop_first();
        assert(x.push(c).drop_first() =~= rest.push(c));
        if white_space(x[0]) {
            lemma_trimmed_push_ws(rest, c);
        } else {
            assert(x.push(c)[0] == x[0]);
            assert(trim_start(x.push(c)) == x.push(c));
            assert(trim_start(x) == x);
            assert(x.push(c).drop_last() =~= x);
        }
    }
}

proof fn lemma_trimmed_prepend_ws(c: char, x: Seq<char>)
    requires
        white_space(c),
    ensures
        trimmed(seq![c] + x) == trimmed(x),
{
    assert((seq![c] + x).drop_first() =~= x);
    assert((seq![c] + x)[0] == c);
}

proof fn lemma_trimmed_strip_cr(x: Seq<char>)
    ensures
        trimmed(strip_cr(x)) == trimmed(x),
{
    if x.len() > 0 && x.last() == '\r' {
        assert(x.drop_last().push('\r') =~= x);
        lemma_trimmed_push_ws(x.drop_last(), '\r');
    }
}

proof fn lemma_pieces_nonempty(s: Seq<char>)
    ensures
        newline_pieces(s).len() >= 1,
    decreases s.len(),
{
    if s.len() > 0 {
        lemma_pieces_nonempty(s.drop_last());
    }
}

proof fn lemma_keep_push_empty(a: Seq<Seq<char>>, e: Seq<char>)
    requires
        e.len() == 0,
    ensures
        keep_nonempty(a.push(e)) == keep_nonempty(a),
{
    a.lemma_filter_push(e, |l: Seq<char>| nonempty(l));
}

/// The trimmed lines of a text.
spec fn trimmed_lines(s: Seq<char>) -> Seq<Seq<char>> {
    lines_of(s).map_values(|l: Seq<char>| trimmed(l))
}

/// Appending a white-space character keeps the content lines.
proof fn lemma_content_lines_push_ws(t: Seq<char>, c: char)
    requires
        white_space(c),
    ensures
        content_lines(t.push(c)) == content_lines(t),
{
    lemma_pieces_nonempty(t);
    let s = t.push(c);
    assert(s.drop_last() =~= t);
    let p = newline_pieces(t);
    let last = p.last();
    let d = p.drop_last();
    let cr = |l: Seq<char>| strip_cr(l);
    let tr = |l: Seq<char>| trimmed(l);
    let a = d.map_values(cr).map_values(tr);
    assert(trimmed_lines(t) == if last.len() == 0 { a } else { a.push(trimmed(last)) }) by {
        if last.len() > 0 {
            assert(d.map_values(cr).push(last).map_values(tr) =~= a.push(trimmed(last)));
        }
    }
    if c == '\n' {
        let ps = p.push(Seq::<char>::empty());
        assert(newline_pieces(s) == ps);
        assert(ps.drop_last() =~= p);
        assert(p =~= d.push(last));
        assert(p.map_values(cr) =~= d.map_values(cr).push(strip_cr(last)));
        assert(lines_of(s) == p.map_values(cr));
        assert(trimmed_lines(s) =~= a.push(trimmed(strip_cr(last))));
        lemma_trimmed_strip_cr(last);
    } else {
        let ps = p.update(p.len() - 1, last.push(c));
        assert(newline_pieces(s) == ps);
        assert(ps.drop_last() =~= d);
        assert(ps.last() == last.push(c));
        assert(lines_of(s) == d.map_values(cr).push(last.push(c)));
        assert(trimmed_lines(s) =~= a.push(trimmed(last.push(c))));
        lemma_trimmed_push_ws(last, c);
    }
    if last.len() == 0 {
        lemma_keep_push_empty(a, trimmed(last));
    }
}

/// The pieces of a text with one character put in front.
proof fn lemma_pieces_prepend(c: char, t: Seq<char>)
    ensures
        newline_pieces(t).len() >= 1,
        newline_pieces(seq![c] + t) == if c == '\n' {
            seq![Seq::<char>::empty()] + newline_pieces(t)
        } else {
            newline_pieces(t).update(0, seq![c] + newline_pieces(t)[0])
        },
    decreases t.len(),
{
    lemma_pieces_nonempty(t);
    let s = seq![c] + t;
    if t.len() == 0 {
        assert(s =~= seq![c]);
        assert(s.drop_last() =~= Seq::<char>::empty());
        assert(newline_pieces(Seq::<char>::empty()) == seq![Seq::<char>::empty()]);
        if c == '\n' {
            assert(newline_pieces(s) =~= seq![Seq::<char>::empty()] + newline_pieces(t));
        } else {
            assert(Seq::<char>::empty().push(c) =~= seq![c] + Seq::<char>::empty());
            assert(newline_pieces(s) =~= newline_pieces(t).update(0, seq![c] + newline_pieces(t)[0]));
        }
    } else {
        let t2 = t.drop_last();
        let e = t.last();
        lemma_pieces_prepend(c, t2);
        lemma_pieces_nonempty(t2);
        assert(s.drop_last() =~= seq![c] + t2);
        assert(s.last() == e);
        let p2 = newline_pieces(t2);
        if c == '\n' {
            let q = seq![Seq::<char>::empty()] + p2;
            if e != '\n' {
                assert(q.update(q.len() - 1, q.last().push(e)) =~= seq![Seq::<char>::empty()]
                    + p2.update(p2.len() - 1, p2.last().push(e)));
            } else {
                assert(q.push(Seq::<char>::empty()) =~= seq![Seq::<char>::empty()] + p2.push(
                    Seq::<char>::empty(),
                ));
            }
        } else {
            let q = p2.update(0, seq![c] + p2[0]);
            if e != '\n' {
                let pt = p2.update(p2.len() - 1, p2.last().push(e));
                if p2.len() == 1 {
                    assert((seq![c] + p2[0]).push(e) =~= seq![c] + p2[0].push(e));
                }
                assert(q.update(q.len() - 1, q.last().push(e)) =~= pt.update(0, seq![c] + pt[0]));
            } else {
                let pt = p2.push(Seq::<char>::empty());
                assert(q.push(Seq::<char>::empty()) =~= pt.update(0, seq![c] + pt[0]));
            }
        }
    }
}

/// Putting a white-space character in front keeps the content lines.
proof fn lemma_content_lines_prepend_ws(c: char, t: Seq<char>)
    requires
        white_space(c),
    ensures
        content_lines(seq![c] + t) == content_lines(t),
{
    lemma_pieces_prepend(c, t);
    let s = seq![c] + t;
    let p = newline_pieces(t);
    let cr = |l: Seq<char>| strip_cr(l);
    let tr = |l: Seq<char>| trimmed(l);
    if c == '\n' {
        let ps = seq![Seq::<char>::empty()] + p;
        assert(ps.drop_last() =~= seq![Seq::<char>::empty()] + p.drop_last());
        assert(ps.last() == p.last());
        assert(trimmed_lines(s) =~= seq![Seq::<char>::empty()] + trimmed_lines(t)) by {
            assert(strip_cr(Seq::<char>::empty()) =~= Seq::<char>::empty());
            assert(trimmed(Seq::<char>::empty()) =~= Seq::<char>::empty());
        }
        assert(keep_nonempty(seq![Seq::<char>::empty()] + trimmed_lines(t)) == keep_nonempty(
            seq![Seq::<char>::empty()],
        ) + keep_nonempty(trimmed_lines(t))) by {
            Seq::filter_distributes_over_add(seq![Seq::<char>::empty()], trimmed_lines(t), |l: Seq<char>| nonempty(l));
        }
        assert(keep_nonempty(seq![Seq::<char>::empty()]) =~= Seq::<Seq<char>>::empty()) by {
            lemma_keep_push_empty(Seq::<Seq<char>>::empty(), Seq::<char>::empty());
            assert(Seq::<Seq<char>>::empty().push(Seq::<char>::empty()) =~= seq![Seq::<char>::empty()]);
            reveal(Seq::filter);
        }
        assert(Seq::<Seq<char>>::empty() + keep_nonempty(trimmed_lines(t)) =~= keep_nonempty(trimmed_lines(t)));
    } else {
        let p0 = p[0];
        let ps = p.update(0, seq![c] + p0);
        lemma_trimmed_prepend_ws(c, p0);
        if p.len() > 1 {
            assert(ps.drop_last() =~= p.drop_last().update(0, seq![c] + p0));
            assert(ps.last() == p.last());
            assert(trimmed(strip_cr(seq![c] + p0)) == trimmed(strip_cr(p0))) by {
                lemma_trimmed_strip_cr(seq![c] + p0);
                lemma_trimmed_strip_cr(p0);
            }
            assert(trimmed_lines(s) =~= trimmed_lines(t)) by {
                let ls = lines_of(s);
                let lt = lines_of(t);
                assert(ls.len() == lt.len());
                assert forall|k: int| 0 <= k < ls.len() implies trimmed(#[trigger] ls[k]) == trimmed(lt[k]) by {
                    if k == 0 {
                        assert(ls[0] == strip_cr(seq![c] + p0));
                        assert(lt[0] == strip_cr(p0));
                    } else {
                        assert(ls[k] == lt[k]);
                    }
                }
            }
        } else {
            assert(ps.drop_last() =~= Seq::<Seq<char>>::empty());
            assert(p.drop_last() =~= Seq::<Seq<char>>::empty());
            assert(ps.last() == seq![c] + p0);
            assert(p.last() == p0);
            let e = Seq::<Seq<char>>::empty();
            assert(lines_of(s) =~= e.push(seq![c] + p0));
            assert(trimmed_lines(s) =~= e.push(trimmed(p0)));
            if p0.len() == 0 {
                assert(lines_of(t) =~= e);
                assert(trimmed_lines(t) =~= e);
                assert(trimmed(p0) =~= Seq::<char>::empty());
                lemma_keep_push_empty(e, trimmed(p0));
            } else {
                assert(lines_of(t) =~= e.push(p0));
                assert(trimmed_lines(t) =~= e.push(trimmed(p0)));
            }
        }
    }
}

proof fn lemma_content_lines_trim_end(s: Seq<char>)
    ensures
        content_lines(trim_end(s)) == content_lines(s),
    decreases s.len(),
{
    if s.len() > 0 && white_space(s.last()) {
        let t = s.drop_last();
        lemma_content_lines_trim_end(t);
        assert(t.push(s.last()) =~= s);
        lemma_content_lines_push_ws(t, s.last());
    }
}

proof fn lemma_content_lines_trim_start(s: Seq<char>)
    ensures
        content_lines(trim_start(s)) == content_lines(s),
    decreases s.len(),
{
    if s.len() > 0 && white_space(s[0]) {
        let t = s.drop_first();
        lemma_content_lines_trim_start(t);
        assert(seq![s[0]] + t =~= s);
        lemma_content_lines_prepend_ws(s[0], t);
    }
}

/// Trimming a whole text keeps its content lines, so its summary and its
/// number of non-blank lines.
pub proof fn law_trimming_keeps_summary(s: Seq<char>)
    ensures
        content_lines(trimmed(s)) == content_lines(s),
        summary_of(trimmed(s)) == summary_of(s),
{
    lemma_content_lines_trim_start(s);
    lemma_content_lines_trim_end(trim_start(s));
}

} // verus!
