//! Tokenising ASCII text: tokens are lowercase letters and digits, and
//! tokenising the tokens joined by spaces gives them back.

use vstd::prelude::*;
use crate::laws::law_tokens_of_joined_texts;
use crate::text::{
    all_ascii, alphanumeric, ascii, ascii_alphanumeric, ascii_lower_char, join_with, lemma_trimmed_no_ws,
    keep_nonempty, nonempty, split_parts, token_of, tokens_of, lowercased, trimmed,
};

verus! {

broadcast use vstd::seq_lib::group_seq_properties;

/// A lowercase ASCII letter or a digit.
pub open spec fn lower_alphanumeric(c: char) -> bool {
    ('0' <= c && c <= '9') || ('a' <= c && c <= 'z')
}

/// A text of lowercase ASCII letters and digits.
pub open spec fn lower_word(t: Seq<char>) -> bool {
    forall|i: int| 0 <= i < t.len() ==> lower_alphanumeric(#[trigger] t[i])
}

/// A text of ASCII letters and digits.
pub open spec fn ascii_word(t: Seq<char>) -> bool {
    forall|i: int| 0 <= i < t.len() ==> ascii(#[trigger] t[i]) && ascii_alphanumeric(t[i])
}

proof fn lemma_ascii_lower_char(c: char)
    ensures
        ascii(c) && ascii_alphanumeric(c) ==> lower_alphanumeric(ascii_lower_char(c)),
        lower_alphanumeric(c) ==> ascii_lower_char(c) == c,
{
}

proof fn lemma_parts_of_ascii(s: Seq<char>)
    requires
        all_ascii(s),
    ensures
        split_parts(s).len() >= 1,
        forall|k: int| 0 <= k < split_parts(s).len() ==> ascii_word(#[trigger] split_parts(s)[k]),
    decreases s.len(),
{
    if s.len() > 0 {
        let t = s.drop_last();
        assert(all_ascii(t)) by {
            assert forall|i: int| 0 <= i < t.len() implies ascii(#[trigger] t[i]) by {
                assert(t[i] == s[i]);
            }
        }
        lemma_parts_of_ascii(t);
        let pt = split_parts(t);
        let ps = split_parts(s);
        let c = s.last();
        assert(ascii(s[s.len() - 1]));
        assert forall|k: int| 0 <= k < ps.len() implies ascii_word(#[trigger] ps[k]) by {
            if k < pt.len() - 1 || (!alphanumeric(c) && k < pt.len()) {
                assert(ps[k] == pt[k]);
            } else if alphanumeric(c) {
                assert(ps[k] == pt[k].push(c));
                assert(ascii_word(pt[k]));
                assert forall|i: int| 0 <= i < ps[k].len() implies ascii(#[trigger] ps[k][i]) && ascii_alphanumeric(ps[k][i]) by {
                    if i < pt[k].len() {
                        assert(ps[k][i] == pt[k][i]);
                    }
                }
            } else {
                assert(ps[k].len() == 0);
            }
        }
    }
}

proof fn lemma_token_of_ascii_word(p: Seq<char>)
    requires
        ascii_word(p),
    ensures
        token_of(p) == p.map_values(|c: char| ascii_lower_char(c)),
        lower_word(token_of(p)),
        token_of(p).len() == p.len(),
{
    lemma_trimmed_no_ws(p);
    assert(trimmed(p) == p);
    assert(all_ascii(p));
    assert(lowercased(p) == p.map_values(|c: char| ascii_lower_char(c)));
    let q = token_of(p);
    assert forall|i: int| 0 <= i < q.len() implies lower_alphanumeric(#[trigger] q[i]) by {
        lemma_ascii_lower_char(p[i]);
    }
}

proof fn lemma_filter_keeps_lower_words(s: Seq<Seq<char>>)
    requires
        forall|k: int| 0 <= k < s.len() ==> lower_word(#[trigger] s[k]),
    ensures
        forall|k: int| 0 <= k < keep_nonempty(s).len() ==> lower_word(#[trigger] keep_nonempty(s)[k])
            && nonempty(keep_nonempty(s)[k]),
    decreases s.len(),
{
    reveal(Seq::filter);
    if s.len() > 0 {
        let rest = s.drop_last();
        assert forall|k: int| 0 <= k < rest.len() implies lower_word(#[trigger] rest[k]) by {
            assert(rest[k] == s[k]);
        }
        lemma_filter_keeps_lower_words(rest);
        let x = s[s.len() - 1];
        assert(lower_word(x));
        assert(rest.push(x) =~= s);
        rest.lemma_filter_push(x, |l: Seq<char>| nonempty(l));
        let fr = keep_nonempty(rest);
        let fs = keep_nonempty(s);
        assert(fs == if nonempty(x) { fr.push(x) } else { fr });
        assert forall|k: int| 0 <= k < fs.len() implies lower_word(#[trigger] fs[k]) && nonempty(fs[k]) by {
            if k < fr.len() {
                assert(fs[k] == fr[k]);
            } else {
                assert(nonempty(x));
                assert(fs[k] == x);
            }
        }
    } else {
        assert(keep_nonempty(s).len() == 0);
    }
}

/// The tokens of an ASCII text are non-empty and made of lowercase ASCII
/// letters and digits.
pub proof fn law_ascii_tokens_are_lower_words(text: Seq<char>)
    requires
        all_ascii(text),
    ensures
        forall|k: int| 0 <= k < tokens_of(text).len() ==> lower_word(#[trigger] tokens_of(text)[k])
            && nonempty(tokens_of(text)[k]),
{
    lemma_parts_of_ascii(text);
    let parts = split_parts(text);
    let m = parts.map_values(|p: Seq<char>| token_of(p));
    assert forall|k: int| 0 <= k < m.len() implies lower_word(#[trigger] m[k]) by {
        lemma_token_of_ascii_word(parts[k]);
    }
    lemma_filter_keeps_lower_words(m);
    assert(tokens_of(text) == keep_nonempty(m));
}

proof fn lemma_split_parts_of_word(t: Seq<char>)
    requires
        lower_word(t),
    ensures
        split_parts(t) == seq![t],
    decreases t.len(),
{
    if t.len() == 0 {
        assert(split_parts(t) =~= seq![t]);
    } else {
        let r = t.drop_last();
        assert forall|i: int| 0 <= i < r.len() implies lower_alphanumeric(#[trigger] r[i]) by {
            assert(r[i] == t[i]);
        }
        lemma_split_parts_of_word(r);
        assert(lower_alphanumeric(t[t.len() - 1]));
        assert(alphanumeric(t.last()));
        assert(r.push(t.last()) =~= t);
        assert(seq![r].update(0, r.push(t.last())) =~= seq![t]);
    }
}

proof fn lemma_tokens_of_word(t: Seq<char>)
    requires
        lower_word(t),
        nonempty(t),
    ensures
        tokens_of(t) == seq![t],
{
    lemma_split_parts_of_word(t);
    assert forall|i: int| 0 <= i < t.len() implies ascii(#[trigger] t[i]) && ascii_alphanumeric(t[i]) by {
        assert(lower_alphanumeric(t[i]));
    }
    lemma_token_of_ascii_word(t);
    assert forall|i: int| 0 <= i < t.len() implies #[trigger] token_of(t)[i] == t[i] by {
        lemma_ascii_lower_char(t[i]);
    }
    assert(token_of(t) =~= t);
    let m = seq![t].map_values(|p: Seq<char>| token_of(p));
    assert(m =~= Seq::<Seq<char>>::empty().push(t));
    Seq::<Seq<char>>::empty().lemma_filter_push(t, |x: Seq<char>| nonempty(x));
    reveal(Seq::filter);
    assert(Seq::<Seq<char>>::empty().filter(|x: Seq<char>| nonempty(x)) =~= Seq::<Seq<char>>::empty());
}

proof fn lemma_tokens_of_joined_words(list: Seq<Seq<char>>)
    requires
        forall|k: int| 0 <= k < list.len() ==> lower_word(#[trigger] list[k]) && nonempty(list[k]),
    ensures
        tokens_of(join_with(list, " "@)) == list,
    decreases list.len(),
{
    reveal_strlit(" ");
    if list.len() == 0 {
        let e = Seq::<char>::empty();
        assert(split_parts(e) == seq![e]);
        assert(all_ascii(e));
        assert(lowercased(e) =~= e);
        assert(trimmed(e) =~= e);
        assert(token_of(e) =~= e);
        let m = seq![e].map_values(|p: Seq<char>| token_of(p));
        assert(m =~= Seq::<Seq<char>>::empty().push(e));
        Seq::<Seq<char>>::empty().lemma_filter_push(e, |x: Seq<char>| nonempty(x));
        reveal(Seq::filter);
        assert(Seq::<Seq<char>>::empty().filter(|x: Seq<char>| nonempty(x)) =~= Seq::<Seq<char>>::empty());
        assert(tokens_of(join_with(list, " "@)) =~= list);
    } else if list.len() == 1 {
        assert(lower_word(list[0]) && nonempty(list[0]));
        lemma_tokens_of_word(list[0]);
        assert(seq![list[0]] =~= list);
    } else {
        let rest = list.drop_last();
        let x = list.last();
        assert forall|k: int| 0 <= k < rest.len() implies lower_word(#[trigger] rest[k]) && nonempty(rest[k]) by {
            assert(rest[k] == list[k]);
        }
        lemma_tokens_of_joined_words(rest);
        assert(lower_word(list[list.len() - 1]) && nonempty(list[list.len() - 1]));
        lemma_tokens_of_word(x);
        assert(!alphanumeric(' '));
        law_tokens_of_joined_texts(join_with(rest, " "@), ' ', x);
        assert(" "@ =~= seq![' ']);
        assert(join_with(list, " "@) == join_with(rest, " "@) + seq![' '] + x);
        assert(rest + seq![x] =~= list);
    }
}

/// Tokenising the tokens of an ASCII text joined by spaces gives the same
/// tokens: tokenising is idempotent on ASCII text.
pub proof fn law_ascii_tokenize_is_idempotent(text: Seq<char>)
    requires
        all_ascii(text),
    ensures
        tokens_of(join_with(tokens_of(text), " "@)) == tokens_of(text),
{
    law_ascii_tokens_are_lower_words(text);
    lemma_tokens_of_joined_words(tokens_of(text));
}

} // verus!
