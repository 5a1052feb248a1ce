//! Word and line analysis of recognised text.

use vstd::prelude::*;
use vstd::string::StringExecFns;

verus! {

broadcast use vstd::seq_lib::group_seq_properties;

/// An ASCII character.
pub open spec fn ascii(c: char) -> bool {
    c <= '\u{7f}'
}

/// A text of ASCII characters only.
pub open spec fn all_ascii(s: Seq<char>) -> bool {
    forall|i: int| 0 <= i < s.len() ==> ascii(#[trigger] s[i])
}

/// An ASCII letter or digit.
pub open spec fn ascii_alphanumeric(c: char) -> bool {
    ||| ('0' <= c && c <= '9')
    ||| ('A' <= c && c <= 'Z')
    ||| ('a' <= c && c <= 'z')
}

/// What `char::is_alphanumeric` answers for a character beyond ASCII
/// (Unicode Alphabetic or Numeric).
pub uninterp spec fn unicode_alphanumeric(c: char) -> bool;

/// What `char::is_alphanumeric` answers: among ASCII characters, exactly the
/// letters and digits; beyond ASCII, the Unicode answer.
pub open spec fn alphanumeric(c: char) -> bool {
    if ascii(c) {
        ascii_alphanumeric(c)
    } else {
        unicode_alphanumeric(c)
    }
}

/// The lowercase of an ASCII character: 'A'..'Z' become 'a'..'z'; the others stay.
pub open spec fn ascii_lower_char(c: char) -> char {
    if 'A' <= c && c <= 'Z' {
        ((c as u32) + 32) as char
    } else {
        c
    }
}

/// What `str::to_lowercase` makes of a text that is not all ASCII (Unicode
/// lowercase mapping).
pub uninterp spec fn unicode_lowercased(s: Seq<char>) -> Seq<char>;

/// What `str::to_lowercase` makes of a text: each ASCII character of an
/// ASCII text lowercased; otherwise the Unicode mapping.
pub open spec fn lowercased(s: Seq<char>) -> Seq<char> {
    if all_ascii(s) {
        s.map_values(|c: char| ascii_lower_char(c))
    } else {
        unicode_lowercased(s)
    }
}

/// The characters with the Unicode White_Space property, which
/// `char::is_whitespace` answers: U+0009..U+000D, U+0020, U+0085, U+00A0,
/// U+1680, U+2000..U+200A, U+2028, U+2029, U+202F, U+205F and U+3000.
pub open spec fn white_space(c: char) -> bool {
    ||| ('\u{9}' <= c && c <= '\u{d}')
    ||| c == ' '
    ||| c == '\u{85}'
    ||| c == '\u{a0}'
    ||| c == '\u{1680}'
    ||| ('\u{2000}' <= c && c <= '\u{200a}')
    ||| c == '\u{2028}'
    ||| c == '\u{2029}'
    ||| c == '\u{202f}'
    ||| c == '\u{205f}'
    ||| c == '\u{3000}'
}

/// A text without its leading white space.
pub open spec fn trim_start(s: Seq<char>) -> Seq<char>
    decreases s.len(),
{
    if s.len() > 0 && white_space(s[0]) {
        trim_start(s.drop_first())
    } else {
        s
    }
}

/// A text without its trailing white space.
pub open spec fn trim_end(s: Seq<char>) -> Seq<char>
    decreases s.len(),
{
    if s.len() > 0 && white_space(s.last()) {
        trim_end(s.drop_last())
    } else {
        s
    }
}

/// A text without its leading and trailing white space, as `str::trim` leaves it.
pub open spec fn trimmed(s: Seq<char>) -> Seq<char> {
    trim_end(trim_start(s))
}

/// Every character of the text is white space.
pub open spec fn blank(s: Seq<char>) -> bool {
    forall|i: int| 0 <= i < s.len() ==> white_space(#[trigger] s[i])
}

/// `char::is_alphanumeric`: Alphabetic or Numeric. Among ASCII characters
/// these are exactly the letters and digits. An alphanumeric character
/// (general categories of letters and numbers, or Other_Alphabetic) is never
/// white space (the White_Space characters are of the categories Zs, Zl, Zp
/// and Cc).
#[verifier::external_body]
fn is_alphanumeric(c: char) -> (r: bool)
    ensures
        r == alphanumeric(c),
        !ascii(c) ==> r == unicode_alphanumeric(c),
        r ==> !white_space(c),
{
    c.is_alphanumeric()
}

/// `str::trim`: the text without leading and trailing characters that have
/// the Unicode White_Space property.
#[verifier::external_body]
pub(crate) fn trim(s: &str) -> (r: &str)
    ensures
        r@ == trimmed(s@),
{
    s.trim()
}

/// `str::to_lowercase`: each character is replaced by its lowercase mapping
/// of one or more characters, so the result is empty exactly when the text
/// is. The lowercase mapping of an ASCII character is its ASCII lowercase
/// ('A'..'Z' to 'a'..'z', the rest unchanged); beyond ASCII the result is
/// named by `unicode_lowercased`.
#[verifier::external_body]
fn to_lowercase(s: &str) -> (r: String)
    ensures
        r@ == lowercased(s@),
        !all_ascii(s@) ==> r@ == unicode_lowercased(s@),
        r@.len() == 0 <==> s@.len() == 0,
{
    s.to_lowercase()
}

/// The characters of a text, in order.
pub(crate) fn chars_of(s: &str) -> (v: Vec<char>)
    ensures
        v@ == s@,
{
    broadcast use vstd::string::axiom_spec_iter;

    let mut v: Vec<char> = Vec::new();
    for c in it: s.chars()
        invariant
            v@ == it.seq().take(it.index()),
    {
        v.push(c);
    }
    v
}

/// `String::push`: the character is appended.
#[verifier::external_body]
pub(crate) fn push_char(s: &mut String, c: char)
    ensures
        final(s)@ == old(s)@.push(c),
{
    s.push(c)
}

/// The text made of the given characters.
fn string_of(v: &Vec<char>) -> (s: String)
    ensures
        s@ == v@,
{
    let mut s = String::new();
    let mut i: usize = 0;
    while i < v.len()
        invariant
            i <= v@.len(),
            s@ == v@.take(i as int),
        decreases v@.len() - i,
    {
        push_char(&mut s, v[i]);
        i = i + 1;
    }
    assert(v@.take(i as int) =~= v@);
    s
}

/// The texts that a sequence of strings holds.
pub open spec fn strings_view(v: Seq<String>) -> Seq<Seq<char>> {
    v.map_values(|s: String| s@)
}

/// The pieces of `s` between characters that are not alphanumeric, as
/// `str::split` with that predicate yields them: empty pieces included, and
/// one piece more than there are separators.
pub open spec fn split_parts(s: Seq<char>) -> Seq<Seq<char>>
    decreases s.len(),
{
    if s.len() == 0 {
        seq![Seq::<char>::empty()]
    } else {
        let parts = split_parts(s.drop_last());
        if alphanumeric(s.last()) {
            parts.update(parts.len() - 1, parts.last().push(s.last()))
        } else {
            parts.push(Seq::<char>::empty())
        }
    }
}

/// The token that a piece of text becomes: trimmed, then lowercased.
pub open spec fn token_of(part: Seq<char>) -> Seq<char> {
    lowercased(trimmed(part))
}

/// Whether a token is kept: it is not empty.
pub open spec fn nonempty(t: Seq<char>) -> bool {
    t.len() > 0
}

/// The tokens of a text: each piece between non-alphanumeric characters,
/// trimmed and lowercased, with the empty ones left out, in order.
pub open spec fn tokens_of(text: Seq<char>) -> Seq<Seq<char>> {
    split_parts(text).map_values(|p: Seq<char>| token_of(p)).filter(|t: Seq<char>| nonempty(t))
}

/// No character of the text is white space.
pub open spec fn no_white_space(s: Seq<char>) -> bool {
    forall|i: int| 0 <= i < s.len() ==> !white_space(#[trigger] s[i])
}

/// The maximal runs of alphanumeric characters of a text, in order.
pub open spec fn alphanumeric_runs(text: Seq<char>) -> Seq<Seq<char>> {
    split_parts(text).filter(|p: Seq<char>| nonempty(p))
}

/// Some character of the text is alphanumeric.
pub open spec fn has_alphanumeric(text: Seq<char>) -> bool {
    exists|i: int| 0 <= i < text.len() && alphanumeric(#[trigger] text[i])
}

proof fn lemma_trim_start_no_ws(s: Seq<char>)
    requires
        no_white_space(s),
    ensures
        trim_start(s) == s,
{
}

proof fn lemma_trim_end_no_ws(s: Seq<char>)
    requires
        no_white_space(s),
    ensures
        trim_end(s) == s,
{
}

/// Trimming leaves a text without white space as it is.
pub proof fn lemma_trimmed_no_ws(s: Seq<char>)
    requires
        no_white_space(s),
    ensures
        trimmed(s) == s,
{
    lemma_trim_start_no_ws(s);
    lemma_trim_end_no_ws(s);
}

/// The pieces of a text are all empty exactly when it has no alphanumeric character.
pub proof fn lemma_split_parts_empty(s: Seq<char>)
    ensures
        split_parts(s).len() >= 1,
        (forall|k: int| 0 <= k < split_parts(s).len() ==> #[trigger] split_parts(s)[k].len() == 0)
            <==> !has_alphanumeric(s),
    decreases s.len(),
{
    if s.len() > 0 {
        let t = s.drop_last();
        lemma_split_parts_empty(t);
        let pt = split_parts(t);
        let ps = split_parts(s);
        if alphanumeric(s.last()) {
            assert(ps[ps.len() - 1].len() > 0);
            assert(alphanumeric(s[s.len() - 1]));
        } else {
            if has_alphanumeric(s) {
                let i = choose|i: int| 0 <= i < s.len() && alphanumeric(#[trigger] s[i]);
                assert(t[i] == s[i]);
            }
            if has_alphanumeric(t) {
                let i = choose|i: int| 0 <= i < t.len() && alphanumeric(#[trigger] t[i]);
                assert(s[i] == t[i]);
            }
            if forall|k: int| 0 <= k < pt.len() ==> #[trigger] pt[k].len() == 0 {
                assert forall|k: int| 0 <= k < ps.len() implies #[trigger] ps[k].len() == 0 by {
                    if k < pt.len() {
                        assert(ps[k] == pt[k]);
                    }
                }
            } else {
                let k = choose|k: int| 0 <= k < pt.len() && #[trigger] pt[k].len() != 0;
                assert(ps[k] == pt[k]);
            }
        }
    }
}

/// Mapping to tokens then keeping non-empty ones is keeping non-empty runs
/// then lowercasing them, when each piece trims to itself and lowercases to
/// an empty text exactly when it is empty.
proof fn lemma_tokens_as_runs(parts: Seq<Seq<char>>)
    requires
        forall|k: int| 0 <= k < parts.len() ==> token_of(#[trigger] parts[k]) == lowercased(parts[k]),
        forall|k: int| 0 <= k < parts.len() ==> (nonempty(token_of(#[trigger] parts[k])) <==> nonempty(parts[k])),
    ensures
        parts.map_values(|p: Seq<char>| token_of(p)).filter(|t: Seq<char>| nonempty(t))
            == parts.filter(|p: Seq<char>| nonempty(p)).map_values(|p: Seq<char>| lowercased(p)),
    decreases parts.len(),
{
    let f = |p: Seq<char>| token_of(p);
    let keep = |t: Seq<char>| nonempty(t);
    let g = |p: Seq<char>| lowercased(p);
    if parts.len() == 0 {
        reveal(Seq::filter);
        assert(parts.map_values(f).filter(keep) =~= Seq::<Seq<char>>::empty());
        assert(parts.filter(keep).map_values(g) =~= Seq::<Seq<char>>::empty());
    } else {
        let rest = parts.drop_last();
        let x = parts.last();
        assert(token_of(parts[parts.len() - 1]) == lowercased(parts[parts.len() - 1]));
        assert(nonempty(token_of(parts[parts.len() - 1])) <==> nonempty(parts[parts.len() - 1]));
        lemma_tokens_as_runs(rest);
        assert(rest.push(x) =~= parts);
        assert(parts.map_values(f) =~= rest.map_values(f).push(f(x)));
        rest.map_values(f).lemma_filter_push(f(x), keep);
        rest.lemma_filter_push(x, keep);
        if keep(x) {
            assert(rest.filter(keep).push(x).map_values(g) =~= rest.filter(keep).map_values(g).push(g(x)));
        }
    }
}

proof fn lemma_filter_nonempty_none(s: Seq<Seq<char>>)
    requires
        forall|k: int| 0 <= k < s.len() ==> #[trigger] s[k].len() == 0,
    ensures
        s.filter(|p: Seq<char>| nonempty(p)).len() == 0,
    decreases s.len(),
{
    reveal(Seq::filter);
    if s.len() > 0 {
        let rest = s.drop_last();
        assert forall|k: int| 0 <= k < rest.len() implies #[trigger] rest[k].len() == 0 by {
            assert(rest[k] == s[k]);
        }
        lemma_filter_nonempty_none(rest);
        assert(s[s.len() - 1].len() == 0);
    }
}

/// Appends the token of `part` to `tokens` when it is not empty.
fn flush_part(tokens: &mut Vec<String>, part: &Vec<char>)
    ensures
        strings_view(final(tokens)@) == if nonempty(token_of(part@)) {
            strings_view(old(tokens)@).push(token_of(part@))
        } else {
            strings_view(old(tokens)@)
        },
        nonempty(token_of(part@)) <==> nonempty(trimmed(part@)),
{
    let piece = string_of(part);
    let token = to_lowercase(trim(piece.as_str()));
    if !token.as_str().is_empty() {
        tokens.push(token);
        assert(strings_view(tokens@) =~= strings_view(old(tokens)@).push(token_of(part@)));
    }
}

/// Splits `text` into lowercase word tokens: maximal runs of alphanumeric
/// characters, each trimmed and lowercased; empty tokens are dropped. So the
/// tokens are the lowercased maximal alphanumeric runs, and there are none
/// exactly when the text has no alphanumeric character.
pub fn tokenize(text: &str) -> (tokens: Vec<String>)
    ensures
        strings_view(tokens@) == tokens_of(text@),
        tokens_of(text@) == alphanumeric_runs(text@).map_values(|p: Seq<char>| lowercased(p)),
        tokens@.len() == 0 <==> !has_alphanumeric(text@),
{
    let chars = chars_of(text);
    let mut tokens: Vec<String> = Vec::new();
    let mut part: Vec<char> = Vec::new();
    let ghost mut done: Seq<Seq<char>> = Seq::empty();
    let ghost f = |p: Seq<char>| token_of(p);
    let ghost keep = |t: Seq<char>| nonempty(t);
    let n: usize = chars.len();
    let mut i: usize = 0;
    assert(chars@.take(0) =~= Seq::<char>::empty());
    assert(strings_view(tokens@) =~= done.map_values(f).filter(keep)) by {
        reveal(Seq::filter);
    }
    while i < n
        invariant
            n == chars@.len(),
            chars@ == text@,
            i <= n,
            split_parts(chars@.take(i as int)) == done.push(part@),
            strings_view(tokens@) == done.map_values(f).filter(keep),
            f == (|p: Seq<char>| token_of(p)),
            keep == (|t: Seq<char>| nonempty(t)),
            no_white_space(part@),
            forall|k: int| 0 <= k < done.len() ==> token_of(#[trigger] done[k]) == lowercased(done[k]),
            forall|k: int| 0 <= k < done.len() ==> (nonempty(token_of(#[trigger] done[k])) <==> nonempty(done[k])),
        decreases n - i,
    {
        let c = chars[i];
        let ghost prefix = chars@.take(i as int);
        assert(chars@.take(i + 1).drop_last() =~= prefix);
        if is_alphanumeric(c) {
            part.push(c);
            assert(split_parts(chars@.take(i + 1)) =~= done.push(part@));
        } else {
            flush_part(&mut tokens, &part);
            proof {
                lemma_trimmed_no_ws(part@);
                let old_done = done;
                done = done.push(part@);
                assert(done.map_values(f) =~= old_done.map_values(f).push(f(part@)));
                old_done.map_values(f).lemma_filter_push(f(part@), keep);
                assert(done[done.len() - 1] == part@);
            }
            part = Vec::new();
            assert(split_parts(chars@.take(i + 1)) =~= done.push(part@));
        }
        i = i + 1;
    }
    flush_part(&mut tokens, &part);
    proof {
        lemma_trimmed_no_ws(part@);
        let all = done.push(part@);
        assert(all.map_values(f) =~= done.map_values(f).push(f(part@)));
        done.map_values(f).lemma_filter_push(f(part@), keep);
        assert(chars@.take(n as int) =~= text@);
        assert(all[all.len() - 1] == part@);
        assert forall|k: int| 0 <= k < all.len() implies token_of(#[trigger] all[k]) == lowercased(all[k]) by {
            if k < done.len() {
                assert(all[k] == done[k]);
            }
        }
        assert forall|k: int| 0 <= k < all.len() implies (nonempty(token_of(#[trigger] all[k])) <==> nonempty(all[k])) by {
            if k < done.len() {
                assert(all[k] == done[k]);
            }
        }
        lemma_tokens_as_runs(all);
        lemma_split_parts_empty(text@);
        let runs = all.filter(keep);
        if tokens@.len() == 0 {
            assert(runs.map_values(|p: Seq<char>| lowercased(p)).len() == 0);
            assert forall|k: int| 0 <= k < all.len() implies #[trigger] all[k].len() == 0 by {
                if all[k].len() > 0 {
                    all.lemma_filter_contains(keep, k);
                }
            }
        } else {
            assert(strings_view(tokens@).len() == tokens@.len());
            if forall|k: int| 0 <= k < all.len() ==> #[trigger] all[k].len() == 0 {
                lemma_filter_nonempty_none(all);
                assert(runs.map_values(|p: Seq<char>| lowercased(p)).len() == 0);
            }
        }
    }
    tokens
}

/// The pieces of `s` between newline characters, terminators left out:
/// one piece more than there are newlines.
pub open spec fn newline_pieces(s: Seq<char>) -> Seq<Seq<char>>
    decreases s.len(),
{
    if s.len() == 0 {
        seq![Seq::<char>::empty()]
    } else {
        let pieces = newline_pieces(s.drop_last());
        if s.last() != '\n' {
            pieces.update(pieces.len() - 1, pieces.last().push(s.last()))
        } else {
            pieces.push(Seq::<char>::empty())
        }
    }
}

/// A line that ended in "\r\n" loses its carriage return.
pub open spec fn strip_cr(line: Seq<char>) -> Seq<char> {
    if line.len() > 0 && line.last() == '\r' {
        line.drop_last()
    } else {
        line
    }
}

/// The lines of a text as `str::lines` yields them: split at '\n'; a line
/// ended by "\r\n" loses the '\r' too; the final line ending is optional, so
/// an empty piece after the last newline (or of an empty text) is no line.
pub open spec fn lines_of(s: Seq<char>) -> Seq<Seq<char>> {
    let pieces = newline_pieces(s);
    let ended = pieces.drop_last().map_values(|l: Seq<char>| strip_cr(l));
    if pieces.last().len() == 0 {
        ended
    } else {
        ended.push(pieces.last())
    }
}

/// The non-empty texts of a sequence, in order.
pub open spec fn keep_nonempty(s: Seq<Seq<char>>) -> Seq<Seq<char>> {
    s.filter(|l: Seq<char>| nonempty(l))
}

/// The lines of a text, each trimmed, with the blank ones left out.
pub open spec fn content_lines(s: Seq<char>) -> Seq<Seq<char>> {
    keep_nonempty(lines_of(s).map_values(|l: Seq<char>| trimmed(l)))
}

/// The texts of `list` joined with `sep` between neighbours.
pub open spec fn join_with(list: Seq<Seq<char>>, sep: Seq<char>) -> Seq<char>
    decreases list.len(),
{
    if list.len() == 0 {
        Seq::empty()
    } else if list.len() == 1 {
        list[0]
    } else {
        join_with(list.drop_last(), sep) + sep + list.last()
    }
}

/// What a summary says of a text: its first three content lines joined by
/// " | ", or "No OCR text extracted" where it has none.
pub open spec fn summary_of(text: Seq<char>) -> Seq<char> {
    let lines = content_lines(text);
    if lines.len() == 0 {
        "No OCR text extracted"@
    } else {
        join_with(if lines.len() <= 3 { lines } else { lines.take(3) }, " | "@)
    }
}

proof fn lemma_newline_pieces_nonempty(s: Seq<char>)
    ensures
        newline_pieces(s).len() >= 1,
    decreases s.len(),
{
    if s.len() > 0 {
        lemma_newline_pieces_nonempty(s.drop_last());
    }
}

/// Appends the trimmed `line` to `kept` when it is not blank.
fn keep_line(kept: &mut Vec<String>, line: &Vec<char>)
    ensures
        strings_view(final(kept)@) == if nonempty(trimmed(line@)) {
            strings_view(old(kept)@).push(trimmed(line@))
        } else {
            strings_view(old(kept)@)
        },
{
    let text = string_of(line);
    let t = trim(text.as_str());
    if !t.is_empty() {
        kept.push(String::from_str(t));
        assert(strings_view(kept@) =~= strings_view(old(kept)@).push(trimmed(line@)));
    }
}

/// The content lines of `text`: every line (as `str::lines` splits), trimmed,
/// blank ones left out, in order.
pub fn content_lines_of(text: &str) -> (lines: Vec<String>)
    ensures
        strings_view(lines@) == content_lines(text@),
{
    let chars = chars_of(text);
    let mut kept: Vec<String> = Vec::new();
    let mut line: Vec<char> = Vec::new();
    let ghost mut done: Seq<Seq<char>> = Seq::empty();
    let ghost t = |l: Seq<char>| trimmed(l);
    let ghost keep = |l: Seq<char>| nonempty(l);
    let ghost cr = |l: Seq<char>| strip_cr(l);
    let n: usize = chars.len();
    let mut i: usize = 0;
    assert(chars@.take(0) =~= Seq::<char>::empty());
    assert(strings_view(kept@) =~= done.map_values(cr).map_values(t).filter(keep)) by {
        reveal(Seq::filter);
    }
    while i < n
        invariant
            n == chars@.len(),
            chars@ == text@,
            i <= n,
            newline_pieces(chars@.take(i as int)) == done.push(line@),
            strings_view(kept@) == done.map_values(cr).map_values(t).filter(keep),
            t == (|l: Seq<char>| trimmed(l)),
            keep == (|l: Seq<char>| nonempty(l)),
            cr == (|l: Seq<char>| strip_cr(l)),
        decreases n - i,
    {
        let c = chars[i];
        let ghost prefix = chars@.take(i as int);
        assert(chars@.take(i + 1).drop_last() =~= prefix);
        if c != '\n' {
            line.push(c);
            assert(newline_pieces(chars@.take(i + 1)) =~= done.push(line@));
        } else {
            let ghost raw = line@;
            let len = line.len();
            if len > 0 && line[len - 1] == '\r' {
                line.pop();
            }
            assert(line@ =~= strip_cr(raw));
            keep_line(&mut kept, &line);
            proof {
                let old_done = done;
                done = done.push(raw);
                assert(done.map_values(cr) =~= old_done.map_values(cr).push(line@));
                assert(done.map_values(cr).map_values(t) =~= old_done.map_values(cr).map_values(t).push(t(line@)));
                old_done.map_values(cr).map_values(t).lemma_filter_push(t(line@), keep);
            }
            line = Vec::new();
            assert(newline_pieces(chars@.take(i + 1)) =~= done.push(line@));
        }
        i = i + 1;
    }
    assert(chars@.take(n as int) =~= text@);
    proof {
        lemma_newline_pieces_nonempty(text@);
        let pieces = newline_pieces(text@);
        assert(pieces.drop_last() =~= done);
        assert(pieces.last() == line@);
    }
    if line.len() > 0 {
        keep_line(&mut kept, &line);
        proof {
            let ended = done.map_values(cr);
            assert(ended.push(line@).map_values(t) =~= ended.map_values(t).push(t(line@)));
            ended.map_values(t).lemma_filter_push(t(line@), keep);
        }
    }
    kept
}

proof fn lemma_trim_start_props(s: Seq<char>)
    ensures
        trim_start(s).len() <= s.len(),
        forall|i: int| 0 <= i < trim_start(s).len() ==> #[trigger] trim_start(s)[i] == s[i + (s.len() - trim_start(s).len())],
        forall|i: int| 0 <= i < s.len() - trim_start(s).len() ==> white_space(#[trigger] s[i]),
        trim_start(s).len() > 0 ==> !white_space(trim_start(s)[0]),
    decreases s.len(),
{
    if s.len() > 0 && white_space(s[0]) {
        let t = s.drop_first();
        lemma_trim_start_props(t);
        assert(trim_start(s) == trim_start(t));
        assert forall|i: int| 0 <= i < s.len() - trim_start(s).len() implies white_space(#[trigger] s[i]) by {
            if i > 0 {
                assert(s[i] == t[i - 1]);
            }
        }
    }
}

proof fn lemma_trim_end_props(s: Seq<char>)
    ensures
        trim_end(s).len() <= s.len(),
        forall|i: int| 0 <= i < trim_end(s).len() ==> #[trigger] trim_end(s)[i] == s[i],
        forall|i: int| trim_end(s).len() <= i < s.len() ==> white_space(#[trigger] s[i]),
        trim_end(s).len() > 0 ==> !white_space(trim_end(s).last()),
    decreases s.len(),
{
    if s.len() > 0 && white_space(s.last()) {
        let t = s.drop_last();
        lemma_trim_end_props(t);
        assert(trim_end(s) == trim_end(t));
        assert forall|i: int| trim_end(s).len() <= i < s.len() implies white_space(#[trigger] s[i]) by {
            if i < t.len() {
                assert(s[i] == t[i]);
            }
        }
    }
}

/// `t` stands in `s` from position `a` on.
pub open spec fn occurs_at(t: Seq<char>, s: Seq<char>, a: int) -> bool {
    &&& 0 <= a && a + t.len() <= s.len()
    &&& forall|i: int| 0 <= i < t.len() ==> #[trigger] t[i] == s[a + i]
}

/// What trimming leaves is a contiguous piece of the text; it is empty
/// exactly when the text is blank.
pub proof fn lemma_trimmed_props(s: Seq<char>)
    ensures
        exists|a: int| #[trigger] occurs_at(trimmed(s), s, a),
        trimmed(s).len() == 0 <==> blank(s),
        trimmed(s).len() > 0 ==> !white_space(trimmed(s)[0]) && !white_space(trimmed(s).last()),
{
    lemma_trim_start_props(s);
    let t = trim_start(s);
    lemma_trim_end_props(t);
    let a = s.len() - t.len();
    let n = trimmed(s).len();
    assert(forall|i: int| 0 <= i < n ==> #[trigger] trimmed(s)[i] == s[a + i]) by {
        assert forall|i: int| 0 <= i < n implies #[trigger] trimmed(s)[i] == s[a + i] by {
            assert(trimmed(s)[i] == t[i]);
        }
    }
    assert(occurs_at(trimmed(s), s, a));
    if t.len() > 0 && n > 0 {
        assert(trimmed(s)[0] == t[0]);
    }
    if t.len() > 0 && n == 0 {
        assert(white_space(t[0]));
    }
    if blank(s) && t.len() > 0 {
        assert(t[0] == s[a]);
    }
    if n == 0 {
        assert forall|i: int| 0 <= i < s.len() implies white_space(#[trigger] s[i]) by {
            if i >= a {
                assert(t[i - a] == s[i]);
                assert(white_space(t[i - a]));
            }
        }
    }
}

/// Trimming twice is trimming once.
pub proof fn lemma_trimmed_idempotent(s: Seq<char>)
    ensures
        trimmed(trimmed(s)) == trimmed(s),
{
    lemma_trimmed_props(s);
    let t = trimmed(s);
    if t.len() > 0 {
        assert(trim_start(t) == t);
        assert(trim_end(t) == t);
    }
}

/// No character of the text is a newline.
pub open spec fn no_newline(s: Seq<char>) -> bool {
    forall|i: int| 0 <= i < s.len() ==> #[trigger] s[i] != '\n'
}

/// Trimming a text without newlines leaves none.
pub proof fn lemma_trimmed_no_newline(s: Seq<char>)
    requires
        no_newline(s),
    ensures
        no_newline(trimmed(s)),
{
    lemma_trimmed_props(s);
    let a = choose|a: int| #[trigger] occurs_at(trimmed(s), s, a);
    assert forall|i: int| 0 <= i < trimmed(s).len() implies #[trigger] trimmed(s)[i] != '\n' by {
        assert(trimmed(s)[i] == s[a + i]);
    }
}

/// Every piece between newlines has no newline; together they are blank
/// exactly when the text is.
pub proof fn lemma_newline_pieces_props(s: Seq<char>)
    ensures
        newline_pieces(s).len() >= 1,
        forall|k: int| 0 <= k < newline_pieces(s).len() ==> no_newline(#[trigger] newline_pieces(s)[k]),
        (forall|k: int| 0 <= k < newline_pieces(s).len() ==> blank(#[trigger] newline_pieces(s)[k])) <==> blank(s),
    decreases s.len(),
{
    if s.len() > 0 {
        let t = s.drop_last();
        lemma_newline_pieces_props(t);
        let pt = newline_pieces(t);
        let ps = newline_pieces(s);
        let c = s.last();
        assert forall|k: int| 0 <= k < ps.len() implies no_newline(#[trigger] ps[k]) by {
            if k < pt.len() - 1 || (c == '\n' && k < pt.len()) {
                assert(ps[k] == pt[k]);
            } else if c != '\n' {
                assert(ps[k] == pt[k].push(c));
                assert(no_newline(pt[k]));
                assert forall|i: int| 0 <= i < ps[k].len() implies #[trigger] ps[k][i] != '\n' by {
                    if i < pt[k].len() {
                        assert(ps[k][i] == pt[k][i]);
                    }
                }
            } else {
                assert(ps[k].len() == 0);
            }
        }
        let all_blank_t = forall|k: int| 0 <= k < pt.len() ==> blank(#[trigger] pt[k]);
        let all_blank_s = forall|k: int| 0 <= k < ps.len() ==> blank(#[trigger] ps[k]);
        assert(blank(s) <==> blank(t) && white_space(c)) by {
            if blank(t) && white_space(c) {
                assert forall|i: int| 0 <= i < s.len() implies white_space(#[trigger] s[i]) by {
                    if i < t.len() {
                        assert(s[i] == t[i]);
                    }
                }
            }
            if blank(s) {
                assert forall|i: int| 0 <= i < t.len() implies white_space(#[trigger] t[i]) by {
                    assert(s[i] == t[i]);
                }
                assert(white_space(s[s.len() - 1]));
            }
        }
        if c == '\n' {
            assert(white_space(c));
            if all_blank_t {
                assert forall|k: int| 0 <= k < ps.len() implies blank(#[trigger] ps[k]) by {
                    if k < pt.len() {
                        assert(ps[k] == pt[k]);
                    } else {
                        assert(ps[k].len() == 0);
                    }
                }
            }
            if all_blank_s {
                assert forall|k: int| 0 <= k < pt.len() implies blank(#[trigger] pt[k]) by {
                    assert(ps[k] == pt[k]);
                }
            }
        } else {
            let last = pt.len() - 1;
            assert(ps[last] == pt[last].push(c));
            if all_blank_t && white_space(c) {
                assert forall|k: int| 0 <= k < ps.len() implies blank(#[trigger] ps[k]) by {
                    if k < last {
                        assert(ps[k] == pt[k]);
                    } else {
                        assert(blank(pt[last]));
                        assert forall|i: int| 0 <= i < ps[k].len() implies white_space(#[trigger] ps[k][i]) by {
                            if i < pt[last].len() {
                                assert(ps[k][i] == pt[last][i]);
                            }
                        }
                    }
                }
            }
            if all_blank_s {
                assert(blank(ps[last]));
                assert(ps[last][ps[last].len() - 1] == c);
                assert forall|k: int| 0 <= k < pt.len() implies blank(#[trigger] pt[k]) by {
                    if k < last {
                        assert(ps[k] == pt[k]);
                    } else {
                        assert forall|i: int| 0 <= i < pt[k].len() implies white_space(#[trigger] pt[k][i]) by {
                            assert(ps[last][i] == pt[last][i]);
                        }
                    }
                }
            }
        }
    }
}

proof fn lemma_strip_cr_props(p: Seq<char>)
    ensures
        blank(strip_cr(p)) <==> blank(p),
        no_newline(p) ==> no_newline(strip_cr(p)),
{
    if p.len() > 0 && p.last() == '\r' {
        let q = p.drop_last();
        if blank(q) {
            assert forall|i: int| 0 <= i < p.len() implies white_space(#[trigger] p[i]) by {
                if i < q.len() {
                    assert(p[i] == q[i]);
                }
            }
        }
        if blank(p) {
            assert forall|i: int| 0 <= i < q.len() implies white_space(#[trigger] q[i]) by {
                assert(p[i] == q[i]);
            }
        }
        if no_newline(p) {
            assert forall|i: int| 0 <= i < q.len() implies #[trigger] q[i] != '\n' by {
                assert(p[i] == q[i]);
            }
        }
    }
}

/// The lines of a text have no newline, and are all blank exactly when the text is.
pub proof fn lemma_lines_props(s: Seq<char>)
    ensures
        forall|k: int| 0 <= k < lines_of(s).len() ==> no_newline(#[trigger] lines_of(s)[k]),
        (forall|k: int| 0 <= k < lines_of(s).len() ==> blank(#[trigger] lines_of(s)[k])) <==> blank(s),
{
    lemma_newline_pieces_props(s);
    let pieces = newline_pieces(s);
    let ended = pieces.drop_last().map_values(|l: Seq<char>| strip_cr(l));
    let lines = lines_of(s);
    let last = pieces.len() - 1;
    assert forall|k: int| 0 <= k < ended.len() implies (#[trigger] ended[k]) == strip_cr(pieces[k]) by {}
    assert forall|k: int| 0 <= k < lines.len() implies no_newline(#[trigger] lines[k]) by {
        if k < ended.len() {
            lemma_strip_cr_props(pieces[k]);
            assert(lines[k] == ended[k]);
        } else {
            assert(lines[k] == pieces[last]);
        }
    }
    let all_lines = forall|k: int| 0 <= k < lines.len() ==> blank(#[trigger] lines[k]);
    let all_pieces = forall|k: int| 0 <= k < pieces.len() ==> blank(#[trigger] pieces[k]);
    if all_pieces {
        assert forall|k: int| 0 <= k < lines.len() implies blank(#[trigger] lines[k]) by {
            if k < ended.len() {
                lemma_strip_cr_props(pieces[k]);
                assert(lines[k] == ended[k]);
            } else {
                assert(lines[k] == pieces[last]);
            }
        }
    }
    if all_lines {
        assert forall|k: int| 0 <= k < pieces.len() implies blank(#[trigger] pieces[k]) by {
            if k < last {
                lemma_strip_cr_props(pieces[k]);
                assert(lines[k] == ended[k]);
            } else if pieces[last].len() > 0 {
                assert(lines[last] == pieces[last]);
            }
        }
    }
}

proof fn lemma_filter_keeps_no_newline(s: Seq<Seq<char>>)
    requires
        forall|k: int| 0 <= k < s.len() ==> no_newline(#[trigger] s[k]),
    ensures
        forall|k: int| 0 <= k < keep_nonempty(s).len() ==> no_newline(#[trigger] keep_nonempty(s)[k]),
    decreases s.len(),
{
    reveal(Seq::filter);
    if s.len() > 0 {
        let rest = s.drop_last();
        assert forall|k: int| 0 <= k < rest.len() implies no_newline(#[trigger] rest[k]) by {
            assert(rest[k] == s[k]);
        }
        lemma_filter_keeps_no_newline(rest);
        let x = s[s.len() - 1];
        assert(no_newline(x));
        assert(rest.push(x) =~= s);
        rest.lemma_filter_push(x, |l: Seq<char>| nonempty(l));
        let kr = keep_nonempty(rest);
        assert forall|k: int| 0 <= k < keep_nonempty(s).len() implies no_newline(#[trigger] keep_nonempty(s)[k]) by {
            if k < kr.len() {
                assert(keep_nonempty(s)[k] == kr[k]);
            } else {
                assert(keep_nonempty(s)[k] == x);
            }
        }
    } else {
        assert(keep_nonempty(s).len() == 0);
    }
}

/// The content lines of a text have no newline, and there are none exactly
/// when the text is blank.
pub proof fn lemma_content_lines_props(s: Seq<char>)
    ensures
        forall|k: int| 0 <= k < content_lines(s).len() ==> no_newline(#[trigger] content_lines(s)[k]),
        content_lines(s).len() == 0 <==> blank(s),
{
    lemma_lines_props(s);
    let lines = lines_of(s);
    let t = lines.map_values(|l: Seq<char>| trimmed(l));
    assert forall|k: int| 0 <= k < t.len() implies no_newline(#[trigger] t[k]) by {
        lemma_trimmed_no_newline(lines[k]);
    }
    lemma_filter_keeps_no_newline(t);
    if blank(s) {
        assert forall|k: int| 0 <= k < t.len() implies #[trigger] t[k].len() == 0 by {
            lemma_trimmed_props(lines[k]);
        }
        lemma_filter_nonempty_none(t);
    } else {
        let k = choose|k: int| 0 <= k < lines.len() && !blank(#[trigger] lines[k]);
        lemma_trimmed_props(lines[k]);
        assert(nonempty(t[k]));
        t.lemma_filter_contains(|l: Seq<char>| nonempty(l), k);
    }
}

/// The first `count` texts of `list` joined with `sep` between neighbours.
fn join_first(list: &Vec<String>, count: usize, sep: &str) -> (joined: String)
    requires
        count <= list@.len(),
    ensures
        joined@ == join_with(strings_view(list@).take(count as int), sep@),
{
    let ghost view = strings_view(list@);
    let mut joined = String::new();
    let mut i: usize = 0;
    assert(view.take(0) =~= Seq::<Seq<char>>::empty());
    while i < count
        invariant
            count <= list@.len(),
            view == strings_view(list@),
            i <= count,
            joined@ == join_with(view.take(i as int), sep@),
        decreases count - i,
    {
        assert(view.take(i + 1).drop_last() =~= view.take(i as int));
        assert(view[i as int] == list@[i as int]@);
        if i == 0 {
            joined.append(list[i].as_str());
            assert(joined@ =~= join_with(view.take(1), sep@));
        } else {
            joined.append(sep);
            joined.append(list[i].as_str());
        }
        i = i + 1;
    }
    joined
}

/// A short summary of recognised text: its first three non-blank lines,
/// trimmed and joined by " | ", or "No OCR text extracted" when there are none.
pub fn summarize_text(text: &str) -> (summary: String)
    ensures
        summary@ == summary_of(text@),
{
    let lines = content_lines_of(text);
    if lines.len() == 0 {
        String::from_str("No OCR text extracted")
    } else {
        let count: usize = if lines.len() < 3 { lines.len() } else { 3 };
        assert(strings_view(lines@).take(lines.len() as int) =~= strings_view(lines@));
        join_first(&lines, count, " | ")
    }
}

/// The number of non-blank lines of a text.
pub fn count_content_lines(text: &str) -> (count: usize)
    ensures
        count == content_lines(text@).len(),
{
    let lines = content_lines_of(text);
    lines.len()
}

} // verus!
