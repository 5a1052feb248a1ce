//! What a record and its summary show of the text, stated over all inputs.

use vstd::prelude::*;
use vstd::utf8::encode_utf8;
use crate::hashing::{hex_lower, sha256};
use crate::monitor::unchanged;
use crate::record::{derived_from, RecordView};
use crate::text::{content_lines, join_with, occurs_at, summary_of, trimmed};

verus! {

broadcast use vstd::seq_lib::group_seq_properties;

/// The total length of a sequence of texts.
pub open spec fn total_len(list: Seq<Seq<char>>) -> int
    decreases list.len(),
{
    if list.len() == 0 {
        0
    } else {
        total_len(list.drop_last()) + list.last().len()
    }
}

/// The lines a summary shows: the first content lines, at most three.
pub open spec fn shown_lines(text: Seq<char>) -> Seq<Seq<char>> {
    content_lines(text).take(shown_count(text))
}

/// `line` stands whole, as one contiguous piece, in the summary of `text`.
pub open spec fn summary_shows(text: Seq<char>, line: Seq<char>) -> bool {
    exists|a: int| #[trigger] occurs_at(line, summary_of(text), a)
}

/// The number of lines a summary shows: all content lines, at most three.
pub open spec fn shown_count(text: Seq<char>) -> int {
    if content_lines(text).len() <= 3 {
        content_lines(text).len() as int
    } else {
        3
    }
}

proof fn lemma_join_len(list: Seq<Seq<char>>, sep: Seq<char>)
    requires
        list.len() > 0,
    ensures
        join_with(list, sep).len() == total_len(list) + sep.len() * (list.len() - 1),
        occurs_at(list[0], join_with(list, sep), 0),
    decreases list.len(),
{
    let j = join_with(list, sep);
    if list.len() == 1 {
        assert(total_len(list) == total_len(list.drop_last()) + list[0].len());
        assert(total_len(list.drop_last()) == 0);
        assert(occurs_at(list[0], j, 0));
    } else {
        let rest = list.drop_last();
        lemma_join_len(rest, sep);
        let jr = join_with(rest, sep);
        assert(j == jr + sep + list.last());
        assert(sep.len() * (list.len() - 1) == sep.len() * (rest.len() - 1) + sep.len()) by (nonlinear_arith)
            requires
                list.len() == rest.len() + 1,
        ;
        assert(rest[0] == list[0]);
        assert forall|m: int| 0 <= m < list[0].len() implies #[trigger] list[0][m] == j[m] by {
            assert(rest[0][m] == jr[m]);
        }
    }
}

proof fn lemma_join_occurs(list: Seq<Seq<char>>, sep: Seq<char>, i: int)
    requires
        0 <= i < list.len(),
    ensures
        exists|a: int| #[trigger] occurs_at(list[i], join_with(list, sep), a),
    decreases list.len(),
{
    let j = join_with(list, sep);
    if list.len() == 1 {
        assert(occurs_at(list[i], j, 0));
    } else {
        let rest = list.drop_last();
        let x = list.last();
        let jr = join_with(rest, sep);
        assert(j == jr + sep + x);
        if i < rest.len() {
            lemma_join_occurs(rest, sep, i);
            assert(rest[i] == list[i]);
            let a = choose|a: int| #[trigger] occurs_at(rest[i], jr, a);
            assert forall|m: int| 0 <= m < list[i].len() implies #[trigger] list[i][m] == j[a + m] by {
                assert(rest[i][m] == jr[a + m]);
            }
            assert(occurs_at(list[i], j, a));
        } else {
            let a: int = (jr.len() + sep.len()) as int;
            assert(list[i] == x);
            assert forall|m: int| 0 <= m < x.len() implies #[trigger] x[m] == j[a + m] by {
                assert(j[a + m] == (jr + sep + x)[a + m]);
            }
            assert(occurs_at(list[i], j, a));
        }
    }
}

/// A summary of a text with content lines shows its first lines (all of
/// them, at most three) in full: each occurs in it, the first at its start,
/// and its length is theirs plus three characters (" | ") between
/// neighbours; nothing is cut.
pub proof fn law_summary_shows_lines_in_full(text: Seq<char>)
    requires
        content_lines(text).len() > 0,
    ensures
        summary_of(text).len() == total_len(shown_lines(text)) + 3 * (shown_lines(text).len() - 1),
        forall|i: int|
            0 <= i < shown_lines(text).len() ==> #[trigger] summary_shows(text, shown_lines(text)[i]),
        occurs_at(shown_lines(text)[0], summary_of(text), 0),
{
    let lines = content_lines(text);
    let shown = shown_lines(text);
    reveal_strlit(" | ");
    if lines.len() <= 3 {
        assert(shown =~= lines);
    }
    assert(summary_of(text) == join_with(shown, " | "@));
    lemma_join_len(shown, " | "@);
    assert forall|i: int| 0 <= i < shown.len() implies #[trigger] summary_shows(text, shown[i]) by {
        lemma_join_occurs(shown, " | "@, i);
    }
}

/// A summary shows every content line of a text with at most three of
/// them, and exactly three lines of a longer one.
pub proof fn law_summary_shows_up_to_three_lines(text: Seq<char>)
    ensures
        content_lines(text).len() <= 3 ==> shown_count(text) == content_lines(text).len(),
        content_lines(text).len() > 3 ==> shown_count(text) == 3,
{
}

/// A record counts every non-blank line of its text, with no cap.
pub proof fn law_line_count_counts_every_line(
    d: RecordView,
    captured_at: Seq<char>,
    image_hash: Seq<char>,
    extracted_text: Seq<char>,
)
    requires
        derived_from(d, captured_at, image_hash, extracted_text),
    ensures
        d.line_count == content_lines(extracted_text).len(),
{
    crate::trim_laws::law_trimming_keeps_summary(extracted_text);
}

/// A record's text hash is the SHA-256, in lowercase hex, of the UTF-8
/// bytes of its trimmed text.
pub proof fn law_text_hash_is_utf8_fingerprint(
    d: RecordView,
    captured_at: Seq<char>,
    image_hash: Seq<char>,
    extracted_text: Seq<char>,
)
    requires
        derived_from(d, captured_at, image_hash, extracted_text),
    ensures
        d.text_hash == hex_lower(sha256(encode_utf8(trimmed(extracted_text)))),
        d.text_hash == hex_lower(sha256(encode_utf8(d.extracted_text))),
{
}

/// A capture is judged unchanged only when the previous fingerprint is
/// present and equal to the new one: distinct fingerprints, or none before,
/// always go on to recognition.
pub proof fn law_only_equal_fingerprints_are_unchanged(previous: Option<Seq<char>>, image_hash: Seq<char>)
    ensures
        unchanged(previous, image_hash) ==> previous == Some(image_hash),
        previous == Some(image_hash) ==> unchanged(previous, image_hash),
        !unchanged(None, image_hash),
{
}

} // verus!
