//! Properties that hold across the library's functions.

use vstd::prelude::*;
use crate::hashing::{bucket_count, bucket_of, VECTOR_DIMENSIONS};
use crate::monitor::{cycle_step, error_step, outcome_step, run_step, start_step, stop_step, stored_step, unchanged, MonitorView, OutcomeView};
use crate::record::{derived_from, RecordView};
use crate::hashing::{hex_digits, hex_lower, fingerprint, lemma_hex_lower_len};
use crate::text::{
    alphanumeric, content_lines, split_parts, token_of, join_with, lemma_content_lines_props, lemma_trimmed_props, no_newline, nonempty,
    summary_of, tokens_of, trimmed,
};

verus! {

broadcast use vstd::seq_lib::group_seq_properties;

/// The sum of a sequence of counts.
pub open spec fn sum_counts(counts: Seq<u64>) -> int
    decreases counts.len(),
{
    if counts.len() == 0 {
        0
    } else {
        sum_counts(counts.drop_last()) + counts.last()
    }
}

/// How many of `tokens` fall into the first `k` buckets.
pub open spec fn buckets_total(tokens: Seq<Seq<char>>, k: nat) -> int
    decreases k,
{
    if k == 0 {
        0
    } else {
        buckets_total(tokens, (k - 1) as nat) + bucket_count(tokens, k - 1)
    }
}

proof fn lemma_bucket_in_range(t: Seq<char>)
    ensures
        0 <= bucket_of(t) < VECTOR_DIMENSIONS,
{
}

proof fn lemma_buckets_total_push(tokens: Seq<Seq<char>>, t: Seq<char>, k: nat)
    ensures
        buckets_total(tokens.push(t), k) == buckets_total(tokens, k) + (if bucket_of(t) < k { 1int } else { 0int }),
    decreases k,
{
    lemma_bucket_in_range(t);
    if k > 0 {
        lemma_buckets_total_push(tokens, t, (k - 1) as nat);
        tokens.lemma_filter_push(t, |x: Seq<char>| bucket_of(x) == k - 1);
    }
}

proof fn lemma_buckets_total_empty(k: nat)
    ensures
        buckets_total(Seq::<Seq<char>>::empty(), k) == 0,
    decreases k,
{
    if k > 0 {
        lemma_buckets_total_empty((k - 1) as nat);
        reveal(Seq::filter);
    }
}

proof fn lemma_buckets_total_all(tokens: Seq<Seq<char>>)
    ensures
        buckets_total(tokens, VECTOR_DIMENSIONS as nat) == tokens.len(),
    decreases tokens.len(),
{
    if tokens.len() == 0 {
        lemma_buckets_total_empty(VECTOR_DIMENSIONS as nat);
    } else {
        let rest = tokens.drop_last();
        lemma_buckets_total_all(rest);
        lemma_buckets_total_push(rest, tokens.last(), VECTOR_DIMENSIONS as nat);
        lemma_bucket_in_range(tokens.last());
        assert(rest.push(tokens.last()) =~= tokens);
    }
}

proof fn lemma_sum_counts_prefix(counts: Seq<u64>, tokens: Seq<Seq<char>>, k: nat)
    requires
        k <= counts.len(),
        forall|b: int| 0 <= b < counts.len() ==> #[trigger] counts[b] == bucket_count(tokens, b),
    ensures
        sum_counts(counts.take(k as int)) == buckets_total(tokens, k),
    decreases k,
{
    if k > 0 {
        lemma_sum_counts_prefix(counts, tokens, (k - 1) as nat);
        assert(counts.take(k as int).drop_last() =~= counts.take(k - 1));
    }
}

/// Every token of a text has at least one character.
pub proof fn law_tokens_are_nonempty(text: Seq<char>)
    ensures
        forall|i: int| 0 <= i < tokens_of(text).len() ==> #[trigger] tokens_of(text)[i].len() > 0,
{
    let parts = crate::text::split_parts(text).map_values(|p: Seq<char>| crate::text::token_of(p));
    assert forall|i: int| 0 <= i < tokens_of(text).len() implies #[trigger] tokens_of(text)[i].len() > 0 by {
        parts.lemma_filter_pred(|t: Seq<char>| nonempty(t), i);
    }
}

/// The term counts of a record account for every one of its words: they sum
/// to its word count.
pub proof fn law_term_counts_sum_to_word_count(
    d: RecordView,
    captured_at: Seq<char>,
    image_hash: Seq<char>,
    extracted_text: Seq<char>,
)
    requires
        derived_from(d, captured_at, image_hash, extracted_text),
    ensures
        sum_counts(d.term_counts) == d.word_count,
{
    let tokens = tokens_of(crate::text::trimmed(extracted_text));
    lemma_sum_counts_prefix(d.term_counts, tokens, VECTOR_DIMENSIONS as nat);
    assert(d.term_counts.take(VECTOR_DIMENSIONS as int) =~= d.term_counts);
    lemma_buckets_total_all(tokens);
}

/// Starting a running monitor changes nothing and starts no second loop; so
/// starting twice is starting once.
pub proof fn law_start_is_idempotent(m: MonitorView)
    ensures
        start_step(start_step(m).0) == (start_step(m).0, false),
        m.running ==> start_step(m) == (m, false),
{
}

/// A stopped monitor's loop ends at its next cycle and leaves the state as
/// it is; a stopped monitor, started again, starts a new loop.
pub proof fn law_stop_ends_the_loop(m: MonitorView, now: Option<Seq<char>>)
    ensures
        cycle_step(stop_step(m), now) == (stop_step(m), None::<u64>),
        start_step(stop_step(m)).1,
        start_step(stop_step(m)).0.running,
{
}

/// Once a capture was stored or skipped as unchanged, a capture of the same
/// image is recognised as unchanged: the same screen is not stored twice in a row.
pub proof fn law_same_screen_is_skipped(
    m: MonitorView,
    image_hash: Seq<char>,
    captured_at: Seq<char>,
    record: RecordView,
    total: Result<u64, Seq<char>>,
)
    ensures
        unchanged(stored_step(m, image_hash, captured_at, record, total).last_image_hash, image_hash),
        unchanged(
            outcome_step(m, OutcomeView::SkippedUnchanged { image_hash }).last_image_hash,
            image_hash,
        ),
        unchanged(
            outcome_step(m, OutcomeView::SkippedEmpty { image_hash }).last_image_hash,
            image_hash,
        ),
{
}

/// A stored record whose records were counted becomes the last result, its
/// capture time the last ingestion time, and the last error is cleared.
pub proof fn law_store_clears_error(
    m: MonitorView,
    image_hash: Seq<char>,
    captured_at: Seq<char>,
    record: RecordView,
    n: u64,
)
    ensures
        ({
            let after = stored_step(m, image_hash, captured_at, record, Ok(n));
            &&& after.last_error is None
            &&& after.last_result == Some(record)
            &&& after.last_ingested_at == Some(captured_at)
            &&& after.total_items == n
        }),
{
}

/// No step changes the monitoring interval, and only a counted store changes
/// the number of items; only starting and stopping change whether the
/// monitor runs.
pub proof fn law_steps_keep_interval(
    m: MonitorView,
    now: Option<Seq<char>>,
    error: Seq<char>,
    outcome: OutcomeView,
    image_hash: Seq<char>,
    captured_at: Seq<char>,
    record: RecordView,
    total: Result<u64, Seq<char>>,
)
    ensures
        start_step(m).0.interval_seconds == m.interval_seconds,
        stop_step(m).interval_seconds == m.interval_seconds,
        run_step(m, now).interval_seconds == m.interval_seconds,
        cycle_step(m, now).0.interval_seconds == m.interval_seconds,
        error_step(m, error).interval_seconds == m.interval_seconds,
        outcome_step(m, outcome).interval_seconds == m.interval_seconds,
        stored_step(m, image_hash, captured_at, record, total).interval_seconds == m.interval_seconds,
        run_step(m, now).total_items == m.total_items,
        cycle_step(m, now).0.total_items == m.total_items,
        error_step(m, error).total_items == m.total_items,
        outcome_step(m, outcome).total_items == m.total_items,
        start_step(m).0.total_items == m.total_items,
        stop_step(m).total_items == m.total_items,
        (total is Err) ==> stored_step(m, image_hash, captured_at, record, total).total_items == m.total_items,
        run_step(m, now).running == m.running,
        cycle_step(m, now).0.running == m.running,
        error_step(m, error).running == m.running,
        outcome_step(m, outcome).running == m.running,
        stored_step(m, image_hash, captured_at, record, total).running == m.running,
{
}

/// A running loop waits the monitor's interval between cycles, and every
/// cycle notes its run.
pub proof fn law_cycle_waits_interval(m: MonitorView, now: Option<Seq<char>>)
    requires
        m.running,
    ensures
        cycle_step(m, now) == (run_step(m, now), Some(m.interval_seconds)),
        cycle_step(m, now).0.last_run_at == now,
{
}

proof fn lemma_join_nonempty(list: Seq<Seq<char>>, sep: Seq<char>)
    requires
        list.len() > 0,
        list.last().len() > 0,
    ensures
        join_with(list, sep).len() > 0,
{
    if list.len() > 1 {
        assert(join_with(list, sep) == join_with(list.drop_last(), sep) + sep + list.last());
    }
}

/// A summary is never empty: either some lines of the text, or the note that
/// no text was extracted.
pub proof fn law_summary_is_nonempty(text: Seq<char>)
    ensures
        summary_of(text).len() > 0,
{
    let lines = content_lines(text);
    if lines.len() == 0 {
        reveal_strlit("No OCR text extracted");
    } else {
        let shown = if lines.len() <= 3 { lines } else { lines.take(3) };
        let all = crate::text::lines_of(text).map_values(|l: Seq<char>| crate::text::trimmed(l));
        all.lemma_filter_pred(|l: Seq<char>| nonempty(l), shown.len() - 1);
        lemma_join_nonempty(shown, " | "@);
    }
}

proof fn lemma_hex_lower_digits(data: Seq<u8>)
    ensures
        forall|i: int| 0 <= i < hex_lower(data).len() ==> hex_digits().contains(#[trigger] hex_lower(data)[i]),
    decreases data.len(),
{
    lemma_hex_lower_len(data);
    if data.len() > 0 {
        let rest = data.drop_last();
        lemma_hex_lower_digits(rest);
        lemma_hex_lower_len(rest);
        let hi = (data.last() / 16) as int;
        let lo = (data.last() % 16) as int;
        assert(hex_digits().contains(hex_digits()[hi]));
        assert(hex_digits().contains(hex_digits()[lo]));
        assert forall|i: int| 0 <= i < hex_lower(data).len() implies hex_digits().contains(#[trigger] hex_lower(data)[i]) by {
            if i < hex_lower(rest).len() {
                assert(hex_lower(data)[i] == hex_lower(rest)[i]);
            }
        }
    }
}

/// A fingerprint has two lowercase hexadecimal digits per byte of the
/// digest: 64 of them, as the digest has 32 bytes.
pub proof fn law_fingerprint_is_lowercase_hex(data: Seq<u8>)
    ensures
        fingerprint(data).len() == 2 * crate::hashing::sha256(data).len(),
        forall|i: int| 0 <= i < fingerprint(data).len() ==> hex_digits().contains(#[trigger] fingerprint(data)[i]),
{
    lemma_hex_lower_len(crate::hashing::sha256(data));
    lemma_hex_lower_digits(crate::hashing::sha256(data));
}

/// A text without words has an all-zero term vector.
pub proof fn law_no_words_no_counts(text: Seq<char>)
    requires
        tokens_of(text).len() == 0,
    ensures
        forall|b: int| 0 <= b < VECTOR_DIMENSIONS ==> #[trigger] bucket_count(tokens_of(text), b) == 0,
{
    assert forall|b: int| 0 <= b < VECTOR_DIMENSIONS implies #[trigger] bucket_count(tokens_of(text), b) == 0 by {
        tokens_of(text).lemma_filter_len(|t: Seq<char>| bucket_of(t) == b);
    }
}

proof fn lemma_join_no_newline(list: Seq<Seq<char>>, sep: Seq<char>)
    requires
        forall|k: int| 0 <= k < list.len() ==> no_newline(#[trigger] list[k]),
        no_newline(sep),
    ensures
        no_newline(join_with(list, sep)),
    decreases list.len(),
{
    if list.len() > 1 {
        let rest = list.drop_last();
        assert forall|k: int| 0 <= k < rest.len() implies no_newline(#[trigger] rest[k]) by {
            assert(rest[k] == list[k]);
        }
        lemma_join_no_newline(rest, sep);
        let a = join_with(rest, sep);
        let x = list[list.len() - 1];
        assert(no_newline(x));
        let j = a + sep + x;
        assert forall|i: int| 0 <= i < j.len() implies #[trigger] j[i] != '\n' by {
            if i < a.len() {
                assert(j[i] == a[i]);
            } else if i < a.len() + sep.len() {
                assert(j[i] == sep[i - a.len()]);
            } else {
                assert(j[i] == x[i - a.len() - sep.len()]);
            }
        }
    } else if list.len() == 1 {
        assert(no_newline(list[0]));
    }
}

/// A summary is a single line: it holds no newline.
pub proof fn law_summary_has_no_newline(text: Seq<char>)
    ensures
        no_newline(summary_of(text)),
{
    lemma_content_lines_props(text);
    let lines = content_lines(text);
    if lines.len() == 0 {
        reveal_strlit("No OCR text extracted");
    } else {
        let shown = if lines.len() <= 3 { lines } else { lines.take(3) };
        assert forall|k: int| 0 <= k < shown.len() implies no_newline(#[trigger] shown[k]) by {
            assert(shown[k] == lines[k]);
        }
        reveal_strlit(" | ");
        lemma_join_no_newline(shown, " | "@);
    }
}

/// A text that trims to nothing has no content lines and is summarised as
/// "No OCR text extracted"; a text that trims to something has content lines.
pub proof fn law_blank_text_has_no_lines(text: Seq<char>)
    ensures
        content_lines(text).len() == 0 <==> trimmed(text).len() == 0,
        trimmed(text).len() == 0 ==> summary_of(text) == "No OCR text extracted"@,
{
    lemma_content_lines_props(text);
    lemma_trimmed_props(text);
}

/// One step of counting the tokens of bucket `b`.
pub open spec fn bucket_step(b: int) -> spec_fn(Seq<char>, int) -> int {
    |t: Seq<char>, acc: int| acc + if bucket_of(t) == b { 1int } else { 0int }
}

proof fn lemma_bucket_count_as_fold(s: Seq<Seq<char>>, b: int, v: int)
    ensures
        s.fold_right(bucket_step(b), v) == v + bucket_count(s, b),
    decreases s.len(),
{
    if s.len() == 0 {
        reveal(Seq::filter);
    } else {
        let rest = s.drop_last();
        let x = s.last();
        lemma_bucket_count_as_fold(rest, b, bucket_step(b)(x, v));
        assert(rest.push(x) =~= s);
        rest.lemma_filter_push(x, |t: Seq<char>| bucket_of(t) == b);
    }
}

/// The term counts do not depend on the order of the tokens: texts whose
/// tokens are the same with the same multiplicities have the same counts.
pub proof fn law_term_counts_ignore_order(x: Seq<char>, y: Seq<char>)
    requires
        tokens_of(x).to_multiset() == tokens_of(y).to_multiset(),
    ensures
        forall|b: int| 0 <= b < VECTOR_DIMENSIONS ==> #[trigger] bucket_count(tokens_of(x), b) == bucket_count(tokens_of(y), b),
{
    assert forall|b: int| 0 <= b < VECTOR_DIMENSIONS implies #[trigger] bucket_count(tokens_of(x), b) == bucket_count(tokens_of(y), b) by {
        let f = bucket_step(b);
        assert(vstd::seq_lib::commutative_foldr(f));
        vstd::seq_lib::lemma_fold_right_permutation(tokens_of(x), tokens_of(y), f, 0);
        lemma_bucket_count_as_fold(tokens_of(x), b, 0);
        lemma_bucket_count_as_fold(tokens_of(y), b, 0);
    }
}

proof fn lemma_split_parts_concat(a: Seq<char>, sep: char, b: Seq<char>)
    requires
        !alphanumeric(sep),
    ensures
        split_parts(a.push(sep) + b) == split_parts(a) + split_parts(b),
    decreases b.len(),
{
    lemma_split_parts_nonempty(a);
    lemma_split_parts_nonempty(b);
    if b.len() == 0 {
        assert(a.push(sep) + b =~= a.push(sep));
        assert((a.push(sep)).drop_last() =~= a);
        assert(split_parts(a) + split_parts(b) =~= split_parts(a).push(Seq::<char>::empty()));
    } else {
        let b2 = b.drop_last();
        let c = b.last();
        lemma_split_parts_concat(a, sep, b2);
        lemma_split_parts_nonempty(b2);
        let whole = a.push(sep) + b;
        assert(whole.drop_last() =~= a.push(sep) + b2);
        assert(whole.last() == c);
        let x = split_parts(a);
        let y = split_parts(b2);
        if alphanumeric(c) {
            assert((x + y).update((x + y).len() - 1, (x + y).last().push(c)) =~= x + y.update(
                y.len() - 1,
                y.last().push(c),
            ));
        } else {
            assert((x + y).push(Seq::<char>::empty()) =~= x + y.push(Seq::<char>::empty()));
        }
    }
}

proof fn lemma_split_parts_nonempty(s: Seq<char>)
    ensures
        split_parts(s).len() >= 1,
    decreases s.len(),
{
    if s.len() > 0 {
        lemma_split_parts_nonempty(s.drop_last());
    }
}

/// Tokenising a text joined around a non-alphanumeric separator gives the
/// tokens of the first part followed by those of the second.
pub proof fn law_tokens_of_joined_texts(a: Seq<char>, sep: char, b: Seq<char>)
    requires
        !alphanumeric(sep),
    ensures
        tokens_of(a + seq![sep] + b) == tokens_of(a) + tokens_of(b),
{
    assert(a + seq![sep] + b =~= a.push(sep) + b);
    lemma_split_parts_concat(a, sep, b);
    let f = |p: Seq<char>| token_of(p);
    let keep = |t: Seq<char>| nonempty(t);
    let x = split_parts(a);
    let y = split_parts(b);
    assert((x + y).map_values(f) =~= x.map_values(f) + y.map_values(f));
    Seq::filter_distributes_over_add(x.map_values(f), y.map_values(f), keep);
}

} // verus!
