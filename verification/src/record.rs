//! The record that one ingestion stores, and how it is derived from the
//! recognised text.

use vstd::prelude::*;
use vstd::string::StringExecFns;
use vstd::utf8::encode_utf8;
use crate::hashing::{bucket_count, fingerprint, hex_lower, sha256, sha256_hex, term_counts, VECTOR_DIMENSIONS};
use crate::text::{content_lines, count_content_lines, summary_of, summarize_text, tokens_of, tokenize, trim, trimmed};

verus! {

/// A stored ingestion: where and when the screen was captured, its text, and
/// what was derived from that text. `term_counts` holds, per bucket, how many
/// tokens hash into it; the unit-length term vector is these counts scaled
/// by their Euclidean norm.
#[derive(Debug, Clone, PartialEq, Eq)]
pub struct IngestionRecord {
    pub id: i64,
    pub captured_at: String,
    pub image_hash: String,
    pub text_hash: String,
    pub extracted_text: String,
    pub summary: String,
    pub term_counts: Vec<u64>,
    pub word_count: usize,
    pub line_count: usize,
}

/// The mathematical content of a record.
pub struct RecordView {
    pub id: i64,
    pub captured_at: Seq<char>,
    pub image_hash: Seq<char>,
    pub text_hash: Seq<char>,
    pub extracted_text: Seq<char>,
    pub summary: Seq<char>,
    pub term_counts: Seq<u64>,
    pub word_count: nat,
    pub line_count: nat,
}

impl View for IngestionRecord {
    type V = RecordView;

    open spec fn view(&self) -> RecordView {
        RecordView {
            id: self.id,
            captured_at: self.captured_at@,
            image_hash: self.image_hash@,
            text_hash: self.text_hash@,
            extracted_text: self.extracted_text@,
            summary: self.summary@,
            term_counts: self.term_counts@,
            word_count: self.word_count as nat,
            line_count: self.line_count as nat,
        }
    }
}

/// A record before it has been given its row id.
#[derive(Debug, Clone, PartialEq, Eq)]
pub struct RecordDraft {
    pub captured_at: String,
    pub image_hash: String,
    pub text_hash: String,
    pub extracted_text: String,
    pub summary: String,
    pub term_counts: Vec<u64>,
    pub word_count: usize,
    pub line_count: usize,
}

/// What a record derived from `extracted_text`, captured at `captured_at` with
/// image fingerprint `image_hash`, holds (row id aside): the text trimmed; the
/// fingerprint of its UTF-8 bytes; its summary; its term counts; the number of
/// its tokens; the number of its non-blank lines.
pub open spec fn derived_from(
    d: RecordView,
    captured_at: Seq<char>,
    image_hash: Seq<char>,
    extracted_text: Seq<char>,
) -> bool {
    let cleaned = trimmed(extracted_text);
    &&& d.captured_at == captured_at
    &&& d.image_hash == image_hash
    &&& d.extracted_text == cleaned
    &&& d.text_hash == fingerprint(encode_utf8(cleaned))
    &&& d.summary == summary_of(cleaned)
    &&& d.term_counts.len() == VECTOR_DIMENSIONS
    &&& (forall|b: int| 0 <= b < VECTOR_DIMENSIONS ==> #[trigger] d.term_counts[b] == bucket_count(tokens_of(cleaned), b))
    &&& d.word_count == tokens_of(cleaned).len()
    &&& d.line_count == content_lines(cleaned).len()
}

impl RecordDraft {
    /// The record view of this draft under row id `id`.
    pub open spec fn with_id(&self, id: i64) -> RecordView {
        RecordView {
            id,
            captured_at: self.captured_at@,
            image_hash: self.image_hash@,
            text_hash: self.text_hash@,
            extracted_text: self.extracted_text@,
            summary: self.summary@,
            term_counts: self.term_counts@,
            word_count: self.word_count as nat,
            line_count: self.line_count as nat,
        }
    }

    /// The stored record: this draft under the row id the store gave it.
    pub fn into_record(self, id: i64) -> (record: IngestionRecord)
        ensures
            record@ == self.with_id(id),
    {
        IngestionRecord {
            id,
            captured_at: self.captured_at,
            image_hash: self.image_hash,
            text_hash: self.text_hash,
            extracted_text: self.extracted_text,
            summary: self.summary,
            term_counts: self.term_counts,
            word_count: self.word_count,
            line_count: self.line_count,
        }
    }
}

/// Derives everything a record stores from the recognised text: the text is
/// trimmed, then fingerprinted, summarised, counted into term buckets, and
/// its tokens and non-blank lines counted.
pub fn prepare_record(captured_at: &str, image_hash: &str, extracted_text: &str) -> (draft: RecordDraft)
    ensures
        derived_from(draft.with_id(0), captured_at@, image_hash@, extracted_text@),
        draft.extracted_text@ == trimmed(extracted_text@),
        draft.text_hash@ == hex_lower(sha256(encode_utf8(trimmed(extracted_text@)))),
        draft.line_count == content_lines(extracted_text@).len(),
        draft.line_count == 0 <==> trimmed(extracted_text@).len() == 0,
        trimmed(extracted_text@).len() == 0 ==> draft.word_count == 0 && draft.summary@ == "No OCR text extracted"@
            && (forall|b: int| 0 <= b < VECTOR_DIMENSIONS ==> #[trigger] draft.term_counts@[b] == 0),
{
    let cleaned = String::from_str(trim(extracted_text));
    let text_hash = sha256_hex(cleaned.as_str().as_bytes());
    let summary = summarize_text(cleaned.as_str());
    let counts = term_counts(cleaned.as_str());
    let tokens = tokenize(cleaned.as_str());
    let line_count = count_content_lines(cleaned.as_str());
    proof {
        crate::text::lemma_trimmed_idempotent(extracted_text@);
        crate::trim_laws::law_trimming_keeps_summary(extracted_text@);
        crate::laws::law_blank_text_has_no_lines(cleaned@);
        if cleaned@.len() == 0 {
            crate::laws::law_no_words_no_counts(cleaned@);
        }
    }
    RecordDraft {
        captured_at: String::from_str(captured_at),
        image_hash: String::from_str(image_hash),
        text_hash,
        extracted_text: cleaned,
        summary,
        term_counts: counts,
        word_count: tokens.len(),
        line_count,
    }
}

} // verus!
