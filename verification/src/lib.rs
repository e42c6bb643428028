//! Extraction engine for parliamentary sitting transcripts: a stateful
//! scan over the block-level nodes of a parsed plenary or committee
//! report that locates topical sections, accumulates multi-part
//! bilingual item headings into complete logical items, applies ordered
//! fallback pattern rules to pull structured fields out of free text,
//! segments discussion transcripts into per-speaker turns, and resolves
//! roll-call tally tables to their voter-name blocks by textual
//! anchors. The source reports are scanned bureaucratic documents with
//! inconsistent tagging and format drift between years, so every
//! extraction tolerates partial failure: only genuinely absent required
//! structure fails a document.
//!
//! Every executable function is specified exactly against a spec-level
//! counterpart over the document's mathematical view, so the records
//! produced are a function of the input text alone.
use vstd::prelude::*;

pub mod accumulate;
pub mod crawl;
pub mod discussion;
pub mod dossier;
pub mod engine;
pub mod lang;
pub mod meeting;
pub mod patterns;
pub mod records;
pub mod section;
pub mod text;
pub mod votes;

verus! {

/// Special characters that appear in the source transcripts and need
/// normalising before any pattern matching.
pub struct CHARACTERS;

impl CHARACTERS {
    pub const NEWLINE: char = '\n';
    pub const SOFT_HYPHEN: char = '\u{00AD}';
    pub const NON_BREAKING_SPACE: char = '\u{00A0}';
}

} // verus!
