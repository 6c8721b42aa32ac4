//! Per-language search index assembly for a static site.
//!
//! The library decides which fields an index holds, derives the text of each
//! field for every document, resolves taxonomy terms from URL segments, and
//! selects the documents that go into the index of one language.

pub mod content;
pub mod engine;
pub mod fields;
pub mod index;
pub mod taxonomy;
pub mod text;
pub mod tokenize;

pub use content::{
    LanguageTaxonomies, Library, Page, PageMeta, Section, SectionMeta, Taxonomies, TaxonomyKind,
    Term,
};
pub use fields::{schema, Config, Field, LanguageOptions, Search};
pub use index::{
    add_section_to_index, build_fields, build_index, fill_index, index_documents, Document,
    SearchError,
};
pub use taxonomy::{get_categories_and_tags, match_file_stem_to_url_segment, url_segment_of};
pub use text::{join_terms, truncate_text, ContentSanitizer};
pub use tokenize::path_tokenizer;
