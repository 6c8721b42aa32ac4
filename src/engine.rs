use vstd::prelude::*;
use crate::tokenize::path_tokenizer;

verus! {

#[verifier::external_type_specification]
#[verifier::external_body]
pub struct ExIndexBuilder(elasticlunr::IndexBuilder);

#[verifier::external_type_specification]
#[verifier::external_body]
pub struct ExIndex(elasticlunr::Index);

/// Fields that an index builder holds, in the order they were added: each
/// name, and whether [`path_tokenizer`] splits its text.
pub uninterp spec fn builder_fields(b: elasticlunr::IndexBuilder) -> Seq<(Seq<char>, bool)>;

/// Language code that an index builder was made for.
pub uninterp spec fn builder_language(b: elasticlunr::IndexBuilder) -> Seq<char>;

/// Fields of a built index, as for [`builder_fields`].
pub uninterp spec fn index_fields(i: elasticlunr::Index) -> Seq<(Seq<char>, bool)>;

/// Language code of a built index.
pub uninterp spec fn index_language(i: elasticlunr::Index) -> Seq<char>;

/// Documents added to an index, in order: identifier and values.
pub uninterp spec fn index_docs(i: elasticlunr::Index) -> Seq<(Seq<char>, Seq<Seq<char>>)>;

/// Serialised form of an index with a language, fields and added documents.
pub uninterp spec fn index_json(
    lang: Seq<char>,
    fields: Seq<(Seq<char>, bool)>,
    docs: Seq<(Seq<char>, Seq<Seq<char>>)>,
) -> Seq<char>;

/// The names of a sequence of fields.
pub open spec fn names_of(fields: Seq<(Seq<char>, bool)>) -> Seq<Seq<char>> {
    fields.map_values(|f: (Seq<char>, bool)| f.0)
}

/// `a` is `lower`, a lowercase code, up to ASCII case.
pub open spec fn ascii_case_equal(a: Seq<char>, lower: Seq<char>) -> bool {
    &&& a.len() == lower.len()
    &&& forall|i: int|
        0 <= i < a.len() ==> #[trigger] a[i] == lower[i] || ('a' <= lower[i] <= 'z' && a[i] as u32
            + 32 == lower[i] as u32)
}

/// Language codes with a tokenizer and stemmer in the indexing engine, as built here.
pub open spec fn language_supported(code: Seq<char>) -> bool {
    ||| ascii_case_equal(code, seq!['e', 'n'])
    ||| ascii_case_equal(code, seq!['d', 'a'])
    ||| ascii_case_equal(code, seq!['d', 'e'])
    ||| ascii_case_equal(code, seq!['d', 'u'])
    ||| ascii_case_equal(code, seq!['e', 's'])
    ||| ascii_case_equal(code, seq!['f', 'i'])
    ||| ascii_case_equal(code, seq!['f', 'r'])
    ||| ascii_case_equal(code, seq!['h', 'u'])
    ||| ascii_case_equal(code, seq!['i', 't'])
    ||| ascii_case_equal(code, seq!['n', 'o'])
    ||| ascii_case_equal(code, seq!['p', 't'])
    ||| ascii_case_equal(code, seq!['r', 'o'])
    ||| ascii_case_equal(code, seq!['r', 'u'])
    ||| ascii_case_equal(code, seq!['s', 'v'])
    ||| ascii_case_equal(code, seq!['t', 'r'])
}

/// Relies on `elasticlunr::lang::from_code`, which lowercases the code in
/// ASCII and recognises the languages compiled in (the crate features
/// chosen for this library), and on `IndexBuilder::with_language`, whose
/// builder starts with no fields.
#[verifier::external_body]
pub(crate) fn builder_for_language(code: &str) -> (r: Option<elasticlunr::IndexBuilder>)
    ensures
        r is Some <==> language_supported(code@),
        r matches Some(b) ==> builder_fields(b) == Seq::<(Seq<char>, bool)>::empty()
            && builder_language(b) == code@,
{
    elasticlunr::lang::from_code(code).map(elasticlunr::IndexBuilder::with_language)
}

/// `IndexBuilder::add_field` appends a field with the language's own
/// tokenizer; it panics on a name already present.
pub assume_specification[ elasticlunr::IndexBuilder::add_field ](
    b: elasticlunr::IndexBuilder,
    field: &str,
) -> (r: elasticlunr::IndexBuilder)
    requires
        !names_of(builder_fields(b)).contains(field@),
    ensures
        builder_fields(r) == builder_fields(b).push((field@, false)),
        builder_language(r) == builder_language(b),
;

/// Relies on `IndexBuilder::add_field_with_tokenizer`: appends a field whose
/// text is split by [`path_tokenizer`]; it panics on a name already present.
#[verifier::external_body]
pub(crate) fn add_path_field(b: elasticlunr::IndexBuilder, field: &str) -> (r:
    elasticlunr::IndexBuilder)
    requires
        !names_of(builder_fields(b)).contains(field@),
    ensures
        builder_fields(r) == builder_fields(b).push((field@, true)),
        builder_language(r) == builder_language(b),
{
    b.add_field_with_tokenizer(field, Box::new(|text: &str| path_tokenizer(text)))
}

/// `IndexBuilder::build` keeps the builder's fields and language, and starts
/// with no documents.
pub assume_specification[ elasticlunr::IndexBuilder::build ](b: elasticlunr::IndexBuilder) -> (r:
    elasticlunr::Index)
    ensures
        index_fields(r) == builder_fields(b),
        index_language(r) == builder_language(b),
        index_docs(r) == Seq::<(Seq<char>, Seq<Seq<char>>)>::empty(),
;

/// Relies on `Index::add_doc`, which reads the values against the fields by
/// position (it panics on more values than fields) and leaves the fields as
/// they are.
#[verifier::external_body]
pub(crate) fn add_document(index: &mut elasticlunr::Index, id: &str, row: &Vec<String>)
    requires
        row@.len() <= index_fields(*old(index)).len(),
    ensures
        index_fields(*final(index)) == index_fields(*old(index)),
        index_language(*final(index)) == index_language(*old(index)),
        index_docs(*final(index)) == index_docs(*old(index)).push(
            (id@, row@.map_values(|s: String| s@)),
        ),
{
    index.add_doc(id, row)
}

/// `Index::to_json`: the serialised index. Every map inside the index is a
/// `BTreeMap` and the pipeline is fixed by the language, so the text depends
/// on the language, the fields and the documents added, in order.
pub assume_specification[ elasticlunr::Index::to_json ](index: &elasticlunr::Index) -> (r: String)
    ensures
        r@ == index_json(index_language(*index), index_fields(*index), index_docs(*index)),
;

} // verus!
