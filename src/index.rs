use vstd::prelude::*;
use crate::content::{Library, Page, Section, Taxonomies};
use crate::engine::{
    add_document, add_path_field, builder_fields, builder_for_language, builder_language,
    index_docs, index_fields, index_json, index_language, language_supported, names_of,
};
use crate::fields::{
    field_names, lemma_schema_names_distinct, schema, schema_of, Config, Field, Search,
};
use crate::taxonomy::{get_categories_and_tags, terms_for};
use crate::text::{body_text, join_terms, joined, ContentSanitizer};

verus! {

/// The text of an optional value, empty when absent.
pub open spec fn text_or_empty(o: Option<String>) -> Seq<char> {
    match o {
        Some(s) => s@,
        None => Seq::empty(),
    }
}

/// The indexed text of one field of a document.
pub open spec fn field_text(
    f: Field,
    search: Search,
    title: Option<String>,
    description: Option<String>,
    path: Seq<char>,
    content: Seq<char>,
    categories: Seq<Seq<char>>,
    tags: Seq<Seq<char>>,
) -> Seq<char> {
    match f {
        Field::Title => text_or_empty(title),
        Field::Description => text_or_empty(description),
        Field::Path => path,
        Field::Body => body_text(content, search.truncate_content_length),
        Field::Tags => joined(tags),
        Field::Categories => joined(categories),
    }
}

/// The row of a document: the text of each schema field, in schema order.
pub open spec fn row_of(
    search: Search,
    title: Option<String>,
    description: Option<String>,
    path: Seq<char>,
    content: Seq<char>,
    categories: Seq<Seq<char>>,
    tags: Seq<Seq<char>>,
) -> Seq<Seq<char>> {
    schema_of(search).map_values(
        |f: Field| field_text(f, search, title, description, path, content, categories, tags),
    )
}

pub open spec fn strings_view(v: Seq<String>) -> Seq<Seq<char>> {
    v.map_values(|s: String| s@)
}

/// The index fields of a schema: each name, and whether it is the path field,
/// whose text the path tokenizer splits.
pub open spec fn schema_columns(fs: Seq<Field>) -> Seq<(Seq<char>, bool)> {
    fs.map_values(|f: Field| (f.spec_name(), f == Field::Path))
}

/// Registers the schema of `search_config` on `index`, in canonical order;
/// the path field splits its text with the path tokenizer.
pub fn build_fields(search_config: &Search, index: elasticlunr::IndexBuilder) -> (r:
    elasticlunr::IndexBuilder)
    requires
        forall|i: int|
            0 <= i < schema_of(*search_config).len() ==> !names_of(builder_fields(index)).contains(
                #[trigger] field_names(schema_of(*search_config))[i],
            ),
    ensures
        builder_fields(r) == builder_fields(index) + schema_columns(schema_of(*search_config)),
        builder_language(r) == builder_language(index),
{
    let fields = schema(search_config);
    let ghost base0 = builder_fields(index);
    let ghost base = names_of(base0);
    let ghost names = field_names(fields@);
    let ghost cols = schema_columns(fields@);
    proof {
        lemma_schema_names_distinct(*search_config);
    }
    let mut b = index;
    let mut k: usize = 0;
    assert(base0 + cols.take(0) =~= base0);
    while k < fields.len()
        invariant
            k <= fields.len(),
            fields@ == schema_of(*search_config),
            names == field_names(fields@),
            cols == schema_columns(fields@),
            base0 == builder_fields(index),
            base == names_of(base0),
            forall|i: int| 0 <= i < names.len() ==> !base.contains(#[trigger] names[i]),
            forall|i: int, j: int|
                0 <= i < j < names.len() ==> #[trigger] names[i] != #[trigger] names[j],
            builder_fields(b) == base0 + cols.take(k as int),
            builder_language(b) == builder_language(index),
        decreases fields.len() - k,
    {
        let f = fields[k];
        let name = f.name();
        assert(name@ == names[k as int]);
        assert(names_of(builder_fields(b)) =~= base + names.take(k as int));
        proof {
            let cur = names_of(builder_fields(b));
            if cur.contains(name@) {
                let j = choose|j: int| 0 <= j < cur.len() && cur[j] == name@;
                if j < base.len() {
                    assert(base.contains(names[k as int]));
                } else {
                    assert(names[j - base.len()] == names[k as int]);
                }
            }
        }
        if f == Field::Path {
            b = add_path_field(b, name);
        } else {
            b = b.add_field(name);
        }
        assert(cols.take(k + 1) =~= cols.take(k as int).push(cols[k as int]));
        assert(builder_fields(b) =~= base0 + cols.take(k + 1));
        k = k + 1;
    }
    assert(cols.take(fields.len() as int) =~= cols);
    b
}

/// The row of one document: for each schema field in order, its text. Absent
/// title or description give empty text, the body is the sanitized content cut
/// to the configured length, and tags and categories are joined by spaces.
pub fn fill_index(
    search_config: &Search,
    sanitizer: &ContentSanitizer,
    title: &Option<String>,
    description: &Option<String>,
    path: &str,
    content: &str,
    categories: Vec<String>,
    tags: Vec<String>,
) -> (r: Vec<String>)
    ensures
        strings_view(r@) == row_of(
            *search_config,
            *title,
            *description,
            path@,
            content@,
            strings_view(categories@),
            strings_view(tags@),
        ),
{
    let fields = schema(search_config);
    let ghost want = row_of(
        *search_config,
        *title,
        *description,
        path@,
        content@,
        strings_view(categories@),
        strings_view(tags@),
    );
    let mut row: Vec<String> = Vec::new();
    let mut k: usize = 0;
    while k < fields.len()
        invariant
            k <= fields.len(),
            fields@ == schema_of(*search_config),
            want == row_of(
                *search_config,
                *title,
                *description,
                path@,
                content@,
                strings_view(categories@),
                strings_view(tags@),
            ),
            strings_view(row@) == want.take(k as int),
        decreases fields.len() - k,
    {
        let value = match fields[k] {
            Field::Title => match title {
                Some(t) => t.clone(),
                None => String::new(),
            },
            Field::Description => match description {
                Some(d) => d.clone(),
                None => String::new(),
            },
            Field::Path => path.to_owned(),
            Field::Body => sanitizer.sanitize_and_truncate(
                content,
                search_config.truncate_content_length,
            ),
            Field::Tags => join_terms(&tags),
            Field::Categories => join_terms(&categories),
        };
        assert(value@ == want[k as int]);
        let ghost before = row@;
        row.push(value);
        assert(row@ == before.push(value));
        assert(strings_view(row@) =~= strings_view(before).push(value@));
        assert(strings_view(row@) =~= want.take(k + 1));
        k = k + 1;
    }
    assert(want.take(fields.len() as int) =~= want);
    row
}

/// A document ready for the index: its identifier and its row.
#[derive(Clone, Debug)]
pub struct Document {
    pub permalink: String,
    pub row: Vec<String>,
}

pub open spec fn doc_view(d: Document) -> (Seq<char>, Seq<Seq<char>>) {
    (d.permalink@, strings_view(d.row@))
}

pub open spec fn docs_view(ds: Seq<Document>) -> Seq<(Seq<char>, Seq<Seq<char>>)> {
    ds.map_values(|d: Document| doc_view(d))
}

/// Whether a section itself is indexed: listed for search and not a redirect.
pub open spec fn section_indexed(s: Section) -> bool {
    s.meta.in_search_index && s.meta.redirect_to is None
}

/// The row of a section: sections carry no categories or tags.
pub open spec fn section_row(s: Section, search: Search) -> Seq<Seq<char>> {
    row_of(
        search,
        s.meta.title,
        s.meta.description,
        s.path@,
        s.content@,
        Seq::empty(),
        Seq::empty(),
    )
}

/// The row of a page, with the terms its permalink receives in its language.
pub open spec fn page_row(p: Page, tax: Taxonomies, search: Search) -> Seq<Seq<char>> {
    row_of(
        search,
        p.meta.title,
        p.meta.description,
        p.path@,
        p.content@,
        terms_for(tax, p.permalink@, p.lang@, "categories"@),
        terms_for(tax, p.permalink@, p.lang@, "tags"@),
    )
}

/// The document of a section itself, if it is indexed.
pub open spec fn own_docs(s: Section, search: Search) -> Seq<(Seq<char>, Seq<Seq<char>>)> {
    if section_indexed(s) {
        seq![(s.permalink@, section_row(s, search))]
    } else {
        Seq::empty()
    }
}

/// The documents of the pages behind `keys`: each page listed for search, in order.
pub open spec fn page_docs(lib: Library, keys: Seq<usize>, search: Search) -> Seq<
    (Seq<char>, Seq<Seq<char>>),
>
    decreases keys.len(),
{
    if keys.len() == 0 {
        Seq::empty()
    } else {
        let p = lib.pages@[keys.last() as int];
        page_docs(lib, keys.drop_last(), search) + if p.meta.in_search_index {
            seq![(p.permalink@, page_row(p, lib.taxonomies_def, search))]
        } else {
            Seq::empty()
        }
    }
}

/// The documents that a section contributes: its own, then its pages'.
pub open spec fn section_docs(lib: Library, s: Section, search: Search) -> Seq<
    (Seq<char>, Seq<Seq<char>>),
> {
    own_docs(s, search) + page_docs(lib, s.pages@, search)
}

/// The documents of the sections of one language, section by section.
pub open spec fn library_docs(
    lib: Library,
    sections: Seq<Section>,
    lang: Seq<char>,
    search: Search,
) -> Seq<(Seq<char>, Seq<Seq<char>>)>
    decreases sections.len(),
{
    if sections.len() == 0 {
        Seq::empty()
    } else {
        library_docs(lib, sections.drop_last(), lang, search) + if sections.last().lang@ == lang {
            section_docs(lib, sections.last(), search)
        } else {
            Seq::empty()
        }
    }
}

/// Appends the documents of a section and of its pages. A page is judged by
/// its own flag only, whatever the section's.
pub fn add_section_to_index(
    docs: &mut Vec<Document>,
    section: &Section,
    library: &Library,
    search_config: &Search,
    sanitizer: &ContentSanitizer,
)
    requires
        forall|k: int| 0 <= k < section.pages@.len() ==> #[trigger] section.pages@[k] < library.pages@.len(),
    ensures
        docs_view(final(docs)@) == docs_view(old(docs)@) + section_docs(
            *library,
            *section,
            *search_config,
        ),
{
    let ghost base = docs_view(old(docs)@);
    if section.meta.in_search_index && section.meta.redirect_to.is_none() {
        let row = fill_index(
            search_config,
            sanitizer,
            &section.meta.title,
            &section.meta.description,
            section.path.as_str(),
            section.content.as_str(),
            Vec::new(),
            Vec::new(),
        );
        assert(strings_view(Seq::<String>::empty()) =~= Seq::<Seq<char>>::empty());
        let ghost before = docs@;
        docs.push(Document { permalink: section.permalink.clone(), row });
        assert(docs@ == before.push(docs@.last()));
        assert(docs_view(docs@) =~= docs_view(before).push(doc_view(docs@.last())));
    }
    assert(docs_view(docs@) =~= base + own_docs(*section, *search_config));
    let ghost mid = docs_view(docs@);
    let ghost keys = section.pages@;
    let mut i: usize = 0;
    assert(mid + page_docs(*library, keys.take(0), *search_config) =~= mid);
    while i < section.pages.len()
        invariant
            i <= keys.len(),
            keys == section.pages@,
            forall|k: int| 0 <= k < keys.len() ==> #[trigger] keys[k] < library.pages@.len(),
            docs_view(docs@) == mid + page_docs(*library, keys.take(i as int), *search_config),
        decreases keys.len() - i,
    {
        assert(keys.take(i + 1).drop_last() =~= keys.take(i as int));
        assert(keys.take(i + 1).last() == keys[i as int]);
        let page = &library.pages[section.pages[i]];
        let (categories, tags) = get_categories_and_tags(
            library,
            page.permalink.as_str(),
            page.lang.as_str(),
        );
        let ghost before = docs@;
        if page.meta.in_search_index {
            let row = fill_index(
                search_config,
                sanitizer,
                &page.meta.title,
                &page.meta.description,
                page.path.as_str(),
                page.content.as_str(),
                categories,
                tags,
            );
            docs.push(Document { permalink: page.permalink.clone(), row });
            assert(docs@ == before.push(docs@.last()));
            assert(docs_view(docs@) =~= docs_view(before).push(doc_view(docs@.last())));
        } else {
            assert(docs_view(before) + Seq::<(Seq<char>, Seq<Seq<char>>)>::empty() =~= docs_view(before));
        }
        assert(docs_view(docs@) =~= mid + page_docs(*library, keys.take(i + 1), *search_config));
        i = i + 1;
    }
    assert(keys.take(keys.len() as int) =~= keys);
}

/// The documents of every section of a language and of their pages.
pub fn index_documents(
    lang: &str,
    library: &Library,
    search_config: &Search,
    sanitizer: &ContentSanitizer,
) -> (r: Vec<Document>)
    requires
        library.wf(),
    ensures
        docs_view(r@) == library_docs(*library, library.sections@, lang@, *search_config),
{
    let target = lang.to_owned();
    let ghost sections = library.sections@;
    let mut docs: Vec<Document> = Vec::new();
    let mut i: usize = 0;
    assert(docs_view(docs@) =~= library_docs(*library, sections.take(0), lang@, *search_config));
    while i < library.sections.len()
        invariant
            i <= sections.len(),
            sections == library.sections@,
            library.wf(),
            target@ == lang@,
            docs_view(docs@) == library_docs(*library, sections.take(i as int), lang@, *search_config),
        decreases sections.len() - i,
    {
        assert(sections.take(i + 1).drop_last() =~= sections.take(i as int));
        assert(sections.take(i + 1).last() == sections[i as int]);
        let section = &library.sections[i];
        let ghost before = docs_view(docs@);
        if section.lang == target {
            assert forall|k: int| 0 <= k < section.pages@.len() implies #[trigger] section.pages@[k]
                < library.pages@.len() by {
                assert(library.sections@[i as int].pages@[k] < library.pages@.len());
            }
            add_section_to_index(&mut docs, section, library, search_config, sanitizer);
        } else {
            assert(before + Seq::<(Seq<char>, Seq<Seq<char>>)>::empty() =~= before);
        }
        assert(docs_view(docs@) =~= library_docs(*library, sections.take(i + 1), lang@, *search_config));
        i = i + 1;
    }
    assert(sections.take(sections.len() as int) =~= sections);
    docs
}

/// Why an index could not be built.
#[derive(Clone, Debug)]
pub enum SearchError {
    /// The indexing engine has no tokenizer or stemmer for this language code.
    UnsupportedLanguage(String),
}

impl SearchError {
    /// A sentence describing the error.
    pub fn message(&self) -> (r: String)
        ensures
            self matches SearchError::UnsupportedLanguage(code) ==> r@
                == "Tried to build search index for language "@ + code@ + " which is not supported"@,
    {
        match self {
            SearchError::UnsupportedLanguage(code) => {
                let mut m = String::new();
                m.append("Tried to build search index for language ");
                m.append(code.as_str());
                m.append(" which is not supported");
                m
            },
        }
    }
}

proof fn lemma_page_rows(lib: Library, keys: Seq<usize>, search: Search)
    ensures
        forall|i: int|
            0 <= i < page_docs(lib, keys, search).len() ==> (#[trigger] page_docs(
                lib,
                keys,
                search,
            )[i]).1.len() == schema_of(search).len(),
    decreases keys.len(),
{
    if keys.len() > 0 {
        let prev = keys.drop_last();
        lemma_page_rows(lib, prev, search);
        let a = page_docs(lib, prev, search);
        let d = page_docs(lib, keys, search);
        let p = lib.pages@[keys.last() as int];
        assert(page_row(p, lib.taxonomies_def, search).len() == schema_of(search).len());
        assert forall|i: int| 0 <= i < d.len() implies (#[trigger] d[i]).1.len() == schema_of(
            search,
        ).len() by {
            if i < a.len() {
                assert(d[i] == a[i]);
            }
        }
    }
}

/// Every document row has one entry per schema field: entry `i` is the text of
/// schema field `i` (see [`row_of`]).
pub proof fn lemma_rows_match_schema(
    lib: Library,
    sections: Seq<Section>,
    lang: Seq<char>,
    search: Search,
)
    ensures
        forall|i: int|
            0 <= i < library_docs(lib, sections, lang, search).len() ==> (#[trigger] library_docs(
                lib,
                sections,
                lang,
                search,
            )[i]).1.len() == schema_of(search).len(),
    decreases sections.len(),
{
    if sections.len() > 0 {
        let sl = sections.last();
        lemma_rows_match_schema(lib, sections.drop_last(), lang, search);
        lemma_page_rows(lib, sl.pages@, search);
        let a = library_docs(lib, sections.drop_last(), lang, search);
        let d = library_docs(lib, sections, lang, search);
        let own = own_docs(sl, search);
        let pd = page_docs(lib, sl.pages@, search);
        assert(section_row(sl, search).len() == schema_of(search).len());
        assert forall|i: int| 0 <= i < d.len() implies (#[trigger] d[i]).1.len() == schema_of(
            search,
        ).len() by {
            if i < a.len() {
                assert(d[i] == a[i]);
            } else if i < a.len() + own.len() {
                assert(d[i] == own[i - a.len()]);
            } else {
                assert(d[i] == pd[i - a.len() - own.len()]);
            }
        }
    }
}

proof fn lemma_page_keys(lib: Library, keys: Seq<usize>, search: Search, key: Seq<char>)
    requires
        forall|p: int|
            0 <= p < lib.pages@.len() && lib.pages@[p].meta.in_search_index ==> #[trigger] lib.pages@[p].permalink@
                != key,
        forall|k: int| 0 <= k < keys.len() ==> #[trigger] keys[k] < lib.pages@.len(),
    ensures
        forall|i: int|
            0 <= i < page_docs(lib, keys, search).len() ==> (#[trigger] page_docs(
                lib,
                keys,
                search,
            )[i]).0 != key,
    decreases keys.len(),
{
    if keys.len() > 0 {
        let prev = keys.drop_last();
        assert forall|k: int| 0 <= k < prev.len() implies #[trigger] prev[k] < lib.pages@.len() by {
            assert(prev[k] == keys[k]);
        }
        assert(keys[keys.len() - 1] < lib.pages@.len());
        lemma_page_keys(lib, prev, search, key);
        let a = page_docs(lib, prev, search);
        let d = page_docs(lib, keys, search);
        assert forall|i: int| 0 <= i < d.len() implies (#[trigger] d[i]).0 != key by {
            if i < a.len() {
                assert(d[i] == a[i]);
            }
        }
    }
}

proof fn lemma_library_keys(
    lib: Library,
    n: int,
    lang: Seq<char>,
    search: Search,
    r: int,
)
    requires
        lib.wf(),
        0 <= n <= lib.sections@.len(),
        0 <= r < lib.sections@.len(),
        lib.sections@[r].meta.redirect_to is Some,
        forall|j: int|
            0 <= j < lib.sections@.len() && section_indexed(lib.sections@[j]) && lib.sections@[j].lang@
                == lang ==> #[trigger] lib.sections@[j].permalink@ != lib.sections@[r].permalink@,
        forall|p: int|
            0 <= p < lib.pages@.len() && lib.pages@[p].meta.in_search_index ==> #[trigger] lib.pages@[p].permalink@
                != lib.sections@[r].permalink@,
    ensures
        forall|i: int|
            0 <= i < library_docs(lib, lib.sections@.take(n), lang, search).len() ==> (
            #[trigger] library_docs(lib, lib.sections@.take(n), lang, search)[i]).0
                != lib.sections@[r].permalink@,
    decreases n,
{
    let key = lib.sections@[r].permalink@;
    if n > 0 {
        let secs = lib.sections@.take(n);
        assert(secs.drop_last() =~= lib.sections@.take(n - 1));
        lemma_library_keys(lib, n - 1, lang, search, r);
        let s = secs.last();
        assert(s == lib.sections@[n - 1]);
        assert forall|k: int| 0 <= k < s.pages@.len() implies #[trigger] s.pages@[k]
            < lib.pages@.len() by {
            assert(lib.sections@[n - 1].pages@[k] < lib.pages@.len());
        }
        lemma_page_keys(lib, s.pages@, search, key);
        let a = library_docs(lib, lib.sections@.take(n - 1), lang, search);
        let d = library_docs(lib, secs, lang, search);
        let own = own_docs(s, search);
        let pd = page_docs(lib, s.pages@, search);
        assert forall|i: int| 0 <= i < d.len() implies (#[trigger] d[i]).0 != key by {
            if i < a.len() {
                assert(d[i] == a[i]);
            } else if i < a.len() + own.len() {
                assert(d[i] == own[i - a.len()]);
            } else {
                assert(d[i] == pd[i - a.len() - own.len()]);
            }
        }
    }
}

/// A section that redirects never stands in the index of a language under its
/// permalink, whatever its search flag, unless another indexed section of the
/// language or a page listed for search has the same permalink.
pub proof fn lemma_redirect_law(lib: Library, lang: Seq<char>, search: Search, r: int)
    requires
        lib.wf(),
        0 <= r < lib.sections@.len(),
        lib.sections@[r].meta.redirect_to is Some,
        forall|j: int|
            0 <= j < lib.sections@.len() && section_indexed(lib.sections@[j]) && lib.sections@[j].lang@
                == lang ==> #[trigger] lib.sections@[j].permalink@ != lib.sections@[r].permalink@,
        forall|p: int|
            0 <= p < lib.pages@.len() && lib.pages@[p].meta.in_search_index ==> #[trigger] lib.pages@[p].permalink@
                != lib.sections@[r].permalink@,
    ensures
        forall|i: int|
            0 <= i < library_docs(lib, lib.sections@, lang, search).len() ==> (
            #[trigger] library_docs(lib, lib.sections@, lang, search)[i]).0
                != lib.sections@[r].permalink@,
{
    lemma_library_keys(lib, lib.sections@.len() as int, lang, search, r);
    assert(lib.sections@.take(lib.sections@.len() as int) =~= lib.sections@);
}

/// The documents of a section's pages depend on the pages alone: two sections
/// with the same page keys contribute the same page documents, whatever their
/// own flags, and a section that is not listed for search contributes exactly
/// its pages' documents.
pub proof fn lemma_page_independence(lib: Library, s1: Section, s2: Section, search: Search)
    requires
        s1.pages@ == s2.pages@,
    ensures
        section_docs(lib, s1, search).skip(own_docs(s1, search).len() as int) == section_docs(
            lib,
            s2,
            search,
        ).skip(own_docs(s2, search).len() as int),
        !s1.meta.in_search_index ==> section_docs(lib, s1, search) == page_docs(
            lib,
            s1.pages@,
            search,
        ),
{
    assert(section_docs(lib, s1, search).skip(own_docs(s1, search).len() as int) =~= page_docs(
        lib,
        s1.pages@,
        search,
    ));
    assert(section_docs(lib, s2, search).skip(own_docs(s2, search).len() as int) =~= page_docs(
        lib,
        s2.pages@,
        search,
    ));
    if !s1.meta.in_search_index {
        assert(section_docs(lib, s1, search) =~= page_docs(lib, s1.pages@, search));
    }
}

/// Builds the search index of one language and returns it serialised. Fails
/// with [`SearchError::UnsupportedLanguage`] exactly when the indexing engine
/// does not know the language; otherwise the index holds the schema of the
/// language's settings and the documents of [`index_documents`].
pub fn build_index(lang: &str, library: &Library, config: &Config) -> (r: Result<
    String,
    SearchError,
>)
    requires
        library.wf(),
        language_supported(lang@) ==> config.spec_search_for(lang@) is Some,
    ensures
        r is Ok <==> language_supported(lang@),
        r matches Ok(text) ==> config.spec_search_for(lang@) matches Some(search) && text@
            == index_json(
            lang@,
            schema_columns(schema_of(search)),
            library_docs(*library, library.sections@, lang@, search),
        ),
        r matches Err(SearchError::UnsupportedLanguage(code)) ==> code@ == lang@,
{
    let builder = match builder_for_language(lang) {
        Some(b) => b,
        None => {
            return Err(SearchError::UnsupportedLanguage(lang.to_owned()));
        },
    };
    let search_config = config.search_for(lang).unwrap();
    assert(builder_fields(builder) + schema_columns(schema_of(search_config)) =~= schema_columns(
        schema_of(search_config),
    ));
    let builder = build_fields(&search_config, builder);
    let mut index = builder.build();
    let sanitizer = ContentSanitizer::new();
    let docs = index_documents(lang, library, &search_config, &sanitizer);
    proof {
        lemma_rows_match_schema(*library, library.sections@, lang@, search_config);
    }
    let mut i: usize = 0;
    while i < docs.len()
        invariant
            i <= docs.len(),
            index_fields(index) == schema_columns(schema_of(search_config)),
            index_language(index) == lang@,
            index_docs(index) == docs_view(docs@).take(i as int),
            docs_view(docs@) == library_docs(*library, library.sections@, lang@, search_config),
            forall|j: int|
                0 <= j < docs_view(docs@).len() ==> (#[trigger] docs_view(docs@)[j]).1.len()
                    == schema_of(search_config).len(),
        decreases docs.len() - i,
    {
        assert(docs_view(docs@)[i as int].1.len() == docs@[i as int].row@.len());
        add_document(&mut index, docs[i].permalink.as_str(), &docs[i].row);
        assert(index_docs(index) =~= docs_view(docs@).take(i + 1));
        i = i + 1;
    }
    assert(docs_view(docs@).take(docs.len() as int) =~= docs_view(docs@));
    Ok(index.to_json())
}

} // verus!
