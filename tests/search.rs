use elasticlunr::IndexBuilder;
use search::{
    build_fields, build_index, fill_index, get_categories_and_tags, index_documents, join_terms,
    path_tokenizer, schema, truncate_text, url_segment_of, Config, ContentSanitizer, Field,
    LanguageOptions, LanguageTaxonomies, Library, Page, PageMeta, Search, SearchError, Section,
    SectionMeta, Taxonomies, TaxonomyKind, Term,
};

#[test]
fn can_build_fields() {
    let mut config = Config::default();
    let index = build_fields(&config.search, IndexBuilder::new()).build();
    assert_eq!(index.get_fields(), vec!["title", "body"]);

    config.search.include_content = false;
    config.search.include_description = true;
    let index = build_fields(&config.search, IndexBuilder::new()).build();
    assert_eq!(index.get_fields(), vec!["title", "description"]);

    config.search.include_content = true;
    let index = build_fields(&config.search, IndexBuilder::new()).build();
    assert_eq!(index.get_fields(), vec!["title", "description", "body"]);

    config.search.include_title = false;
    let index = build_fields(&config.search, IndexBuilder::new()).build();
    assert_eq!(index.get_fields(), vec!["description", "body"]);
}

#[test]
fn can_fill_index_default() {
    let config = Config::default();
    let sanitizer = ContentSanitizer::new();
    let title = Some("A title".to_string());
    let description = Some("A description".to_string());
    let path = "/a/page/".to_string();
    let content = "Some content".to_string();

    let res = fill_index(
        &config.search,
        &sanitizer,
        &title,
        &description,
        &path,
        &content,
        vec![],
        vec![],
    );
    assert_eq!(res.len(), 2);
    assert_eq!(res[0], title.unwrap());
    assert_eq!(res[1], content);
}

#[test]
fn can_fill_index_description() {
    let mut config = Config::default();
    config.search.include_description = true;
    let sanitizer = ContentSanitizer::new();
    let title = Some("A title".to_string());
    let description = Some("A description".to_string());
    let path = "/a/page/".to_string();
    let content = "Some content".to_string();

    let res = fill_index(
        &config.search,
        &sanitizer,
        &title,
        &description,
        &path,
        &content,
        vec![],
        vec![],
    );
    assert_eq!(res.len(), 3);
    assert_eq!(res[0], title.unwrap());
    assert_eq!(res[1], description.unwrap());
    assert_eq!(res[2], content);
}

#[test]
fn can_fill_index_truncated_content() {
    let mut config = Config::default();
    config.search.truncate_content_length = Some(5);
    let sanitizer = ContentSanitizer::new();
    let title = Some("A title".to_string());
    let description = Some("A description".to_string());
    let path = "/a/page/".to_string();
    let content = "Some content".to_string();

    let res = fill_index(
        &config.search,
        &sanitizer,
        &title,
        &description,
        &path,
        &content,
        vec![],
        vec![],
    );
    assert_eq!(res.len(), 2);
    assert_eq!(res[0], title.unwrap());
    assert_eq!(res[1], content[..5]);
}

fn all_fields() -> Search {
    Search {
        include_title: true,
        include_description: true,
        include_path: true,
        include_content: true,
        include_tags: true,
        include_categories: true,
        truncate_content_length: None,
    }
}

fn section(lang: &str, permalink: &str, listed: bool, redirect: Option<&str>, pages: Vec<usize>) -> Section {
    Section {
        lang: lang.to_string(),
        path: permalink.to_string(),
        permalink: permalink.to_string(),
        content: "<p>Section body</p>".to_string(),
        meta: SectionMeta {
            title: Some("Section".to_string()),
            description: None,
            in_search_index: listed,
            redirect_to: redirect.map(|r| r.to_string()),
        },
        pages,
    }
}

fn page(lang: &str, permalink: &str, listed: bool) -> Page {
    Page {
        lang: lang.to_string(),
        path: permalink.to_string(),
        permalink: permalink.to_string(),
        content: "Page body".to_string(),
        meta: PageMeta {
            title: Some("Page".to_string()),
            description: Some("About".to_string()),
            in_search_index: listed,
        },
    }
}

fn taxonomies() -> Taxonomies {
    Taxonomies {
        languages: vec![LanguageTaxonomies {
            lang: "en".to_string(),
            kinds: vec![
                TaxonomyKind {
                    name: "categories".to_string(),
                    terms: vec![
                        Term {
                            name: "rust".to_string(),
                            files: vec!["content/blog/hello.md".to_string(), "content/other.md".to_string()],
                        },
                        Term { name: "misc".to_string(), files: vec!["content/misc.md".to_string()] },
                    ],
                },
                TaxonomyKind {
                    name: "tags".to_string(),
                    terms: vec![
                        Term {
                            name: "intro".to_string(),
                            files: vec!["a/hello.md".to_string(), "b/hello.txt".to_string()],
                        },
                        Term { name: "news".to_string(), files: vec!["hello".to_string()] },
                    ],
                },
            ],
        }],
    }
}

fn library() -> Library {
    Library {
        sections: vec![
            section("en", "https://site/blog/", true, None, vec![0, 1]),
            section("en", "https://site/moved/", true, Some("https://site/new/"), vec![]),
            section("en", "https://site/hidden/", false, None, vec![2]),
            section("fr", "https://site/fr/", true, None, vec![3]),
        ],
        pages: vec![
            page("en", "https://site/blog/hello/", true),
            page("en", "https://site/blog/draft/", false),
            page("en", "https://site/hidden/visible/", true),
            page("fr", "https://site/fr/bonjour/", true),
        ],
        taxonomies_def: taxonomies(),
    }
}

fn config_for(code: &str, search: Search) -> Config {
    Config {
        search: Search::default(),
        languages: vec![LanguageOptions { code: code.to_string(), search }],
    }
}

#[test]
fn schema_follows_canonical_order() {
    let s = all_fields();
    assert_eq!(
        schema(&s),
        vec![Field::Title, Field::Description, Field::Path, Field::Body, Field::Tags, Field::Categories]
    );
    let mut t = Search::default();
    t.include_title = false;
    t.include_categories = true;
    t.include_path = true;
    assert_eq!(schema(&t), vec![Field::Path, Field::Body, Field::Categories]);
    let none = Search {
        include_title: false,
        include_description: false,
        include_path: false,
        include_content: false,
        include_tags: false,
        include_categories: false,
        truncate_content_length: None,
    };
    assert!(schema(&none).is_empty());
}

#[test]
fn build_fields_with_all_flags() {
    let index = build_fields(&all_fields(), IndexBuilder::new()).build();
    assert_eq!(index.get_fields(), vec!["title", "description", "path", "body", "tags", "categories"]);
}

#[test]
fn row_matches_schema_with_every_field() {
    let sanitizer = ContentSanitizer::new();
    let res = fill_index(
        &all_fields(),
        &sanitizer,
        &None,
        &Some("D".to_string()),
        "/p/",
        "<b>bold</b> text",
        vec!["c1".to_string(), "c2".to_string()],
        vec!["t1".to_string()],
    );
    assert_eq!(res, vec!["", "D", "/p/", "bold text", "t1", "c1 c2"]);
}

#[test]
fn path_tokens_split_and_lowercase() {
    assert_eq!(path_tokenizer("/Blog/My-Post\tTwo//x/"), vec!["blog", "my", "post", "two", "x"]);
    assert!(path_tokenizer("/-/ \u{3000}").is_empty());
    assert_eq!(path_tokenizer("ÉTÉ"), vec!["été"]);
    for t in path_tokenizer("a--B  c//D") {
        assert!(!t.is_empty());
        assert_eq!(t, t.to_lowercase());
    }
}

#[test]
fn truncation_counts_scalar_values() {
    assert_eq!(truncate_text("héllo wörld", Some(2)), "hé");
    assert_eq!(truncate_text("héllo", Some(0)), "");
    assert_eq!(truncate_text("héllo", Some(5)), "héllo");
    assert_eq!(truncate_text("héllo", Some(50)), "héllo");
    assert_eq!(truncate_text("héllo", None), "héllo");
}

#[test]
fn sanitizer_policy() {
    let s = ContentSanitizer::new();
    assert_eq!(s.sanitize("<p class=\"x\">Hello <a href=\"/\">world</a></p>"), "Hello world");
    assert_eq!(s.sanitize("a<script>alert(1)</script>b<style>p{}</style>c"), "abc");
    assert_eq!(s.sanitize("<pre>code here</pre>"), "code here");
    assert_eq!(s.sanitize_and_truncate("<em>Some</em> content", Some(5)), "Some ");
}

#[test]
fn sanitizing_sanitized_text_is_identity() {
    let s = ContentSanitizer::new();
    for input in ["plain words", "<div>x &amp; y</div>", "a < b", "<pre>one\ntwo</pre>"] {
        let once = s.sanitize(input);
        assert_eq!(s.sanitize(&once), once);
    }
}

#[test]
fn join_terms_uses_single_spaces() {
    assert_eq!(join_terms(&vec![]), "");
    assert_eq!(join_terms(&vec!["a".to_string()]), "a");
    assert_eq!(join_terms(&vec!["a".to_string(), "b c".to_string(), "d".to_string()]), "a b c d");
}

#[test]
fn url_segment_drops_one_trailing_slash() {
    assert_eq!(url_segment_of("https://site/blog/hello/"), "hello");
    assert_eq!(url_segment_of("https://site/blog/hello"), "hello");
    assert_eq!(url_segment_of("/a/b//"), "");
    assert_eq!(url_segment_of("plain"), "plain");
}

#[test]
fn taxonomy_terms_follow_file_stems() {
    let lib = library();
    let (categories, tags) = get_categories_and_tags(&lib, "https://site/blog/hello/", "en");
    assert_eq!(categories, vec!["rust"]);
    assert_eq!(tags, vec!["intro", "intro", "news"]);

    let (categories, tags) = get_categories_and_tags(&lib, "https://site/blog/nothing/", "en");
    assert!(categories.is_empty());
    assert!(tags.is_empty());

    let (categories, tags) = get_categories_and_tags(&lib, "https://site/blog/hello/", "de");
    assert!(categories.is_empty());
    assert!(tags.is_empty());
}

#[test]
fn documents_of_a_language() {
    let lib = library();
    let sanitizer = ContentSanitizer::new();
    let mut search = Search::default();
    search.include_categories = true;
    let docs = index_documents("en", &lib, &search, &sanitizer);
    let ids: Vec<&str> = docs.iter().map(|d| d.permalink.as_str()).collect();
    assert_eq!(ids, vec!["https://site/blog/", "https://site/blog/hello/", "https://site/hidden/visible/"]);
    assert_eq!(docs[0].row, vec!["Section", "Section body", ""]);
    assert_eq!(docs[1].row, vec!["Page", "Page body", "rust"]);
    for d in &docs {
        assert_eq!(d.row.len(), schema(&search).len());
    }
}

#[test]
fn redirect_sections_are_not_indexed() {
    let lib = library();
    let out = build_index("en", &lib, &config_for("en", Search::default())).unwrap();
    assert!(!out.contains("https://site/moved/"));
    assert!(out.contains("https://site/blog/hello/"));
}

#[test]
fn pages_of_unlisted_sections_are_indexed() {
    let lib = library();
    let out = build_index("en", &lib, &config_for("en", Search::default())).unwrap();
    assert!(out.contains("https://site/hidden/visible/"));
    assert!(!out.contains("\"https://site/hidden/\""));
    assert!(!out.contains("https://site/blog/draft/"));
    assert!(!out.contains("https://site/fr/bonjour/"));
}

#[test]
fn unsupported_language_is_an_error() {
    let lib = library();
    match build_index("xx", &lib, &Config::default()) {
        Err(SearchError::UnsupportedLanguage(code)) => assert_eq!(code, "xx"),
        Ok(_) => panic!("an index was built for an unknown language"),
    }
    let err = SearchError::UnsupportedLanguage("xx".to_string());
    assert_eq!(err.message(), "Tried to build search index for language xx which is not supported");
}

#[test]
fn language_codes_ignore_ascii_case() {
    let lib = library();
    assert!(build_index("FR", &lib, &config_for("FR", Search::default())).is_ok());
}

#[test]
fn index_text_holds_the_selected_documents() {
    let lib = library();
    let search = all_fields();
    let out = build_index("en", &lib, &config_for("en", search)).unwrap();
    let sanitizer = ContentSanitizer::new();
    let docs = index_documents("en", &lib, &search, &sanitizer);
    let mut expected = elasticlunr::IndexBuilder::with_language(elasticlunr::lang::from_code("en").unwrap())
        .add_field("title")
        .add_field("description")
        .add_field_with_tokenizer("path", Box::new(|t: &str| path_tokenizer(t)))
        .add_field("body")
        .add_field("tags")
        .add_field("categories")
        .build();
    for d in &docs {
        expected.add_doc(&d.permalink, &d.row);
    }
    assert_eq!(out, expected.to_json());
    assert!(out.contains("\"categories\":\"rust\""));
}
