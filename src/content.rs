use vstd::prelude::*;

verus! {

/// Front-matter of a section that bears on indexing.
#[derive(Clone, Debug)]
pub struct SectionMeta {
    pub title: Option<String>,
    pub description: Option<String>,
    pub in_search_index: bool,
    pub redirect_to: Option<String>,
}

/// Front-matter of a page that bears on indexing.
#[derive(Clone, Debug)]
pub struct PageMeta {
    pub title: Option<String>,
    pub description: Option<String>,
    pub in_search_index: bool,
}

/// A directory-level content unit. `pages` are keys into [`Library::pages`].
#[derive(Clone, Debug)]
pub struct Section {
    pub lang: String,
    pub path: String,
    pub permalink: String,
    pub content: String,
    pub meta: SectionMeta,
    pub pages: Vec<usize>,
}

/// A leaf content unit.
#[derive(Clone, Debug)]
pub struct Page {
    pub lang: String,
    pub path: String,
    pub permalink: String,
    pub content: String,
    pub meta: PageMeta,
}

/// A term of a taxonomy kind, with the source files tagged with it.
#[derive(Clone, Debug)]
pub struct Term {
    pub name: String,
    pub files: Vec<String>,
}

/// A taxonomy kind ("categories", "tags", ...) and its terms.
#[derive(Clone, Debug)]
pub struct TaxonomyKind {
    pub name: String,
    pub terms: Vec<Term>,
}

/// The taxonomy kinds of one language.
#[derive(Clone, Debug)]
pub struct LanguageTaxonomies {
    pub lang: String,
    pub kinds: Vec<TaxonomyKind>,
}

/// The taxonomy registry: language, then kind, then term, then files.
#[derive(Clone, Debug)]
pub struct Taxonomies {
    pub languages: Vec<LanguageTaxonomies>,
}

/// The parsed content of a site.
#[derive(Clone, Debug)]
pub struct Library {
    pub sections: Vec<Section>,
    pub pages: Vec<Page>,
    pub taxonomies_def: Taxonomies,
}

impl Library {
    /// Every page key of every section names a page.
    pub open spec fn wf(&self) -> bool {
        forall|i: int, k: int|
            0 <= i < self.sections@.len() && 0 <= k < self.sections@[i].pages@.len()
                ==> #[trigger] self.sections@[i].pages@[k] < self.pages@.len()
    }
}

/// The first entry of `langs` for a language code.
pub open spec fn find_language(langs: Seq<LanguageTaxonomies>, code: Seq<char>) -> Option<
    LanguageTaxonomies,
>
    decreases langs.len(),
{
    if langs.len() == 0 {
        None
    } else if langs[0].lang@ == code {
        Some(langs[0])
    } else {
        find_language(langs.drop_first(), code)
    }
}

/// The first kind of `kinds` with a name.
pub open spec fn find_kind(kinds: Seq<TaxonomyKind>, name: Seq<char>) -> Option<TaxonomyKind>
    decreases kinds.len(),
{
    if kinds.len() == 0 {
        None
    } else if kinds[0].name@ == name {
        Some(kinds[0])
    } else {
        find_kind(kinds.drop_first(), name)
    }
}

impl Taxonomies {
    pub open spec fn spec_language(&self, code: Seq<char>) -> Option<LanguageTaxonomies> {
        find_language(self.languages@, code)
    }

    /// The taxonomies of a language, if the registry has any.
    pub fn language(&self, code: &str) -> (r: Option<&LanguageTaxonomies>)
        ensures
            r matches Some(t) ==> self.spec_language(code@) == Some(*t),
            r is None ==> self.spec_language(code@) is None,
    {
        let target = code.to_owned();
        let mut i: usize = 0;
        assert(self.languages@.subrange(0, self.languages@.len() as int) =~= self.languages@);
        while i < self.languages.len()
            invariant
                i <= self.languages.len(),
                target@ == code@,
                find_language(self.languages@, code@) == find_language(
                    self.languages@.subrange(i as int, self.languages@.len() as int),
                    code@,
                ),
            decreases self.languages.len() - i,
        {
            let ghost rest = self.languages@.subrange(i as int, self.languages@.len() as int);
            assert(rest.drop_first() =~= self.languages@.subrange(
                i + 1,
                self.languages@.len() as int,
            ));
            if self.languages[i].lang == target {
                return Some(&self.languages[i]);
            }
            i = i + 1;
        }
        None
    }
}

impl LanguageTaxonomies {
    pub open spec fn spec_kind(&self, name: Seq<char>) -> Option<TaxonomyKind> {
        find_kind(self.kinds@, name)
    }

    /// The kind of this language with a name, if there is one.
    pub fn kind(&self, name: &str) -> (r: Option<&TaxonomyKind>)
        ensures
            r matches Some(k) ==> self.spec_kind(name@) == Some(*k),
            r is None ==> self.spec_kind(name@) is None,
    {
        let target = name.to_owned();
        let mut i: usize = 0;
        assert(self.kinds@.subrange(0, self.kinds@.len() as int) =~= self.kinds@);
        while i < self.kinds.len()
            invariant
                i <= self.kinds.len(),
                target@ == name@,
                find_kind(self.kinds@, name@) == find_kind(
                    self.kinds@.subrange(i as int, self.kinds@.len() as int),
                    name@,
                ),
            decreases self.kinds.len() - i,
        {
            let ghost rest = self.kinds@.subrange(i as int, self.kinds@.len() as int);
            assert(rest.drop_first() =~= self.kinds@.subrange(i + 1, self.kinds@.len() as int));
            if self.kinds[i].name == target {
                return Some(&self.kinds[i]);
            }
            i = i + 1;
        }
        None
    }
}

} // verus!
