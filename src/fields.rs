use vstd::prelude::*;

verus! {

/// A field that an index may hold. Its place in the canonical order is its rank.
#[derive(Clone, Copy, PartialEq, Eq, Structural, Debug)]
pub enum Field {
    Title,
    Description,
    Path,
    Body,
    Tags,
    Categories,
}

/// Number of fields in the canonical order.
pub const FIELD_COUNT: usize = 6;

impl Field {
    /// Position of the field in the canonical order.
    pub open spec fn rank(self) -> nat {
        match self {
            Field::Title => 0,
            Field::Description => 1,
            Field::Path => 2,
            Field::Body => 3,
            Field::Tags => 4,
            Field::Categories => 5,
        }
    }

    /// The field at a position of the canonical order.
    pub open spec fn spec_at(k: nat) -> Field {
        if k == 0 {
            Field::Title
        } else if k == 1 {
            Field::Description
        } else if k == 2 {
            Field::Path
        } else if k == 3 {
            Field::Body
        } else if k == 4 {
            Field::Tags
        } else {
            Field::Categories
        }
    }

    /// The fixed ordering table: title, description, path, body, tags, categories.
    pub fn at(k: usize) -> (r: Field)
        requires
            k < FIELD_COUNT,
        ensures
            r == Field::spec_at(k as nat),
            r.rank() == k,
    {
        if k == 0 {
            Field::Title
        } else if k == 1 {
            Field::Description
        } else if k == 2 {
            Field::Path
        } else if k == 3 {
            Field::Body
        } else if k == 4 {
            Field::Tags
        } else {
            Field::Categories
        }
    }

    pub open spec fn spec_name(self) -> Seq<char> {
        match self {
            Field::Title => "title"@,
            Field::Description => "description"@,
            Field::Path => "path"@,
            Field::Body => "body"@,
            Field::Tags => "tags"@,
            Field::Categories => "categories"@,
        }
    }

    /// The name under which the field is stored in an index.
    pub fn name(self) -> (r: &'static str)
        ensures
            r@ == self.spec_name(),
    {
        match self {
            Field::Title => "title",
            Field::Description => "description",
            Field::Path => "path",
            Field::Body => "body",
            Field::Tags => "tags",
            Field::Categories => "categories",
        }
    }
}

/// Distinct fields have distinct names.
pub proof fn lemma_field_names_distinct(a: Field, b: Field)
    ensures
        a.spec_name() == b.spec_name() ==> a == b,
{
    reveal_strlit("title");
    reveal_strlit("description");
    reveal_strlit("path");
    reveal_strlit("body");
    reveal_strlit("tags");
    reveal_strlit("categories");
    if a.spec_name() == b.spec_name() && a != b {
        assert(a.spec_name()[0] == b.spec_name()[0]);
        assert(a.spec_name().len() == b.spec_name().len());
    }
}

/// Search settings of one language: which fields are indexed, and an optional
/// limit, in Unicode scalar values, on the indexed body text.
#[derive(Clone, Copy, Debug)]
pub struct Search {
    pub include_title: bool,
    pub include_description: bool,
    pub include_path: bool,
    pub include_content: bool,
    pub include_tags: bool,
    pub include_categories: bool,
    pub truncate_content_length: Option<usize>,
}

impl Search {
    pub open spec fn spec_includes(self, f: Field) -> bool {
        match f {
            Field::Title => self.include_title,
            Field::Description => self.include_description,
            Field::Path => self.include_path,
            Field::Body => self.include_content,
            Field::Tags => self.include_tags,
            Field::Categories => self.include_categories,
        }
    }

    /// Whether the settings enable a field.
    #[verifier::when_used_as_spec(spec_includes)]
    pub fn includes(self, f: Field) -> (r: bool)
        ensures
            r == self.spec_includes(f),
    {
        match f {
            Field::Title => self.include_title,
            Field::Description => self.include_description,
            Field::Path => self.include_path,
            Field::Body => self.include_content,
            Field::Tags => self.include_tags,
            Field::Categories => self.include_categories,
        }
    }

    /// Number of enabled fields.
    pub open spec fn flag_count(self) -> nat {
        (if self.include_title { 1nat } else { 0nat }) + (if self.include_description {
            1nat
        } else {
            0nat
        }) + (if self.include_path { 1nat } else { 0nat }) + (if self.include_content {
            1nat
        } else {
            0nat
        }) + (if self.include_tags { 1nat } else { 0nat }) + (if self.include_categories {
            1nat
        } else {
            0nat
        })
    }
}

impl Default for Search {
    /// Title and body indexed, nothing truncated.
    fn default() -> (r: Search)
        ensures
            r.include_title && r.include_content,
            !r.include_description && !r.include_path,
            !r.include_tags && !r.include_categories,
            r.truncate_content_length is None,
    {
        Search {
            include_title: true,
            include_description: false,
            include_path: false,
            include_content: true,
            include_tags: false,
            include_categories: false,
            truncate_content_length: None,
        }
    }
}

/// The enabled fields among the first `k` of the canonical order, in that order.
pub open spec fn schema_upto(s: Search, k: nat) -> Seq<Field>
    decreases k,
{
    if k == 0 {
        Seq::empty()
    } else {
        let f = Field::spec_at((k - 1) as nat);
        if s.includes(f) {
            schema_upto(s, (k - 1) as nat).push(f)
        } else {
            schema_upto(s, (k - 1) as nat)
        }
    }
}

/// The schema: the enabled fields, in canonical order.
pub open spec fn schema_of(s: Search) -> Seq<Field> {
    schema_upto(s, FIELD_COUNT as nat)
}

/// The names of the fields of a schema.
pub open spec fn field_names(fs: Seq<Field>) -> Seq<Seq<char>> {
    fs.map_values(|f: Field| f.spec_name())
}

/// Number of enabled fields among the first `k` of the canonical order.
pub open spec fn count_upto(s: Search, k: nat) -> nat
    decreases k,
{
    if k == 0 {
        0
    } else {
        count_upto(s, (k - 1) as nat) + if s.includes(Field::spec_at((k - 1) as nat)) {
            1nat
        } else {
            0nat
        }
    }
}

proof fn lemma_schema_upto(s: Search, k: nat)
    requires
        k <= FIELD_COUNT,
    ensures
        schema_upto(s, k).len() == count_upto(s, k),
        forall|i: int| 0 <= i < schema_upto(s, k).len() ==> #[trigger] schema_upto(s, k)[i].rank() < k,
        forall|i: int, j: int|
            0 <= i < j < schema_upto(s, k).len() ==> #[trigger] schema_upto(s, k)[i].rank()
                < #[trigger] schema_upto(s, k)[j].rank(),
        forall|f: Field| schema_upto(s, k).contains(f) <==> (s.includes(f) && f.rank() < k),
    decreases k,
{
    if k > 0 {
        let k1 = (k - 1) as nat;
        lemma_schema_upto(s, k1);
        let prev = schema_upto(s, k1);
        let f = Field::spec_at(k1);
        assert(f.rank() == k1);
        assert forall|g: Field| schema_upto(s, k).contains(g) <==> (s.includes(g) && g.rank() < k) by {
            if s.includes(f) {
                if g == f {
                    assert(schema_upto(s, k)[prev.len() as int] == g);
                } else if schema_upto(s, k).contains(g) {
                    let i = choose|i: int| 0 <= i < schema_upto(s, k).len() && schema_upto(s, k)[i] == g;
                    assert(prev[i] == g);
                } else if prev.contains(g) {
                    let i = choose|i: int| 0 <= i < prev.len() && prev[i] == g;
                    assert(schema_upto(s, k)[i] == g);
                }
            }
            if g.rank() == k1 {
                assert(g == f);
            }
        }
    }
}

/// The schema holds exactly one entry per enabled flag, each enabled field
/// once, and the fields stand in the canonical order.
pub proof fn lemma_schema_law(s: Search)
    ensures
        schema_of(s).len() == s.flag_count(),
        forall|f: Field| schema_of(s).contains(f) <==> s.includes(f),
        forall|i: int, j: int|
            0 <= i < j < schema_of(s).len() ==> #[trigger] schema_of(s)[i].rank()
                < #[trigger] schema_of(s)[j].rank(),
{
    lemma_schema_upto(s, FIELD_COUNT as nat);
    reveal_with_fuel(count_upto, 7);
    assert forall|f: Field| schema_of(s).contains(f) <==> s.includes(f) by {
        assert(f.rank() < FIELD_COUNT);
    }
}

/// The names of a schema are pairwise distinct.
pub proof fn lemma_schema_names_distinct(s: Search)
    ensures
        forall|i: int, j: int|
            0 <= i < j < schema_of(s).len() ==> #[trigger] field_names(schema_of(s))[i]
                != #[trigger] field_names(schema_of(s))[j],
{
    lemma_schema_law(s);
    assert forall|i: int, j: int|
        0 <= i < j < schema_of(s).len() implies #[trigger] field_names(schema_of(s))[i]
            != #[trigger] field_names(schema_of(s))[j] by {
        lemma_field_names_distinct(schema_of(s)[i], schema_of(s)[j]);
        assert(schema_of(s)[i].rank() < schema_of(s)[j].rank());
    }
}

/// The schema of a configuration: the enabled fields in canonical order.
pub fn schema(s: &Search) -> (r: Vec<Field>)
    ensures
        r@ == schema_of(*s),
{
    let mut r: Vec<Field> = Vec::new();
    let mut k: usize = 0;
    while k < FIELD_COUNT
        invariant
            k <= FIELD_COUNT,
            r@ == schema_upto(*s, k as nat),
        decreases FIELD_COUNT - k,
    {
        let f = Field::at(k);
        if s.includes(f) {
            r.push(f);
        }
        k = k + 1;
    }
    r
}

/// Settings of one configured language.
#[derive(Clone, Debug)]
pub struct LanguageOptions {
    pub code: String,
    pub search: Search,
}

/// Site configuration: the default search settings and those of each language.
#[derive(Clone, Debug)]
pub struct Config {
    pub search: Search,
    pub languages: Vec<LanguageOptions>,
}

/// The search settings of the first language entry with the given code.
pub open spec fn search_in(langs: Seq<LanguageOptions>, code: Seq<char>) -> Option<Search>
    decreases langs.len(),
{
    if langs.len() == 0 {
        None
    } else if langs[0].code@ == code {
        Some(langs[0].search)
    } else {
        search_in(langs.drop_first(), code)
    }
}

impl Config {
    pub open spec fn spec_search_for(&self, code: Seq<char>) -> Option<Search> {
        search_in(self.languages@, code)
    }

    /// The search settings configured for a language.
    pub fn search_for(&self, code: &str) -> (r: Option<Search>)
        ensures
            r == self.spec_search_for(code@),
    {
        let target = code.to_owned();
        let mut i: usize = 0;
        assert(self.languages@.subrange(0, self.languages@.len() as int) =~= self.languages@);
        while i < self.languages.len()
            invariant
                i <= self.languages.len(),
                target@ == code@,
                search_in(self.languages@, code@) == search_in(
                    self.languages@.subrange(i as int, self.languages@.len() as int),
                    code@,
                ),
            decreases self.languages.len() - i,
        {
            let ghost rest = self.languages@.subrange(i as int, self.languages@.len() as int);
            assert(rest.drop_first() =~= self.languages@.subrange(
                i + 1,
                self.languages@.len() as int,
            ));
            if self.languages[i].code == target {
                return Some(self.languages[i].search);
            }
            i = i + 1;
        }
        None
    }
}

impl Default for Config {
    /// Default search settings and no language entries.
    fn default() -> (r: Config)
        ensures
            r.search.include_title && r.search.include_content,
            !r.search.include_description && !r.search.include_path,
            !r.search.include_tags && !r.search.include_categories,
            r.search.truncate_content_length is None,
            r.languages@.len() == 0,
    {
        Config { search: Search::default(), languages: Vec::new() }
    }
}

} // verus!
