use vstd::prelude::*;
use crate::content::{Library, TaxonomyKind, Taxonomies, Term};

verus! {

/// `p` without one trailing `/`.
pub open spec fn trim_one_slash(p: Seq<char>) -> Seq<char> {
    if p.len() > 0 && p.last() == '/' {
        p.drop_last()
    } else {
        p
    }
}

/// Index just past the last `/` among the first `i` characters of `q`, or 0.
pub open spec fn segment_start(q: Seq<char>, i: nat) -> nat
    decreases i,
{
    if i == 0 {
        0
    } else if q[i - 1] == '/' {
        i
    } else {
        segment_start(q, (i - 1) as nat)
    }
}

/// The last `/`-delimited segment of a permalink, after one trailing `/` is dropped.
pub open spec fn url_segment(permalink: Seq<char>) -> Seq<char> {
    let q = trim_one_slash(permalink);
    q.subrange(segment_start(q, q.len()) as int, q.len() as int)
}

/// Stem that `std::path::Path::file_stem` gives of a path: the file name
/// without its extension.
pub uninterp spec fn file_stem_of(path: Seq<char>) -> Option<Seq<char>>;

/// Relies on `std::path::Path::file_stem`; a stem cut from a `&str` is valid
/// UTF-8, so the lossy conversion keeps it as it is.
#[verifier::external_body]
fn file_stem(path: &str) -> (r: Option<String>)
    ensures
        r matches Some(s) ==> file_stem_of(path@) == Some(s@),
        r is None ==> file_stem_of(path@) is None,
{
    std::path::Path::new(path).file_stem().map(|s| s.to_string_lossy().into_owned())
}

/// Whether a source file's stem is exactly the segment.
pub open spec fn stem_matches(file: String, segment: Seq<char>) -> bool {
    file_stem_of(file@) == Some(segment)
}

/// The term name, once for each file whose stem is the segment.
pub open spec fn term_hits(segment: Seq<char>, name: Seq<char>, files: Seq<String>) -> Seq<
    Seq<char>,
>
    decreases files.len(),
{
    if files.len() == 0 {
        Seq::empty()
    } else {
        term_hits(segment, name, files.drop_last()) + if stem_matches(files.last(), segment) {
            seq![name]
        } else {
            Seq::empty()
        }
    }
}

/// The term names of a kind that match a segment, term by term, with repeats.
pub open spec fn kind_hits(segment: Seq<char>, terms: Seq<Term>) -> Seq<Seq<char>>
    decreases terms.len(),
{
    if terms.len() == 0 {
        Seq::empty()
    } else {
        kind_hits(segment, terms.drop_last()) + term_hits(
            segment,
            terms.last().name@,
            terms.last().files@,
        )
    }
}

/// Terms of a kind that a permalink receives in a language; none when the
/// registry lacks the language or the kind.
pub open spec fn terms_for(
    tax: Taxonomies,
    permalink: Seq<char>,
    lang: Seq<char>,
    kind: Seq<char>,
) -> Seq<Seq<char>> {
    match tax.spec_language(lang) {
        None => Seq::empty(),
        Some(l) => match l.spec_kind(kind) {
            None => Seq::empty(),
            Some(k) => kind_hits(url_segment(permalink), k.terms@),
        },
    }
}

/// The segment of a permalink that taxonomy files are matched against.
pub fn url_segment_of(permalink: &str) -> (r: String)
    ensures
        r@ == url_segment(permalink@),
{
    let n0 = permalink.unicode_len();
    let n = if n0 > 0 && permalink.get_char(n0 - 1) == '/' {
        n0 - 1
    } else {
        n0
    };
    let ghost q = trim_one_slash(permalink@);
    assert(q =~= permalink@.take(n as int));
    let mut start: usize = 0;
    let mut i: usize = 0;
    while i < n
        invariant
            n <= permalink@.len(),
            q == permalink@.take(n as int),
            q.len() == n,
            start <= i <= n,
            start == segment_start(q, i as nat),
        decreases n - i,
    {
        assert(q[i as int] == permalink@[i as int]);
        if permalink.get_char(i) == '/' {
            start = i + 1;
        }
        i = i + 1;
    }
    assert(permalink@.subrange(start as int, n as int) =~= q.subrange(start as int, n as int));
    permalink.substring_char(start, n).to_owned()
}

/// Appends to `output` the name of every term of `taxonomy`, once per source
/// file whose stem equals `url_segment`.
pub fn match_file_stem_to_url_segment(
    output: &mut Vec<String>,
    url_segment: &str,
    taxonomy: &TaxonomyKind,
)
    ensures
        final(output)@.map_values(|s: String| s@) == old(output)@.map_values(|s: String| s@)
            + kind_hits(url_segment@, taxonomy.terms@),
{
    let ghost base = old(output)@.map_values(|s: String| s@);
    let ghost terms = taxonomy.terms@;
    let segment = url_segment.to_owned();
    let mut i: usize = 0;
    assert(base + kind_hits(url_segment@, terms.take(0)) =~= base);
    while i < taxonomy.terms.len()
        invariant
            i <= terms.len(),
            terms == taxonomy.terms@,
            segment@ == url_segment@,
            output@.map_values(|s: String| s@) == base + kind_hits(url_segment@, terms.take(i as int)),
        decreases terms.len() - i,
    {
        let term = &taxonomy.terms[i];
        let ghost files = term.files@;
        let ghost done = output@.map_values(|s: String| s@);
        assert(done + term_hits(url_segment@, term.name@, files.take(0)) =~= done);
        let mut j: usize = 0;
        while j < term.files.len()
            invariant
                j <= files.len(),
                files == term.files@,
                segment@ == url_segment@,
                output@.map_values(|s: String| s@) == done + term_hits(
                    url_segment@,
                    term.name@,
                    files.take(j as int),
                ),
            decreases files.len() - j,
        {
            assert(files.take(j + 1).drop_last() =~= files.take(j as int));
            assert(files.take(j + 1).last() == files[j as int]);
            let ghost before = output@.map_values(|s: String| s@);
            match file_stem(term.files[j].as_str()) {
                Some(stem) => {
                    if stem == segment {
                        output.push(term.name.clone());
                        assert(output@.map_values(|s: String| s@) =~= before.push(term.name@));
                    } else {
                        assert(before + Seq::<Seq<char>>::empty() =~= before);
                    }
                },
                None => {
                    assert(before + Seq::<Seq<char>>::empty() =~= before);
                },
            }
            assert(output@.map_values(|s: String| s@) =~= done + term_hits(
                url_segment@,
                term.name@,
                files.take(j + 1),
            ));
            j = j + 1;
        }
        assert(files.take(files.len() as int) =~= files);
        assert(terms.take(i + 1).drop_last() =~= terms.take(i as int));
        assert(terms.take(i + 1).last() == terms[i as int]);
        assert(output@.map_values(|s: String| s@) =~= base + kind_hits(
            url_segment@,
            terms.take(i + 1),
        ));
        i = i + 1;
    }
    assert(terms.take(terms.len() as int) =~= terms);
}

/// Categories and tags that a permalink receives from the taxonomies of a language.
pub fn get_categories_and_tags(library: &Library, permalink: &str, lang: &str) -> (r: (
    Vec<String>,
    Vec<String>,
))
    ensures
        r.0@.map_values(|s: String| s@) == terms_for(
            library.taxonomies_def,
            permalink@,
            lang@,
            "categories"@,
        ),
        r.1@.map_values(|s: String| s@) == terms_for(
            library.taxonomies_def,
            permalink@,
            lang@,
            "tags"@,
        ),
{
    let mut categories: Vec<String> = Vec::new();
    let mut tags: Vec<String> = Vec::new();
    let segment = url_segment_of(permalink);
    assert(categories@.map_values(|s: String| s@) =~= Seq::<Seq<char>>::empty());
    assert(tags@.map_values(|s: String| s@) =~= Seq::<Seq<char>>::empty());
    if let Some(taxonomies) = library.taxonomies_def.language(lang) {
        if let Some(kind) = taxonomies.kind("categories") {
            match_file_stem_to_url_segment(&mut categories, segment.as_str(), kind);
            assert(categories@.map_values(|s: String| s@) =~= kind_hits(
                segment@,
                kind.terms@,
            ));
        }
        if let Some(kind) = taxonomies.kind("tags") {
            match_file_stem_to_url_segment(&mut tags, segment.as_str(), kind);
            assert(tags@.map_values(|s: String| s@) =~= kind_hits(segment@, kind.terms@));
        }
    }
    (categories, tags)
}

proof fn lemma_term_hits_contains(segment: Seq<char>, name: Seq<char>, files: Seq<String>, f: int)
    requires
        0 <= f < files.len(),
        stem_matches(files[f], segment),
    ensures
        term_hits(segment, name, files).contains(name),
    decreases files.len(),
{
    let prev = files.drop_last();
    let h = term_hits(segment, name, files);
    if f == files.len() - 1 {
        assert(h[h.len() - 1] == name);
    } else {
        lemma_term_hits_contains(segment, name, prev, f);
        let i = choose|i: int| 0 <= i < term_hits(segment, name, prev).len() && term_hits(segment, name, prev)[i] == name;
        assert(h[i] == name);
    }
}

proof fn lemma_kind_hits_contains(segment: Seq<char>, terms: Seq<Term>, t: int, f: int)
    requires
        0 <= t < terms.len(),
        0 <= f < terms[t].files@.len(),
        stem_matches(terms[t].files@[f], segment),
    ensures
        kind_hits(segment, terms).contains(terms[t].name@),
    decreases terms.len(),
{
    let prev = terms.drop_last();
    let h = kind_hits(segment, terms);
    let name = terms[t].name@;
    if t == terms.len() - 1 {
        lemma_term_hits_contains(segment, name, terms[t].files@, f);
        let th = term_hits(segment, name, terms[t].files@);
        let i = choose|i: int| 0 <= i < th.len() && th[i] == name;
        assert(h[kind_hits(segment, prev).len() + i] == name);
    } else {
        lemma_kind_hits_contains(segment, prev, t, f);
        let i = choose|i: int| 0 <= i < kind_hits(segment, prev).len() && kind_hits(segment, prev)[i] == name;
        assert(h[i] == name);
    }
}

proof fn lemma_term_hits_none(segment: Seq<char>, name: Seq<char>, files: Seq<String>)
    requires
        forall|f: int| 0 <= f < files.len() ==> !stem_matches(#[trigger] files[f], segment),
    ensures
        term_hits(segment, name, files) == Seq::<Seq<char>>::empty(),
    decreases files.len(),
{
    if files.len() > 0 {
        let prev = files.drop_last();
        assert forall|f: int| 0 <= f < prev.len() implies !stem_matches(#[trigger] prev[f], segment) by {
            assert(prev[f] == files[f]);
        }
        lemma_term_hits_none(segment, name, prev);
        assert(term_hits(segment, name, files) =~= Seq::<Seq<char>>::empty());
    }
}

proof fn lemma_kind_hits_none(segment: Seq<char>, terms: Seq<Term>)
    requires
        forall|t: int, f: int|
            0 <= t < terms.len() && 0 <= f < terms[t].files@.len() ==> !stem_matches(
                #[trigger] terms[t].files@[f],
                segment,
            ),
    ensures
        kind_hits(segment, terms) == Seq::<Seq<char>>::empty(),
    decreases terms.len(),
{
    if terms.len() > 0 {
        let prev = terms.drop_last();
        assert forall|t: int, f: int|
            0 <= t < prev.len() && 0 <= f < prev[t].files@.len() implies !stem_matches(
            #[trigger] prev[t].files@[f],
            segment,
        ) by {
            assert(prev[t] == terms[t]);
        }
        lemma_kind_hits_none(segment, prev);
        let last = terms.last();
        assert forall|f: int| 0 <= f < last.files@.len() implies !stem_matches(
            #[trigger] last.files@[f],
            segment,
        ) by {
            assert(terms[terms.len() - 1].files@[f] == last.files@[f]);
        }
        lemma_term_hits_none(segment, last.name@, last.files@);
        assert(kind_hits(segment, terms) =~= Seq::<Seq<char>>::empty());
    }
}

/// A term of the kind receives the permalink when one of its files has the
/// URL segment as stem.
pub proof fn lemma_taxonomy_match(
    tax: Taxonomies,
    permalink: Seq<char>,
    lang: Seq<char>,
    kind: Seq<char>,
    t: int,
    f: int,
)
    requires
        tax.spec_language(lang) matches Some(l) && l.spec_kind(kind) matches Some(k) && 0 <= t
            < k.terms@.len() && 0 <= f < k.terms@[t].files@.len() && stem_matches(
            k.terms@[t].files@[f],
            url_segment(permalink),
        ),
    ensures
        tax.spec_language(lang) matches Some(l) && l.spec_kind(kind) matches Some(k)
            && terms_for(tax, permalink, lang, kind).contains(k.terms@[t].name@),
{
    let k = tax.spec_language(lang)->Some_0.spec_kind(kind)->Some_0;
    lemma_kind_hits_contains(url_segment(permalink), k.terms@, t, f);
}

/// When no file of the kind has the URL segment as stem, the permalink
/// receives no term of that kind.
pub proof fn lemma_taxonomy_no_match(
    tax: Taxonomies,
    permalink: Seq<char>,
    lang: Seq<char>,
    kind: Seq<char>,
)
    requires
        tax.spec_language(lang) matches Some(l) ==> (l.spec_kind(kind) matches Some(k) ==> (
        forall|t: int, f: int|
            0 <= t < k.terms@.len() && 0 <= f < k.terms@[t].files@.len() ==> !stem_matches(
                #[trigger] k.terms@[t].files@[f],
                url_segment(permalink),
            ))),
    ensures
        terms_for(tax, permalink, lang, kind) == Seq::<Seq<char>>::empty(),
{
    if let Some(l) = tax.spec_language(lang) {
        if let Some(k) = l.spec_kind(kind) {
            lemma_kind_hits_none(url_segment(permalink), k.terms@);
        }
    }
}

} // verus!
