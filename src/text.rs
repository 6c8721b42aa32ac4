use vstd::prelude::*;

verus! {

#[verifier::external_type_specification]
#[verifier::external_body]
pub struct ExBuilder<'a>(ammonia::Builder<'a>);

/// `ammonia::Builder::empty`: a policy under which no tag is allowed, so every
/// tag and attribute is stripped, and the content of `script` and `style`
/// elements (the default clean-content tags) is dropped with them.
pub assume_specification<'a>[ ammonia::Builder::<'a>::empty ]() -> ammonia::Builder<'a>;

/// Plain text that the markup policy of [`ContentSanitizer`] leaves of an HTML fragment.
pub uninterp spec fn sanitized(html: Seq<char>) -> Seq<char>;

/// Fixed markup policy: all tags and attributes stripped, the content of
/// `script` and `style` removed, the text inside any other element (`pre`
/// included) kept. Built once per index build and shared by reference.
pub struct ContentSanitizer {
    policy: ammonia::Builder<'static>,
}

/// Relies on `ammonia::Builder::clean` and the `Display` of the document it
/// returns: with the one policy a `ContentSanitizer` ever holds, the text
/// depends on the input alone.
#[verifier::external_body]
fn clean_markup(sanitizer: &ContentSanitizer, html: &str) -> (r: String)
    ensures
        r@ == sanitized(html@),
{
    sanitizer.policy.clean(html).to_string()
}

/// `text` cut to at most `limit` Unicode scalar values, where a limit is set.
pub open spec fn truncated(text: Seq<char>, limit: Option<usize>) -> Seq<char> {
    match limit {
        None => text,
        Some(n) => if n >= text.len() {
            text
        } else {
            text.take(n as int)
        },
    }
}

/// The indexed body text of a piece of markup.
pub open spec fn body_text(html: Seq<char>, limit: Option<usize>) -> Seq<char> {
    truncated(sanitized(html), limit)
}

impl ContentSanitizer {
    /// The one policy of this library; build it once and share it.
    pub fn new() -> (r: ContentSanitizer) {
        ContentSanitizer { policy: ammonia::Builder::empty() }
    }

    /// Strips markup from `html` under the fixed policy.
    pub fn sanitize(&self, html: &str) -> (r: String)
        ensures
            r@ == sanitized(html@),
    {
        clean_markup(self, html)
    }

    /// Strips markup from `html`, then keeps at most `limit` scalar values.
    pub fn sanitize_and_truncate(&self, html: &str, limit: Option<usize>) -> (r: String)
        ensures
            r@ == body_text(html@, limit),
    {
        let text = clean_markup(self, html);
        truncate_text(&text, limit)
    }
}

/// Keeps the first `limit` Unicode scalar values of `text`; the whole text
/// when no limit is set or the text is no longer than the limit.
pub fn truncate_text(text: &str, limit: Option<usize>) -> (r: String)
    ensures
        r@ == truncated(text@, limit),
{
    match limit {
        None => text.to_owned(),
        Some(n) => {
            let len = text.unicode_len();
            if n >= len {
                text.to_owned()
            } else {
                text.substring_char(0, n).to_owned()
            }
        },
    }
}

/// A truncated text is a prefix of the full text, of length the smaller of
/// the limit and the full length: never more than the limit, and whole
/// scalar values only.
pub proof fn lemma_truncation_law(text: Seq<char>, n: usize)
    ensures
        n >= text.len() ==> truncated(text, Some(n)) == text,
        n < text.len() ==> truncated(text, Some(n)) == text.take(n as int),
        truncated(text, Some(n)).len() == if n < text.len() { n as nat } else { text.len() },
        forall|i: int|
            0 <= i < truncated(text, Some(n)).len() ==> #[trigger] truncated(text, Some(n))[i]
                == text[i],
        truncated(text, None) == text,
{
}

/// Texts joined with single spaces between them.
pub open spec fn joined(parts: Seq<Seq<char>>) -> Seq<char>
    decreases parts.len(),
{
    if parts.len() == 0 {
        Seq::empty()
    } else if parts.len() == 1 {
        parts[0]
    } else {
        joined(parts.drop_last()) + seq![' '] + parts.last()
    }
}

/// Joins terms with single spaces, as they are indexed in one field.
pub fn join_terms(parts: &Vec<String>) -> (r: String)
    ensures
        r@ == joined(parts@.map_values(|s: String| s@)),
{
    let ghost views = parts@.map_values(|s: String| s@);
    let mut r = String::new();
    let mut i: usize = 0;
    while i < parts.len()
        invariant
            i <= parts.len(),
            views == parts@.map_values(|s: String| s@),
            r@ == joined(views.take(i as int)),
        decreases parts.len() - i,
    {
        assert(views.take(i + 1).drop_last() =~= views.take(i as int));
        assert(views.take(i + 1).last() == parts@[i as int]@);
        if i > 0 {
            r.append(" ");
            proof {
                reveal_strlit(" ");
            }
        } else {
            assert(views.take(1) =~= seq![parts@[0]@]);
            assert(r@ =~= Seq::<char>::empty());
        }
        r.append(parts[i].as_str());
        assert(r@ =~= joined(views.take(i + 1)));
        i = i + 1;
    }
    assert(views.take(parts.len() as int) =~= views);
    r
}

} // verus!
