use vstd::prelude::*;

verus! {

/// Characters with the Unicode `White_Space` property.
pub open spec fn is_white_space(c: char) -> bool {
    let u = c as u32;
    (0x09 <= u <= 0x0D) || u == 0x20 || u == 0x85 || u == 0xA0 || u == 0x1680 || (0x2000 <= u
        <= 0x200A) || u == 0x2028 || u == 0x2029 || u == 0x202F || u == 0x205F || u == 0x3000
}

/// A character that separates path tokens: white space, `-` or `/`.
pub open spec fn is_path_delimiter(c: char) -> bool {
    is_white_space(c) || c == '-' || c == '/'
}

/// Whether a character separates path tokens.
pub fn path_delimiter(c: char) -> (r: bool)
    ensures
        r == is_path_delimiter(c),
{
    let u = c as u32;
    (0x09 <= u && u <= 0x0D) || u == 0x20 || u == 0x85 || u == 0xA0 || u == 0x1680 || (0x2000
        <= u && u <= 0x200A) || u == 0x2028 || u == 0x2029 || u == 0x202F || u == 0x205F || u
        == 0x3000 || c == '-' || c == '/'
}

/// The run of non-delimiters at the end of `s`: the segment still open.
pub open spec fn open_run(s: Seq<char>) -> Seq<char>
    decreases s.len(),
{
    if s.len() == 0 {
        Seq::empty()
    } else if is_path_delimiter(s.last()) {
        Seq::empty()
    } else {
        open_run(s.drop_last()).push(s.last())
    }
}

/// The non-empty segments of `s` that a delimiter has closed, left to right.
pub open spec fn closed_segments(s: Seq<char>) -> Seq<Seq<char>>
    decreases s.len(),
{
    if s.len() == 0 {
        Seq::empty()
    } else if is_path_delimiter(s.last()) && open_run(s.drop_last()).len() > 0 {
        closed_segments(s.drop_last()).push(open_run(s.drop_last()))
    } else {
        closed_segments(s.drop_last())
    }
}

/// The maximal non-empty runs of non-delimiter characters of `s`, left to right.
pub open spec fn path_segments(s: Seq<char>) -> Seq<Seq<char>> {
    if open_run(s).len() > 0 {
        closed_segments(s).push(open_run(s))
    } else {
        closed_segments(s)
    }
}

/// Result of lowercasing a string with `str::to_lowercase`.
pub uninterp spec fn lower_of(s: Seq<char>) -> Seq<char>;

/// The tokens of a path: its segments, lowercased.
pub open spec fn path_tokens(s: Seq<char>) -> Seq<Seq<char>> {
    path_segments(s).map_values(|seg: Seq<char>| lower_of(seg))
}

/// Relies on `str::to_lowercase`: the result depends on the characters alone,
/// and each character lowercases to one or more characters.
#[verifier::external_body]
fn lowercase(s: &str) -> (r: String)
    ensures
        r@ == lower_of(s@),
        s@.len() > 0 ==> r@.len() > 0,
{
    s.to_lowercase()
}

proof fn lemma_open_run_clean(s: Seq<char>)
    ensures
        forall|i: int| 0 <= i < open_run(s).len() ==> !is_path_delimiter(#[trigger] open_run(s)[i]),
    decreases s.len(),
{
    if s.len() > 0 {
        let p = s.drop_last();
        lemma_open_run_clean(p);
        let o = open_run(s);
        if !is_path_delimiter(s.last()) {
            assert forall|i: int| 0 <= i < o.len() implies !is_path_delimiter(#[trigger] o[i]) by {
                if i < o.len() - 1 {
                    assert(o[i] == open_run(p)[i]);
                }
            }
        }
    }
}

proof fn lemma_closed_segments_clean(s: Seq<char>)
    ensures
        forall|k: int| 0 <= k < closed_segments(s).len() ==> (#[trigger] closed_segments(s)[k]).len() > 0,
        forall|k: int, i: int|
            0 <= k < closed_segments(s).len() && 0 <= i < closed_segments(s)[k].len()
                ==> !is_path_delimiter(#[trigger] closed_segments(s)[k][i]),
    decreases s.len(),
{
    if s.len() > 0 {
        let p = s.drop_last();
        lemma_closed_segments_clean(p);
        lemma_open_run_clean(p);
        let cs = closed_segments(s);
        if is_path_delimiter(s.last()) && open_run(p).len() > 0 {
            assert(cs == closed_segments(p).push(open_run(p)));
            assert forall|k: int, i: int|
                0 <= k < cs.len() && 0 <= i < cs[k].len() implies !is_path_delimiter(
                #[trigger] cs[k][i],
            ) by {
                if k < closed_segments(p).len() {
                    assert(cs[k] == closed_segments(p)[k]);
                } else {
                    assert(cs[k] == open_run(p));
                }
            }
        }
    }
}

/// Every path segment is non-empty and holds no delimiter.
pub proof fn lemma_path_segments_clean(s: Seq<char>)
    ensures
        forall|k: int| 0 <= k < path_segments(s).len() ==> (#[trigger] path_segments(s)[k]).len() > 0,
        forall|k: int, i: int|
            0 <= k < path_segments(s).len() && 0 <= i < path_segments(s)[k].len()
                ==> !is_path_delimiter(#[trigger] path_segments(s)[k][i]),
{
    lemma_closed_segments_clean(s);
    lemma_open_run_clean(s);
    let ps = path_segments(s);
    if open_run(s).len() > 0 {
        assert forall|k: int, i: int|
            0 <= k < ps.len() && 0 <= i < ps[k].len() implies !is_path_delimiter(
            #[trigger] ps[k][i],
        ) by {
            if k < closed_segments(s).len() {
                assert(ps[k] == closed_segments(s)[k]);
            } else {
                assert(ps[k] == open_run(s));
            }
        }
    }
}

/// Splits a path into tokens on white space, `-` and `/`, drops empty pieces
/// and lowercases the rest. No token is empty.
pub fn path_tokenizer(text: &str) -> (r: Vec<String>)
    ensures
        r@.map_values(|t: String| t@) == path_tokens(text@),
        forall|i: int| 0 <= i < r@.len() ==> (#[trigger] r@[i])@.len() > 0,
{
    let n = text.unicode_len();
    let mut r: Vec<String> = Vec::new();
    let mut start: usize = 0;
    let mut i: usize = 0;
    proof {
        lemma_path_segments_clean(text@);
    }
    while i < n
        invariant
            n == text@.len(),
            start <= i <= n,
            text@.subrange(start as int, i as int) == open_run(text@.take(i as int)),
            r@.map_values(|t: String| t@) == closed_segments(text@.take(i as int)).map_values(
                |seg: Seq<char>| lower_of(seg),
            ),
            forall|k: int| 0 <= k < r@.len() ==> (#[trigger] r@[k])@.len() > 0,
        decreases n - i,
    {
        let c = text.get_char(i);
        let ghost prev = text@.take(i as int);
        assert(text@.take(i + 1).drop_last() =~= prev);
        assert(text@.take(i + 1).last() == c);
        if path_delimiter(c) {
            if start < i {
                let seg = text.substring_char(start, i);
                let tok = lowercase(seg);
                let ghost before = r@;
                r.push(tok);
                assert(closed_segments(text@.take(i + 1)) == closed_segments(prev).push(open_run(prev)));
                assert(r@ == before.push(tok));
                assert(seg@ == open_run(prev));
                assert(r@.map_values(|t: String| t@) =~= before.map_values(|t: String| t@).push(tok@));
                assert(closed_segments(prev).push(open_run(prev)).map_values(|seg: Seq<char>| lower_of(seg))
                    =~= closed_segments(prev).map_values(|seg: Seq<char>| lower_of(seg)).push(lower_of(open_run(prev))));
                assert(r@.map_values(|t: String| t@) =~= closed_segments(text@.take(i + 1)).map_values(
                    |seg: Seq<char>| lower_of(seg),
                ));
            } else {
                assert(open_run(prev).len() == 0);
                assert(closed_segments(text@.take(i + 1)) == closed_segments(prev));
                assert(r@.map_values(|t: String| t@) == closed_segments(text@.take(i + 1)).map_values(
                    |seg: Seq<char>| lower_of(seg),
                ));
            }
            start = i + 1;
            assert(text@.subrange(start as int, start as int) =~= Seq::<char>::empty());
        } else {
            assert(text@.subrange(start as int, i + 1) =~= text@.subrange(start as int, i as int).push(c));
        }
        i = i + 1;
    }
    assert(text@.take(n as int) =~= text@);
    if start < n {
        let seg = text.substring_char(start, n);
        let tok = lowercase(seg);
        let ghost before = r@;
        r.push(tok);
        assert(r@ == before.push(tok));
        assert(r@.map_values(|t: String| t@) =~= before.map_values(|t: String| t@).push(tok@));
    }
    assert(r@.map_values(|t: String| t@) =~= path_tokens(text@));
    r
}

} // verus!
