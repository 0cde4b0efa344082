//! Text primitives for reading compiler output: substring search, splitting
//! on a delimiter token, and extraction of the first double-quoted piece.

use vstd::prelude::*;

verus! {

/// The views of a sequence of strings.
pub open spec fn views_of(v: Seq<String>) -> Seq<Seq<char>> {
    v.map_values(|s: String| s@)
}

/// `pat` occurs in `text` starting at position `i`.
pub open spec fn occurs_at(text: Seq<char>, pat: Seq<char>, i: int) -> bool {
    0 <= i && i + pat.len() <= text.len() && text.subrange(i, i + pat.len() as int) == pat
}

/// The position of the leftmost occurrence of `pat` in `text` at or after
/// `from`, if any.
pub open spec fn find_at(text: Seq<char>, pat: Seq<char>, from: int) -> Option<int>
    decreases text.len() + 1 - from,
{
    if from < 0 || from + pat.len() > text.len() {
        None
    } else if occurs_at(text, pat, from) {
        Some(from)
    } else {
        find_at(text, pat, from + 1)
    }
}

/// A found position lies at or after `from`, fits in the text, and is an
/// occurrence.
pub proof fn lemma_find_at_some(text: Seq<char>, pat: Seq<char>, from: int, i: int)
    requires
        find_at(text, pat, from) == Some(i),
    ensures
        from <= i,
        i + pat.len() <= text.len(),
        occurs_at(text, pat, i),
    decreases text.len() + 1 - from,
{
    if from < 0 || from + pat.len() > text.len() {
    } else if occurs_at(text, pat, from) {
    } else {
        lemma_find_at_some(text, pat, from + 1, i);
    }
}

/// An occurrence before which no other occurrence lies is the one found.
pub proof fn lemma_find_at_first(text: Seq<char>, pat: Seq<char>, from: int, m: int)
    requires
        0 <= from <= m,
        occurs_at(text, pat, m),
        forall|k: int| from <= k < m ==> !occurs_at(text, pat, k),
    ensures
        find_at(text, pat, from) == Some(m),
    decreases m - from,
{
    if from == m {
    } else {
        lemma_find_at_first(text, pat, from + 1, m);
    }
}

/// The segments of `text` from `from` on, split on every occurrence of `pat`,
/// leftmost first and non-overlapping.
pub open spec fn split_at(text: Seq<char>, pat: Seq<char>, from: int) -> Seq<Seq<char>>
    decreases text.len() + 1 - from,
        when 0 <= from <= text.len() && pat.len() >= 1
        via split_at_decreases
{
    match find_at(text, pat, from) {
        None => seq![text.subrange(from, text.len() as int)],
        Some(i) => seq![text.subrange(from, i)] + split_at(text, pat, i + pat.len() as int),
    }
}

#[via_fn]
proof fn split_at_decreases(text: Seq<char>, pat: Seq<char>, from: int) {
    match find_at(text, pat, from) {
        None => {},
        Some(i) => {
            lemma_find_at_some(text, pat, from, i);
        },
    }
}

/// Whether `pat` occurs at position `i` of `text`, by character comparison.
fn matches_at(text: &str, pat: &str, i: usize, text_len: usize, pat_len: usize) -> (b: bool)
    requires
        text_len == text@.len(),
        pat_len == pat@.len(),
        i + pat_len <= text_len,
    ensures
        b == occurs_at(text@, pat@, i as int),
{
    let mut j: usize = 0;
    while j < pat_len
        invariant
            text_len == text@.len(),
            pat_len == pat@.len(),
            i + pat_len <= text_len,
            0 <= j <= pat_len,
            forall|k: int| 0 <= k < j ==> text@[i + k] == pat@[k],
        decreases pat_len - j,
    {
        if text.get_char(i + j) != pat.get_char(j) {
            assert(!occurs_at(text@, pat@, i as int)) by {
                if occurs_at(text@, pat@, i as int) {
                    assert(text@.subrange(i as int, i as int + pat@.len() as int)[j as int]
                        == text@[i + j]);
                }
            }
            return false;
        }
        j += 1;
    }
    assert(text@.subrange(i as int, i as int + pat@.len() as int) =~= pat@);
    true
}

/// The leftmost occurrence of `pat` in `text` at or after `from`, or `None`
/// when there is none.
pub fn find_from(text: &str, pat: &str, from: usize) -> (r: Option<usize>)
    requires
        pat@.len() >= 1,
        from <= text@.len(),
    ensures
        match r {
            Some(i) => {
                &&& find_at(text@, pat@, from as int) == Some(i as int)
                &&& from <= i
                &&& i + pat@.len() <= text@.len()
            },
            None => find_at(text@, pat@, from as int) is None,
        },
{
    let text_len = text.unicode_len();
    let pat_len = pat.unicode_len();
    if text_len < pat_len || from > text_len - pat_len {
        assert(find_at(text@, pat@, from as int) is None);
        return None;
    }
    let mut i = from;
    while i <= text_len - pat_len
        invariant
            text_len == text@.len(),
            pat_len == pat@.len(),
            pat_len >= 1,
            pat_len <= text_len,
            from <= i,
            i <= text_len - pat_len + 1,
            find_at(text@, pat@, from as int) == find_at(text@, pat@, i as int),
        decreases text_len - i,
    {
        if matches_at(text, pat, i, text_len, pat_len) {
            assert(find_at(text@, pat@, i as int) == Some(i as int));
            proof {
                lemma_find_at_some(text@, pat@, from as int, i as int);
            }
            return Some(i);
        }
        assert(find_at(text@, pat@, i as int) == find_at(text@, pat@, i as int + 1));
        i += 1;
    }
    assert(find_at(text@, pat@, i as int) is None);
    None
}

/// Splits `text` on every occurrence of `token`: one more segment than there
/// are occurrences, in text order; the first segment is the preamble before
/// the first occurrence.
pub fn split_on_token(text: &str, token: &str) -> (segs: Vec<String>)
    requires
        token@.len() >= 1,
    ensures
        views_of(segs@) == split_at(text@, token@, 0),
        segs@.len() >= 1,
{
    let text_len = text.unicode_len();
    let token_len = token.unicode_len();
    let mut segs: Vec<String> = Vec::new();
    let mut from: usize = 0;
    loop
        invariant_except_break
            text_len == text@.len(),
            token_len == token@.len(),
            token_len >= 1,
            0 <= from <= text_len,
            split_at(text@, token@, 0) == views_of(segs@) + split_at(
                text@,
                token@,
                from as int,
            ),
        ensures
            views_of(segs@) == split_at(text@, token@, 0),
            segs@.len() >= 1,
        decreases text_len - from,
    {
        let ghost prev_segs = segs@;
        let ghost prev_from = from as int;
        match find_from(text, token, from) {
            Some(i) => {
                let piece = text.substring_char(from, i);
                segs.push(piece.to_owned());
                from = i + token_len;
                proof {
                    assert(views_of(segs@) =~= views_of(prev_segs).push(piece@));
                    assert(split_at(text@, token@, prev_from) == seq![
                        text@.subrange(prev_from, i as int),
                    ] + split_at(text@, token@, from as int));
                    assert(views_of(prev_segs) + split_at(text@, token@, prev_from) =~= views_of(
                        segs@,
                    ) + split_at(text@, token@, from as int));
                }
            },
            None => {
                let piece = text.substring_char(from, text_len);
                segs.push(piece.to_owned());
                proof {
                    assert(views_of(segs@) =~= views_of(prev_segs).push(piece@));
                    assert(split_at(text@, token@, prev_from) == seq![
                        text@.subrange(prev_from, text_len as int),
                    ]);
                    assert(views_of(segs@) =~= split_at(text@, token@, 0));
                }
                break ;
            },
        }
    }
    segs
}

/// Whether two string slices hold the same characters.
pub fn str_eq(a: &str, b: &str) -> (r: bool)
    ensures
        r == (a@ == b@),
{
    let n = a.unicode_len();
    if n != b.unicode_len() {
        return false;
    }
    let mut i: usize = 0;
    while i < n
        invariant
            n == a@.len(),
            n == b@.len(),
            0 <= i <= n,
            forall|k: int| 0 <= k < i ==> a@[k] == b@[k],
        decreases n - i,
    {
        if a.get_char(i) != b.get_char(i) {
            return false;
        }
        i += 1;
    }
    assert(a@ =~= b@);
    true
}

/// The contents of the first double-quoted piece of `s`: the characters
/// strictly between the first quote and the next one, the rest of `s` when no
/// second quote follows, and empty when `s` holds no quote at all.
pub open spec fn first_quoted(s: Seq<char>) -> Seq<char> {
    match find_at(s, seq!['"'], 0) {
        None => Seq::empty(),
        Some(a) => match find_at(s, seq!['"'], a + 1) {
            None => s.subrange(a + 1, s.len() as int),
            Some(b) => s.subrange(a + 1, b),
        },
    }
}

/// Extracts the first double-quoted piece of `s`.
pub fn extract_first_quoted(s: &str) -> (r: String)
    ensures
        r@ == first_quoted(s@),
{
    proof {
        reveal_strlit("\"");
        assert("\""@ =~= seq!['"']);
    }
    let n = s.unicode_len();
    match find_from(s, "\"", 0) {
        None => String::new(),
        Some(a) => {
            proof {
                lemma_find_at_some(s@, seq!['"'], 0, a as int);
            }
            match find_from(s, "\"", a + 1) {
                None => {
                    let r = s.substring_char(a + 1, n).to_owned();
                    r
                },
                Some(b) => {
                    proof {
                        lemma_find_at_some(s@, seq!['"'], a as int + 1, b as int);
                    }
                    let r = s.substring_char(a + 1, b).to_owned();
                    r
                },
            }
        },
    }
}

} // verus!
