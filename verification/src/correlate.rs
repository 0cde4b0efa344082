//! The output correlator: splits captured compiler output on the correlation
//! token and walks the ledger in insertion order, extracting one module path
//! per entry of the crate under introspection.

use vstd::prelude::*;
use crate::ledger::LedgerEntry;
use crate::text::{find_at, find_from, first_quoted, extract_first_quoted, lemma_find_at_first,
    occurs_at, split_at, split_on_token, str_eq, views_of};

verus! {

/// The module-path separator.
pub open spec fn path_sep() -> Seq<char> {
    seq![':', ':']
}

/// Why correlation failed. Either failure means the second compilation pass
/// itself went wrong; the caller reports it with the command line it ran and
/// the diagnostics it captured.
#[derive(PartialEq, Eq, Structural, Clone, Copy, Debug)]
pub enum CorrelationError {
    /// The output held no segment for the ledger entry at this index.
    MissingSegment { entry_index: usize },
    /// The quoted literal found for the ledger entry at this index held no
    /// `::`, so no root module could be stripped from it.
    MalformedLiteral { entry_index: usize },
}

impl CorrelationError {
    /// A diagnostic message naming the command line that was run and the
    /// diagnostics it printed, since the real cause is almost always there.
    pub fn message(&self, command_line: &str, diagnostics: &str) -> (m: String)
        ensures
            m@ == "Failed to find internal correlation marker; the second compilation pass probably failed. Called as `"@
                + command_line@ + "`. Diagnostics:\n"@ + diagnostics@,
    {
        let mut m =
            "Failed to find internal correlation marker; the second compilation pass probably failed. Called as `".to_owned();
        m.append(command_line);
        m.append("`. Diagnostics:\n");
        m.append(diagnostics);
        m
    }
}

/// The literal with everything up to and including its first `::` removed,
/// or `None` when it holds no `::` at all.
pub open spec fn stripped_root(lit: Seq<char>) -> Option<Seq<char>> {
    match find_at(lit, path_sep(), 0) {
        None => None,
        Some(p) => Some(lit.subrange(p + 2, lit.len() as int)),
    }
}

/// Strips the root module segment from a raw module-path literal.
pub fn strip_root(lit: &str) -> (r: Option<String>)
    ensures
        match r {
            Some(s) => stripped_root(lit@) == Some(s@),
            None => stripped_root(lit@) is None,
        },
{
    proof {
        reveal_strlit("::");
        assert("::"@ =~= path_sep());
    }
    let n = lit.unicode_len();
    match find_from(lit, "::", 0) {
        None => None,
        Some(p) => Some(lit.substring_char(p + 2, n).to_owned()),
    }
}

/// Root-stripping law: a raw module-path literal made of a root segment —
/// an identifier, so free of colons — followed by `::` and the rest of the
/// path strips to exactly that rest.
pub proof fn lemma_strip_root_of(root: Seq<char>, rest: Seq<char>)
    requires
        forall|k: int| 0 <= k < root.len() ==> root[k] != ':',
    ensures
        stripped_root(root + path_sep() + rest) == Some(rest),
{
    let text = root + path_sep() + rest;
    assert(occurs_at(text, path_sep(), root.len() as int)) by {
        assert(text.subrange(root.len() as int, root.len() as int + 2) =~= path_sep());
    }
    assert forall|k: int| 0 <= k < root.len() implies !occurs_at(text, path_sep(), k) by {
        if occurs_at(text, path_sep(), k) {
            assert(text.subrange(k, k + 2)[0] == text[k]);
            assert(text[k] == root[k]);
        }
    }
    lemma_find_at_first(text, path_sep(), 0, root.len() as int);
    assert(text.subrange(root.len() as int + 2, text.len() as int) =~= rest);
}

/// The module path produced for the ledger entry at index `j`: the first
/// quoted piece of segment `j + 1`, its root stripped, then `::` and the
/// entry's function name. Empty where stripping is impossible; `correlate_at`
/// reports that case as an error instead.
pub open spec fn entry_path(entries: Seq<LedgerEntry>, segs: Seq<Seq<char>>, j: int) -> Seq<char> {
    match stripped_root(first_quoted(segs[j + 1])) {
        Some(s) => s + path_sep() + entries[j].function_name@,
        None => Seq::empty(),
    }
}

/// The paths extracted for the entries from index `i` on, walking the ledger
/// in insertion order. Every entry advances the segment index; only entries
/// whose owner crate is `owner` contribute a path. A missing segment or a
/// literal without `::` is an error naming the entry it arose at.
pub open spec fn correlate_at(
    entries: Seq<LedgerEntry>,
    segs: Seq<Seq<char>>,
    owner: Seq<char>,
    i: int,
) -> Result<Seq<Seq<char>>, CorrelationError>
    decreases entries.len() - i,
{
    if i < 0 || i >= entries.len() {
        Ok(Seq::empty())
    } else {
        let rest = correlate_at(entries, segs, owner, i + 1);
        if entries[i].owner_crate@ == owner {
            if i + 1 >= segs.len() {
                Err(CorrelationError::MissingSegment { entry_index: i as usize })
            } else if stripped_root(first_quoted(segs[i + 1])) is None {
                Err(CorrelationError::MalformedLiteral { entry_index: i as usize })
            } else {
                match rest {
                    Ok(tail) => Ok(seq![entry_path(entries, segs, i)] + tail),
                    Err(e) => Err(e),
                }
            }
        } else {
            rest
        }
    }
}

/// How many ledger entries from index `i` on belong to `owner`.
pub open spec fn match_count(entries: Seq<LedgerEntry>, owner: Seq<char>, i: int) -> nat
    decreases entries.len() - i,
{
    if i < 0 || i >= entries.len() {
        0
    } else {
        (if entries[i].owner_crate@ == owner {
            1nat
        } else {
            0nat
        }) + match_count(entries, owner, i + 1)
    }
}

/// The ledger index of the `k`-th entry, counting from zero, at or after `i`
/// that belongs to `owner`; the ledger length when there is none.
pub open spec fn nth_match(entries: Seq<LedgerEntry>, owner: Seq<char>, k: int, i: int) -> int
    decreases entries.len() - i,
{
    if i < 0 || i >= entries.len() {
        entries.len() as int
    } else if entries[i].owner_crate@ == owner {
        if k == 0 {
            i
        } else {
            nth_match(entries, owner, k - 1, i + 1)
        }
    } else {
        nth_match(entries, owner, k, i + 1)
    }
}

/// The `k`-th extracted path comes from the `k`-th ledger entry belonging to
/// `owner`, through the segment indexed by that entry's global position.
pub open spec fn path_ok(
    entries: Seq<LedgerEntry>,
    segs: Seq<Seq<char>>,
    owner: Seq<char>,
    i: int,
    paths: Seq<Seq<char>>,
    k: int,
) -> bool {
    let j = nth_match(entries, owner, k, i);
    &&& i <= j < entries.len()
    &&& entries[j].owner_crate@ == owner
    &&& j + 1 < segs.len()
    &&& stripped_root(first_quoted(segs[j + 1])) is Some
    &&& paths[k] == entry_path(entries, segs, j)
}

/// Ordering and isolation of correlation: a successful correlation yields
/// exactly one path per ledger entry belonging to the crate under
/// introspection, in ledger insertion order, and the `k`-th path is built
/// from the segment indexed by that entry's global ledger position — so
/// entries of other crates contribute no path of their own, yet each still
/// advances the segment index by one.
pub proof fn lemma_correlate_ordering(
    entries: Seq<LedgerEntry>,
    segs: Seq<Seq<char>>,
    owner: Seq<char>,
    i: int,
    paths: Seq<Seq<char>>,
)
    requires
        0 <= i,
        correlate_at(entries, segs, owner, i) == Ok::<Seq<Seq<char>>, CorrelationError>(paths),
    ensures
        paths.len() == match_count(entries, owner, i),
        forall|k: int| 0 <= k < paths.len() ==> #[trigger] path_ok(entries, segs, owner, i, paths, k),
    decreases entries.len() - i,
{
    if i >= entries.len() {
    } else if entries[i].owner_crate@ == owner {
        let rest = correlate_at(entries, segs, owner, i + 1);
        let tail = rest->Ok_0;
        lemma_correlate_ordering(entries, segs, owner, i + 1, tail);
        assert(paths == seq![entry_path(entries, segs, i)] + tail);
        assert forall|k: int| 0 <= k < paths.len() implies #[trigger] path_ok(
            entries,
            segs,
            owner,
            i,
            paths,
            k,
        ) by {
            if k == 0 {
                assert(paths[0] == entry_path(entries, segs, i));
                assert(nth_match(entries, owner, 0, i) == i);
            } else {
                assert(path_ok(entries, segs, owner, i + 1, tail, k - 1));
                assert(paths[k] == tail[k - 1]);
                assert(nth_match(entries, owner, k, i) == nth_match(entries, owner, k - 1, i + 1));
            }
        }
    } else {
        lemma_correlate_ordering(entries, segs, owner, i + 1, paths);
        assert forall|k: int| 0 <= k < paths.len() implies #[trigger] path_ok(
            entries,
            segs,
            owner,
            i,
            paths,
            k,
        ) by {
            assert(path_ok(entries, segs, owner, i + 1, paths, k));
            assert(nth_match(entries, owner, k, i) == nth_match(entries, owner, k, i + 1));
        }
    }
}

/// Splits `raw_text` on `token` and extracts, for each ledger entry whose
/// owner crate is `owner_crate`, the module path the second pass declared for
/// it, in ledger insertion order.
pub fn correlate(
    entries: &Vec<LedgerEntry>,
    raw_text: &str,
    token: &str,
    owner_crate: &str,
) -> (r: Result<Vec<String>, CorrelationError>)
    requires
        token@.len() >= 1,
    ensures
        ({
            let spec_r = correlate_at(entries@, split_at(raw_text@, token@, 0), owner_crate@, 0);
            match r {
                Ok(paths) => spec_r == Ok::<Seq<Seq<char>>, CorrelationError>(views_of(paths@)),
                Err(e) => spec_r == Err::<Seq<Seq<char>>, CorrelationError>(e),
            }
        }),
{
    let segs = split_on_token(raw_text, token);
    let ghost segsv = split_at(raw_text@, token@, 0);
    let n = entries.len();
    let n_segs = segs.len();
    let mut out: Vec<String> = Vec::new();
    let mut i: usize = 0;
    while i < n
        invariant
            n == entries@.len(),
            n_segs == segs@.len(),
            views_of(segs@) == segsv,
            segsv == split_at(raw_text@, token@, 0),
            0 <= i <= n,
            correlate_at(entries@, segsv, owner_crate@, i as int) is Ok ==> correlate_at(
                entries@,
                segsv,
                owner_crate@,
                0,
            ) == Ok::<Seq<Seq<char>>, CorrelationError>(
                views_of(out@) + correlate_at(entries@, segsv, owner_crate@, i as int)->Ok_0,
            ),
            correlate_at(entries@, segsv, owner_crate@, i as int) is Err ==> correlate_at(
                entries@,
                segsv,
                owner_crate@,
                0,
            ) == correlate_at(entries@, segsv, owner_crate@, i as int),
        decreases n - i,
    {
        let ghost prev_out = out@;
        if str_eq(entries[i].owner_crate.as_str(), owner_crate) {
            proof {
                assert(segsv.len() == segs@.len());
            }
            if i + 1 >= n_segs {
                proof {
                    assert(correlate_at(entries@, segsv, owner_crate@, i as int) == Err::<
                        Seq<Seq<char>>,
                        CorrelationError,
                    >(CorrelationError::MissingSegment { entry_index: i }));
                }
                return Err(CorrelationError::MissingSegment { entry_index: i });
            }
            proof {
                assert(segsv[i + 1] == segs@[i + 1]@);
            }
            let lit = extract_first_quoted(segs[i + 1].as_str());
            match strip_root(lit.as_str()) {
                None => {
                    proof {
                        assert(correlate_at(entries@, segsv, owner_crate@, i as int) == Err::<
                            Seq<Seq<char>>,
                            CorrelationError,
                        >(CorrelationError::MalformedLiteral { entry_index: i }));
                    }
                    return Err(CorrelationError::MalformedLiteral { entry_index: i });
                },
                Some(stripped) => {
                    proof {
                        reveal_strlit("::");
                        assert("::"@ =~= path_sep());
                    }
                    let mut path = stripped;
                    path.append("::");
                    path.append(entries[i].function_name.as_str());
                    proof {
                        assert(path@ == entry_path(entries@, segsv, i as int));
                    }
                    out.push(path);
                    proof {
                        assert(views_of(out@) =~= views_of(prev_out).push(
                            entry_path(entries@, segsv, i as int),
                        ));
                        if correlate_at(entries@, segsv, owner_crate@, i + 1 as int) is Ok {
                            let tail = correlate_at(
                                entries@,
                                segsv,
                                owner_crate@,
                                i + 1 as int,
                            )->Ok_0;
                            assert(views_of(prev_out) + (seq![
                                entry_path(entries@, segsv, i as int),
                            ] + tail) =~= views_of(out@) + tail);
                        }
                    }
                },
            }
        }
        i += 1;
    }
    assert(correlate_at(entries@, segsv, owner_crate@, n as int) == Ok::<
        Seq<Seq<char>>,
        CorrelationError,
    >(Seq::<Seq<char>>::empty()));
    assert(views_of(out@) + Seq::<Seq<char>>::empty() =~= views_of(out@));
    Ok(out)
}

} // verus!
