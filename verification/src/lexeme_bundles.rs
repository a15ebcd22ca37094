//! Grouping the stored dictionary lines into lexemes: every line that is
//! not a form reference joins the lexeme of its headword and normalized
//! headword, and the lexemes come out ordered by that pair.

use vstd::prelude::*;
use crate::facts::{lemma_text_lt_irreflexive, lemma_text_lt_total, lemma_text_lt_transitive, strictly_sorted};
use crate::json::JsonValue;
use crate::query_suggestions::{text_less, text_lt};
use crate::text::{chars_of, extend_str, keep, owned, same, views};

verus! {

/// A stored dictionary line as the lexeme index reads it.
#[derive(Debug)]
pub struct ImportedRawEntry {
    pub id: i64,
    pub headword: String,
    pub normalized_headword: String,
    pub pos: String,
    pub is_form_of: bool,
    pub raw_data: JsonValue,
}

/// The lines of one lexeme, under the surface and normalized surface of
/// its first line.
#[derive(Debug)]
pub struct LexemeBundle {
    pub surface: String,
    pub normalized_surface: String,
    pub raw_entries: Vec<ImportedRawEntry>,
}

/// The key a lexeme is grouped and ordered by.
pub open spec fn lexeme_key(surface: Seq<char>, normalized: Seq<char>) -> Seq<char> {
    surface + "::"@ + normalized
}

pub open spec fn entry_key(e: ImportedRawEntry) -> Seq<char> {
    lexeme_key(e.headword@, e.normalized_headword@)
}

pub open spec fn bundle_key(b: LexemeBundle) -> Seq<char> {
    lexeme_key(b.surface@, b.normalized_surface@)
}

/// The lines that are not form references and have the key, in order.
pub open spec fn lines_with_key(es: Seq<ImportedRawEntry>, k: Seq<char>) -> Seq<ImportedRawEntry> {
    keep(es, |e: ImportedRawEntry| !e.is_form_of && entry_key(e) == k)
}

/// A bundle holds exactly the lines of its key, under the names of the
/// first of them.
pub open spec fn bundle_matches(b: LexemeBundle, es: Seq<ImportedRawEntry>) -> bool {
    let g = lines_with_key(es, bundle_key(b));
    &&& g.len() > 0
    &&& b.raw_entries@ == g
    &&& b.surface@ == g[0].headword@
    &&& b.normalized_surface@ == g[0].normalized_headword@
}

/// The bundles of the lines: one per key of a line that is not a form
/// reference, in increasing key order, each holding the lines of its key.
pub open spec fn lexeme_bundles_of(r: Seq<LexemeBundle>, es: Seq<ImportedRawEntry>) -> bool {
    &&& forall|i: int, j: int| 0 <= i < j < r.len() ==> text_lt(bundle_key(r[i]), bundle_key(r[j]))
    &&& forall|k: Seq<char>|
        (exists|i: int| 0 <= i < r.len() && bundle_key(#[trigger] r[i]) == k) <==> lines_with_key(es, k).len() > 0
    &&& forall|i: int| 0 <= i < r.len() ==> bundle_matches(#[trigger] r[i], es)
}

proof fn lemma_lines_step(es: Seq<ImportedRawEntry>, d: int, k: Seq<char>)
    requires
        0 <= d < es.len(),
    ensures
        lines_with_key(es.take(d + 1), k) == (if !es[d].is_form_of && entry_key(es[d]) == k {
            lines_with_key(es.take(d), k).push(es[d])
        } else {
            lines_with_key(es.take(d), k)
        }),
{
    assert(es.take(d + 1).drop_last() =~= es.take(d));
    assert(es.take(d + 1).last() == es[d]);
}

fn key_of(surface: &str, normalized: &str) -> (r: Vec<char>)
    ensures
        r@ == lexeme_key(surface@, normalized@),
{
    let mut k = chars_of(surface);
    extend_str(&mut k, "::");
    extend_str(&mut k, normalized);
    k
}

/// Groups the lines into lexemes (see `lexeme_bundles_of`).
pub fn build_lexeme_bundles(raw_entries: Vec<ImportedRawEntry>) -> (r: Vec<LexemeBundle>)
    ensures
        lexeme_bundles_of(r@, raw_entries@),
{
    let ghost es = raw_entries@;
    let total = raw_entries.len();
    let mut rest = raw_entries;
    let mut bundles: Vec<LexemeBundle> = Vec::new();
    let mut keys: Vec<Vec<char>> = Vec::new();
    let mut d: usize = 0;
    assert(es.skip(0) =~= es);
    while rest.len() > 0
        invariant
            d + rest@.len() == es.len(),
            total == es.len(),
            rest@ == es.skip(d as int),
            keys@.len() == bundles@.len(),
            forall|i: int| 0 <= i < keys@.len() ==> (#[trigger] keys@[i])@ == bundle_key(bundles@[i]),
            strictly_sorted(views(keys@)),
            forall|k: Seq<char>| views(keys@).contains(k) <==> lines_with_key(es.take(d as int), k).len() > 0,
            forall|i: int| 0 <= i < bundles@.len() ==> bundle_matches(#[trigger] bundles@[i], es.take(d as int)),
        decreases rest@.len(),
    {
        let e = rest.remove(0);
        assert(es[d as int] == e);
        assert(rest@ =~= es.skip(d + 1));
        let ghost kv_old = views(keys@);
        let ghost bs_old = bundles@;
        assert(forall|i: int| 0 <= i < keys@.len() ==> (#[trigger] keys@[i])@ == bundle_key(bs_old[i]));
        let ghost pre = es.take(d as int);
        let ghost post = es.take(d + 1);
        assert forall|k: Seq<char>| #[trigger] lines_with_key(post, k) == (if !e.is_form_of && entry_key(e) == k {
            lines_with_key(pre, k).push(e)
        } else {
            lines_with_key(pre, k)
        }) by {
            lemma_lines_step(es, d as int, k);
        }
        if !e.is_form_of {
            let k = key_of(e.headword.as_str(), e.normalized_headword.as_str());
            let mut p: usize = 0;
            while p < keys.len() && text_less(&keys[p], &k)
                invariant
                    0 <= p <= keys@.len(),
                    kv_old == views(keys@),
                    forall|j: int| 0 <= j < p ==> text_lt(#[trigger] kv_old[j], k@),
                decreases keys@.len() - p,
            {
                p = p + 1;
            }
            if p < keys.len() && same(&keys[p], &k) {
                let mut b = bundles.remove(p);
                b.raw_entries.push(e);
                bundles.insert(p, b);
                proof {
                    let kk = k@;
                    assert(kv_old[p as int] == kk);
                    assert forall|i: int| 0 <= i < keys@.len() && i != p implies (#[trigger] keys@[i])@ != kk by {
                        if i < p {
                            assert(text_lt(kv_old[i], kv_old[p as int]));
                        } else {
                            assert(text_lt(kv_old[p as int], kv_old[i]));
                        }
                        lemma_text_lt_irreflexive(kk);
                    }
                    assert forall|i: int| 0 <= i < keys@.len() implies (#[trigger] keys@[i])@ == bundle_key(bundles@[i]) by {
                        if i != p {
                            assert(bundles@[i] == bs_old[i]);
                        }
                    }
                    assert forall|i: int| 0 <= i < bundles@.len() implies bundle_matches(#[trigger] bundles@[i], post) by {
                        if i != p {
                            assert(bundles@[i] == bs_old[i]);
                            assert(bundle_matches(bs_old[i], pre));
                            assert(keys@[i]@ != kk);
                            assert(keys@[i]@ == bundle_key(bs_old[i]));
                            assert(lines_with_key(post, bundle_key(bs_old[i])) == lines_with_key(pre, bundle_key(bs_old[i])));
                        } else {
                            assert(bundle_matches(bs_old[i], pre));
                            assert(lines_with_key(post, kk) == lines_with_key(pre, kk).push(e));
                        }
                    }
                    assert forall|k2: Seq<char>| views(keys@).contains(k2) <==> lines_with_key(post, k2).len() > 0 by {
                        if k2 != kk {
                            assert(lines_with_key(post, k2) == lines_with_key(pre, k2));
                        } else {
                            assert(views(keys@)[p as int] == kk);
                        }
                    }
                }
            } else {
                let surface = owned(e.headword.as_str());
                let normalized = owned(e.normalized_headword.as_str());
                let ghost ev = e;
                let mut entries: Vec<ImportedRawEntry> = Vec::new();
                entries.push(e);
                let b = LexemeBundle { surface, normalized_surface: normalized, raw_entries: entries };
                let ghost kk = k@;
                proof {
                    if p < kv_old.len() {
                        lemma_text_lt_total(kv_old[p as int], kk);
                        assert(text_lt(kk, kv_old[p as int]));
                        assert forall|j: int| p <= j < kv_old.len() implies text_lt(kk, #[trigger] kv_old[j]) by {
                            if j > p {
                                lemma_text_lt_transitive(kk, kv_old[p as int], kv_old[j]);
                            }
                        }
                    }
                    assert forall|j: int| 0 <= j < kv_old.len() implies #[trigger] kv_old[j] != kk by {
                        if j < p {
                            assert(text_lt(kv_old[j], kk));
                        } else {
                            assert(text_lt(kk, kv_old[j]));
                        }
                        lemma_text_lt_irreflexive(kk);
                    }
                    assert(!kv_old.contains(kk));
                    assert(lines_with_key(pre, kk).len() == 0);
                    assert(lines_with_key(pre, kk) =~= Seq::<ImportedRawEntry>::empty());
                    assert(lines_with_key(post, kk) =~= seq![ev]);
                }
                bundles.insert(p, b);
                keys.insert(p, k);
                proof {
                    let kv = views(keys@);
                    assert(kv =~= kv_old.take(p as int).push(kk) + kv_old.skip(p as int));
                    assert forall|i: int| 0 <= i < keys@.len() implies (#[trigger] keys@[i])@ == bundle_key(bundles@[i]) by {
                        if i < p {
                            assert(bundles@[i] == bs_old[i]);
                        } else if i > p {
                            assert(bundles@[i] == bs_old[i - 1]);
                        }
                    }
                    assert forall|i: int, j: int| 0 <= i < j < kv.len() implies text_lt(kv[i], kv[j]) by {
                        if j < p {
                            assert(kv[i] == kv_old[i]);
                            assert(kv[j] == kv_old[j]);
                        } else if i < p && j == p {
                        } else if i < p && j > p {
                            assert(kv[j] == kv_old[j - 1]);
                        } else if i == p {
                            assert(kv[j] == kv_old[j - 1]);
                        } else {
                            assert(kv[i] == kv_old[i - 1]);
                            assert(kv[j] == kv_old[j - 1]);
                        }
                    }
                    assert forall|i: int| 0 <= i < bundles@.len() implies bundle_matches(#[trigger] bundles@[i], post) by {
                        if i == p {
                        } else {
                            let oi = if i < p { i } else { i - 1 };
                            assert(bundles@[i] == bs_old[oi]);
                            assert(bundle_matches(bs_old[oi], pre));
                            assert(bundle_key(bs_old[oi]) == kv_old[oi]);
                            assert(kv_old[oi] != kk);
                            assert(lines_with_key(post, kv_old[oi]) == lines_with_key(pre, kv_old[oi]));
                        }
                    }
                    assert forall|k2: Seq<char>| kv.contains(k2) <==> lines_with_key(post, k2).len() > 0 by {
                        if k2 != kk {
                            assert(lines_with_key(post, k2) == lines_with_key(pre, k2));
                            if kv.contains(k2) {
                                let m = choose|m: int| 0 <= m < kv.len() && kv[m] == k2;
                                if m < p {
                                    assert(kv_old[m] == k2);
                                } else {
                                    assert(m != p);
                                    assert(kv_old[m - 1] == k2);
                                }
                            }
                            if kv_old.contains(k2) {
                                let m = choose|m: int| 0 <= m < kv_old.len() && kv_old[m] == k2;
                                if m < p {
                                    assert(kv[m] == k2);
                                } else {
                                    assert(kv[m + 1] == k2);
                                }
                            }
                        } else {
                            assert(kv[p as int] == kk);
                        }
                    }
                }
            }
        } else {
            proof {
                assert forall|i: int| 0 <= i < bundles@.len() implies bundle_matches(#[trigger] bundles@[i], post) by {
                    assert(lines_with_key(post, bundle_key(bundles@[i])) == lines_with_key(pre, bundle_key(bundles@[i])));
                }
                assert forall|k2: Seq<char>| views(keys@).contains(k2) <==> lines_with_key(post, k2).len() > 0 by {
                    assert(lines_with_key(post, k2) == lines_with_key(pre, k2));
                }
            }
        }
        d = d + 1;
    }
    assert(es.take(d as int) =~= es);
    proof {
        let kv = views(keys@);
        assert forall|k: Seq<char>|
            (exists|i: int| 0 <= i < bundles@.len() && bundle_key(#[trigger] bundles@[i]) == k) <==> lines_with_key(es, k).len() > 0 by {
            if exists|i: int| 0 <= i < bundles@.len() && bundle_key(#[trigger] bundles@[i]) == k {
                let i = choose|i: int| 0 <= i < bundles@.len() && bundle_key(#[trigger] bundles@[i]) == k;
                assert(kv[i] == k);
            }
            if lines_with_key(es, k).len() > 0 {
                assert(kv.contains(k));
                let m = choose|m: int| 0 <= m < kv.len() && kv[m] == k;
                assert(keys@[m]@ == bundle_key(bundles@[m]));
            }
        }
        assert forall|i: int, j: int| 0 <= i < j < bundles@.len() implies text_lt(bundle_key(bundles@[i]), bundle_key(bundles@[j])) by {
            assert(keys@[i]@ == bundle_key(bundles@[i]));
            assert(keys@[j]@ == bundle_key(bundles@[j]));
            assert(kv[i] == keys@[i]@);
            assert(kv[j] == keys@[j]@);
        }
    }
    bundles
}

} // verus!
