//! The content rewriter: literal byte-for-byte substring replacement.
//!
//! A rewrite rule is a pair of byte literals `(pat, rep)`. Applying it to a
//! file's contents performs a single left-to-right, non-overlapping, greedy
//! scan replacing every occurrence of `pat` with `rep`. The scan is not a
//! parser and not encoding-aware: binary files are scanned like text.

use vstd::prelude::*;

use crate::bytes::{append_all, contains_seq, is_match_at, match_at};

verus! {

/// The result of the greedy left-to-right scan: every non-overlapping
/// occurrence of `pat` replaced by `rep`. An empty `pat` never matches.
pub open spec fn replace_spec(s: Seq<u8>, pat: Seq<u8>, rep: Seq<u8>) -> Seq<u8>
    decreases s.len(),
{
    if s.len() == 0 || pat.len() == 0 {
        s
    } else if is_match_at(s, pat, 0) {
        rep + replace_spec(s.skip(pat.len() as int), pat, rep)
    } else {
        seq![s[0]] + replace_spec(s.skip(1), pat, rep)
    }
}

/// How many replacements the greedy scan makes.
pub open spec fn match_count(s: Seq<u8>, pat: Seq<u8>) -> nat
    decreases s.len(),
{
    if s.len() == 0 || pat.len() == 0 {
        0
    } else if is_match_at(s, pat, 0) {
        1 + match_count(s.skip(pat.len() as int), pat)
    } else {
        match_count(s.skip(1), pat)
    }
}

/// A match of `pat` within a suffix of `s` is a match within `s`, shifted.
pub proof fn lemma_match_at_skip(s: Seq<u8>, pat: Seq<u8>, d: int, i: int)
    requires
        0 <= d <= s.len(),
        0 <= i,
    ensures
        is_match_at(s.skip(d), pat, i) == is_match_at(s, pat, d + i),
{
    if i + pat.len() <= s.len() - d {
        assert(s.skip(d).subrange(i, i + pat.len() as int) =~= s.subrange(d + i, d + i
            + pat.len() as int));
    }
}

/// Content without the pattern is left unchanged, and nothing is counted.
pub proof fn lemma_no_match_unchanged(s: Seq<u8>, pat: Seq<u8>, rep: Seq<u8>)
    requires
        pat.len() > 0,
        !contains_seq(s, pat),
    ensures
        replace_spec(s, pat, rep) == s,
        match_count(s, pat) == 0,
    decreases s.len(),
{
    if s.len() > 0 {
        assert(!is_match_at(s, pat, 0));
        assert forall|i: int| !is_match_at(s.skip(1), pat, i) by {
            if 0 <= i {
                lemma_match_at_skip(s, pat, 1, i);
            }
        }
        lemma_no_match_unchanged(s.skip(1), pat, rep);
        assert(seq![s[0]] + s.skip(1) =~= s);
    }
}

/// Zero matches counted means the scan reproduced the input.
pub proof fn lemma_count_zero_unchanged(s: Seq<u8>, pat: Seq<u8>, rep: Seq<u8>)
    requires
        pat.len() > 0,
        match_count(s, pat) == 0,
    ensures
        replace_spec(s, pat, rep) == s,
    decreases s.len(),
{
    if s.len() > 0 {
        assert(!is_match_at(s, pat, 0));
        lemma_count_zero_unchanged(s.skip(1), pat, rep);
        assert(seq![s[0]] + s.skip(1) =~= s);
    }
}

/// A rewrite rule `(pat, rep)` that cannot recreate its own pattern when
/// applied. The conditions forbid every way an occurrence of `pat` could
/// survive or arise across the pieces the scan emits:
/// the replacement does not contain the pattern; no nonempty suffix of the
/// replacement is a proper prefix of the pattern; no proper nonempty suffix
/// of the pattern is a prefix of the replacement; and the pattern does not
/// contain the replacement with nonempty text on both sides. Rules whose two
/// literals share no leading or trailing text, as with distinct module
/// names or distinct code blocks, satisfy all of them.
pub open spec fn rule_independent(pat: Seq<u8>, rep: Seq<u8>) -> bool {
    &&& pat.len() > 0
    &&& !contains_seq(rep, pat)
    &&& (forall|j: int|
        #![trigger rep.skip(j)]
        0 <= j < rep.len() ==> !(rep.len() - j < pat.len() && rep.skip(j) == pat.take(
            rep.len() - j,
        )))
    &&& (forall|k: int|
        #![trigger pat.skip(k)]
        1 <= k < pat.len() ==> !(pat.len() - k <= rep.len() && pat.skip(k) == rep.take(
            pat.len() - k,
        )))
    &&& (forall|x: int, y: int|
        #![trigger pat.subrange(x, y)]
        1 <= x && y == x + rep.len() && y < pat.len() ==> pat.subrange(x, y) != rep)
}

/// If neither part contains the pattern and no occurrence straddles the
/// seam, the concatenation contains no occurrence either.
proof fn lemma_concat_no_occurrence(a: Seq<u8>, b: Seq<u8>, pat: Seq<u8>)
    requires
        pat.len() > 0,
        !contains_seq(a, pat),
        !contains_seq(b, pat),
        forall|m: int|
            #![trigger pat.take(m)]
            1 <= m < pat.len() ==> !(m <= a.len() && a.skip(a.len() - m) == pat.take(m) && pat.len()
                - m <= b.len() && b.take(pat.len() - m) == pat.skip(m)),
    ensures
        !contains_seq(a + b, pat),
{
    if contains_seq(a + b, pat) {
        let i = choose|i: int| is_match_at(a + b, pat, i);
        if i + pat.len() <= a.len() {
            assert(a.subrange(i, i + pat.len() as int) =~= pat);
            assert(is_match_at(a, pat, i));
        } else if i >= a.len() {
            assert(b.subrange(i - a.len(), i - a.len() + pat.len() as int) =~= pat);
            assert(is_match_at(b, pat, i - a.len()));
        } else {
            let m = a.len() - i;
            assert(a.skip(a.len() - m) =~= pat.take(m));
            assert(b.take(pat.len() - m) =~= pat.skip(m));
        }
        assert(false);
    }
}

/// No position of `u` strictly before `lim` begins a match of `pat`.
spec fn no_match_before(u: Seq<u8>, pat: Seq<u8>, lim: int) -> bool {
    forall|q: int| 0 <= q < lim ==> !is_match_at(u, pat, q)
}

/// Main induction for the rewriter: scanning the rest of the input `s`
/// after having emitted `out` keeps the output free of the pattern. `lit`
/// bytes at the end of `out` were emitted literally, straight from the
/// input, and none of those positions began a match.
proof fn lemma_replace_no_pattern_helper(
    s: Seq<u8>,
    pat: Seq<u8>,
    rep: Seq<u8>,
    out: Seq<u8>,
    lit: int,
)
    requires
        rule_independent(pat, rep),
        0 <= lit <= out.len(),
        !contains_seq(out, pat),
        forall|m: int|
            #![trigger pat.take(m)]
            1 <= m < pat.len() && m <= out.len() && out.skip(out.len() - m) == pat.take(m) ==> m
                <= lit,
        no_match_before(out.skip(out.len() - lit) + s, pat, lit),
    ensures
        !contains_seq(out + replace_spec(s, pat, rep), pat),
    decreases s.len(),
{
    let litseq = out.skip(out.len() - lit);
    if s.len() == 0 {
        assert(out + replace_spec(s, pat, rep) =~= out);
    } else if is_match_at(s, pat, 0) {
        let s2 = s.skip(pat.len() as int);
        let out2 = out + rep;
        assert forall|m: int|
            #![trigger pat.take(m)]
            1 <= m < pat.len() implies !(m <= out.len() && out.skip(out.len() - m) == pat.take(m)
            && pat.len() - m <= rep.len() && rep.take(pat.len() - m) == pat.skip(m)) by {
            if m <= out.len() && out.skip(out.len() - m) == pat.take(m) && pat.len() - m
                <= rep.len() && rep.take(pat.len() - m) == pat.skip(m) {
                assert(pat.skip(m) == rep.take(pat.len() - m));
                assert(false);
            }
        }
        lemma_concat_no_occurrence(out, rep, pat);
        assert forall|m: int|
            #![trigger pat.take(m)]
            1 <= m < pat.len() && m <= out2.len() && out2.skip(out2.len() - m) == pat.take(
            m,
        ) implies m <= 0 by {
            if m <= rep.len() {
                assert forall|t: int| 0 <= t < m implies rep.skip(rep.len() - m)[t] == #[trigger] pat.take(
                    m,
                )[t] by {
                    assert(out2.skip(out2.len() - m)[t] == out2[out2.len() - m + t]);
                    assert(out2[out2.len() - m + t] == rep[rep.len() - m + t]);
                    assert(rep.skip(rep.len() - m)[t] == rep[rep.len() - m + t]);
                }
                assert(rep.skip(rep.len() - m) =~= pat.take(m));
                assert(false);
            } else {
                let x = m - rep.len();
                assert forall|t: int| 0 <= t < rep.len() implies pat.subrange(x, m)[t]
                    == #[trigger] rep[t] by {
                    assert(out2.skip(out2.len() - m)[x + t] == out2[out2.len() - m + x + t]);
                    assert(pat.take(m)[x + t] == pat[x + t]);
                    assert(out2[out2.len() - m + x + t] == rep[t]);
                    assert(pat.subrange(x, m)[t] == pat[x + t]);
                }
                assert(pat.subrange(x, m) =~= rep);
                assert(false);
            }
        }
        lemma_replace_no_pattern_helper(s2, pat, rep, out2, 0);
        assert(replace_spec(s, pat, rep) == rep + replace_spec(s2, pat, rep));
        assert(out + (rep + replace_spec(s2, pat, rep)) =~= out2 + replace_spec(s2, pat, rep));
    } else {
        let c = s[0];
        let s2 = s.skip(1);
        let out2 = out + seq![c];
        assert forall|i: int| !is_match_at(seq![c], pat, i) by {
            if is_match_at(seq![c], pat, i) {
                assert(pat.len() == 1);
                assert(i == 0);
                assert(seq![c].subrange(0, 1) =~= seq![c]);
                assert(s.subrange(0, 1) =~= seq![c]);
                assert(is_match_at(s, pat, 0));
            }
        }
        assert forall|m: int|
            #![trigger pat.take(m)]
            1 <= m < pat.len() implies !(m <= out.len() && out.skip(out.len() - m) == pat.take(m)
            && pat.len() - m <= seq![c].len() && seq![c].take(pat.len() - m) == pat.skip(m)) by {
            if m <= out.len() && out.skip(out.len() - m) == pat.take(m) && pat.len() - m
                <= seq![c].len() && seq![c].take(pat.len() - m) == pat.skip(m) {
                assert(pat.len() == m + 1);
                assert(seq![c].take(1) =~= seq![c]);
                assert(pat.skip(m)[0] == pat[m]);
                assert(c == pat[m]);
                assert(m <= lit);
                let q = lit - m;
                assert forall|t: int| 0 <= t < pat.len() implies (litseq + s).subrange(
                    q,
                    q + pat.len() as int,
                )[t] == #[trigger] pat[t] by {
                    assert((litseq + s).subrange(q, q + pat.len() as int)[t] == (litseq + s)[q
                        + t]);
                    if t < m {
                        assert(litseq[q + t] == out[out.len() - lit + q + t]);
                        assert((litseq + s)[q + t] == litseq[q + t]);
                        assert(out.skip(out.len() - m)[t] == out[out.len() - m + t]);
                        assert(pat.take(m)[t] == pat[t]);
                    } else {
                        assert((litseq + s)[q + t] == s[t - m]);
                    }
                }
                assert((litseq + s).subrange(q, q + pat.len() as int) =~= pat);
                assert(is_match_at(litseq + s, pat, q));
                assert(false);
            }
        }
        lemma_concat_no_occurrence(out, seq![c], pat);
        assert forall|m: int|
            #![trigger pat.take(m)]
            1 <= m < pat.len() && m <= out2.len() && out2.skip(out2.len() - m) == pat.take(
            m,
        ) implies m <= lit + 1 by {
            if m >= 2 {
                assert forall|t: int| 0 <= t < m - 1 implies out.skip(out.len() - (m - 1))[t]
                    == #[trigger] pat[t] by {
                    assert(out.skip(out.len() - (m - 1))[t] == out[out.len() - (m - 1) + t]);
                    assert(out2.skip(out2.len() - m)[t] == out2[out2.len() - m + t]);
                    assert(out2[out2.len() - m + t] == out[out.len() - (m - 1) + t]);
                    assert(pat.take(m)[t] == pat[t]);
                }
                assert(out.skip(out.len() - (m - 1)) =~= pat.take(m - 1));
                assert(m - 1 <= lit);
            }
        }
        let litseq2 = out2.skip(out2.len() - (lit + 1));
        assert(litseq2 =~= litseq + seq![c]);
        assert(litseq2 + s2 =~= litseq + s);
        assert forall|q: int| 0 <= q < lit + 1 implies !is_match_at(litseq2 + s2, pat, q) by {
            if q == lit {
                if is_match_at(litseq2 + s2, pat, q) {
                    assert(is_match_at(litseq + s, pat, lit));
                    lemma_match_at_skip(litseq + s, pat, lit, 0);
                    assert((litseq + s).skip(lit) =~= s);
                    assert(is_match_at(s, pat, 0));
                }
            }
        }
        lemma_replace_no_pattern_helper(s2, pat, rep, out2, lit + 1);
        assert(replace_spec(s, pat, rep) == seq![c] + replace_spec(s2, pat, rep));
        assert(out + (seq![c] + replace_spec(s2, pat, rep)) =~= out2 + replace_spec(s2, pat, rep));
    }
}

/// After applying an independent rewrite rule, the result holds no
/// occurrence of the pattern at all.
pub proof fn lemma_replace_removes_pattern(s: Seq<u8>, pat: Seq<u8>, rep: Seq<u8>)
    requires
        rule_independent(pat, rep),
    ensures
        !contains_seq(replace_spec(s, pat, rep), pat),
{
    let empty = Seq::<u8>::empty();
    assert forall|i: int| !is_match_at(empty, pat, i) by {}
    lemma_replace_no_pattern_helper(s, pat, rep, empty, 0);
    assert(empty + replace_spec(s, pat, rep) =~= replace_spec(s, pat, rep));
}

/// Applying an independent rewrite rule twice is the same as applying it
/// once: the second pass finds nothing to replace.
pub proof fn lemma_rewrite_idempotent(s: Seq<u8>, pat: Seq<u8>, rep: Seq<u8>)
    requires
        rule_independent(pat, rep),
    ensures
        replace_spec(replace_spec(s, pat, rep), pat, rep) == replace_spec(s, pat, rep),
        match_count(replace_spec(s, pat, rep), pat) == 0,
{
    lemma_replace_removes_pattern(s, pat, rep);
    lemma_no_match_unchanged(replace_spec(s, pat, rep), pat, rep);
}

/// How many positions of `s` begin an occurrence of `pat`.
pub open spec fn occ_count(s: Seq<u8>, pat: Seq<u8>) -> nat
    decreases s.len(),
{
    if pat.len() == 0 || s.len() == 0 {
        0
    } else {
        (if is_match_at(s, pat, 0) {
            1nat
        } else {
            0
        }) + occ_count(s.skip(1), pat)
    }
}

/// A replacement that cannot overlap itself: no proper nonempty suffix of
/// it is also a prefix of it.
pub open spec fn no_self_overlap(rep: Seq<u8>) -> bool {
    forall|m: int|
        #![trigger rep.skip(m)]
        1 <= m < rep.len() ==> rep.skip(m) != rep.take(rep.len() - m)
}

/// Text shorter than the pattern holds no occurrence.
proof fn lemma_occ_count_short(s: Seq<u8>, pat: Seq<u8>)
    requires
        s.len() < pat.len(),
    ensures
        occ_count(s, pat) == 0,
    decreases s.len(),
{
    if s.len() > 0 {
        lemma_occ_count_short(s.skip(1), pat);
    }
}

/// A pattern no suffix of which occurs at a lost position contains itself
/// exactly once.
proof fn lemma_occ_count_self(rep: Seq<u8>)
    requires
        rep.len() > 0,
    ensures
        occ_count(rep, rep) == 1,
{
    assert(rep.subrange(0, rep.len() as int) =~= rep);
    assert(is_match_at(rep, rep, 0));
    lemma_occ_count_short(rep.skip(1), rep);
}

/// A pattern occurring in a suffix occurs in the whole.
proof fn lemma_contains_skip(s: Seq<u8>, pat: Seq<u8>, k: int)
    requires
        0 <= k <= s.len(),
        !contains_seq(s, pat),
    ensures
        !contains_seq(s.skip(k), pat),
{
    assert forall|i: int| !is_match_at(s.skip(k), pat, i) by {
        if 0 <= i {
            lemma_match_at_skip(s, pat, k, i);
        }
    }
}

/// When no occurrence straddles the seam, occurrences of the two parts
/// add up.
proof fn lemma_occ_count_concat(a: Seq<u8>, b: Seq<u8>, pat: Seq<u8>)
    requires
        pat.len() > 0,
        forall|m: int|
            #![trigger pat.take(m)]
            1 <= m < pat.len() ==> !(m <= a.len() && a.skip(a.len() - m) == pat.take(m) && pat.len()
                - m <= b.len() && b.take(pat.len() - m) == pat.skip(m)),
    ensures
        occ_count(a + b, pat) == occ_count(a, pat) + occ_count(b, pat),
    decreases a.len(),
{
    if a.len() == 0 {
        assert(a + b =~= b);
    } else {
        assert forall|m: int|
            #![trigger pat.take(m)]
            1 <= m < pat.len() implies !(m <= a.skip(1).len() && a.skip(1).skip(a.skip(1).len()
            - m) == pat.take(m) && pat.len() - m <= b.len() && b.take(pat.len() - m) == pat.skip(
            m,
        )) by {
            if m <= a.skip(1).len() && a.skip(1).skip(a.skip(1).len() - m) == pat.take(m) {
                assert(a.skip(a.len() - m) =~= a.skip(1).skip(a.skip(1).len() - m));
            }
        }
        lemma_occ_count_concat(a.skip(1), b, pat);
        assert((a + b).skip(1) =~= a.skip(1) + b);
        if pat.len() <= a.len() {
            assert(is_match_at(a + b, pat, 0) == is_match_at(a, pat, 0)) by {
                if is_match_at(a + b, pat, 0) {
                    assert(a.subrange(0, pat.len() as int) =~= (a + b).subrange(
                        0,
                        pat.len() as int,
                    ));
                }
                if is_match_at(a, pat, 0) {
                    assert((a + b).subrange(0, pat.len() as int) =~= a.subrange(
                        0,
                        pat.len() as int,
                    ));
                }
            }
        } else {
            if is_match_at(a + b, pat, 0) {
                let m = a.len() as int;
                assert(a.skip(a.len() - m) =~= pat.take(m)) by {
                    assert forall|t: int| 0 <= t < m implies a[t] == #[trigger] pat[t] by {
                        assert((a + b).subrange(0, pat.len() as int)[t] == (a + b)[t]);
                    }
                }
                assert(b.take(pat.len() - m) =~= pat.skip(m)) by {
                    assert forall|t: int| 0 <= t < pat.len() - m implies b[t] == #[trigger] pat[m
                        + t] by {
                        assert((a + b).subrange(0, pat.len() as int)[m + t] == (a + b)[m + t]);
                    }
                }
                assert(false);
            }
            assert(!is_match_at(a, pat, 0));
            lemma_occ_count_short(a, pat);
        }
    }
}

/// If a proper suffix of the replacement is a prefix of the rewriter's
/// output for `t`, then — when the replacement neither overlaps itself nor
/// occurs in `t` — that suffix stands there literally: it is a prefix of
/// `t` itself.
proof fn lemma_tail_prefix_realized(t: Seq<u8>, pat: Seq<u8>, rep: Seq<u8>, m: int)
    requires
        pat.len() > 0,
        rep.len() > 0,
        no_self_overlap(rep),
        1 <= m < rep.len(),
        rep.len() - m <= replace_spec(t, pat, rep).len(),
        replace_spec(t, pat, rep).take(rep.len() - m) == rep.skip(m),
    ensures
        rep.len() - m <= t.len(),
        t.take(rep.len() - m) == rep.skip(m),
    decreases t.len(),
{
    let r = replace_spec(t, pat, rep);
    if t.len() == 0 {
        assert(false);
    } else if is_match_at(t, pat, 0) {
        let tail = replace_spec(t.skip(pat.len() as int), pat, rep);
        assert(r == rep + tail);
        assert(rep.skip(m) =~= rep.take(rep.len() - m)) by {
            assert forall|u: int| 0 <= u < rep.len() - m implies rep.skip(m)[u]
                == #[trigger] rep[u] by {
                assert(r.take(rep.len() - m)[u] == r[u]);
                assert(r[u] == rep[u]);
                assert(rep.skip(m)[u] == r.take(rep.len() - m)[u]);
            }
        }
        assert(false);
    } else {
        assert(r == seq![t[0]] + replace_spec(t.skip(1), pat, rep));
        assert(r[0] == t[0]);
        assert(rep.skip(m)[0] == rep[m]);
        assert(r.take(rep.len() - m)[0] == r[0]);
        assert(t[0] == rep[m]);
        if m + 1 == rep.len() {
            assert(t.take(rep.len() - m) =~= rep.skip(m));
        } else {
            let r2 = replace_spec(t.skip(1), pat, rep);
            assert(r.len() == 1 + r2.len());
            assert forall|u: int| 0 <= u < rep.len() - m - 1 implies #[trigger] r2[u] == rep.skip(
                m + 1,
            )[u] by {
                assert(r.take(rep.len() - m)[u + 1] == rep.skip(m)[u + 1]);
                assert(r.take(rep.len() - m)[u + 1] == r[u + 1]);
                assert(r[u + 1] == (seq![t[0]] + r2)[u + 1]);
                assert((seq![t[0]] + r2)[u + 1] == r2[u]);
                assert(rep.skip(m)[u + 1] == rep[m + u + 1]);
                assert(rep.skip(m + 1)[u] == rep[m + 1 + u]);
            }
            assert(r2.take(rep.len() - (m + 1)) =~= rep.skip(m + 1));
            lemma_tail_prefix_realized(t.skip(1), pat, rep, m + 1);
            assert forall|u: int| 0 <= u < rep.len() - m implies #[trigger] t.take(
                rep.len() - m,
            )[u] == rep.skip(m)[u] by {
                assert(t.take(rep.len() - m)[u] == t[u]);
                assert(rep.skip(m)[u] == rep[m + u]);
                if u > 0 {
                    assert(t.skip(1).take(rep.len() - (m + 1))[u - 1] == rep.skip(m + 1)[u - 1]);
                    assert(t.skip(1).take(rep.len() - (m + 1))[u - 1] == t.skip(1)[u - 1]);
                    assert(t.skip(1)[u - 1] == t[u]);
                    assert(rep.skip(m + 1)[u - 1] == rep[m + u]);
                }
            }
            assert(t.take(rep.len() - m) =~= rep.skip(m));
        }
    }
}

/// After rewriting content that held no occurrence of the replacement,
/// the result holds exactly one occurrence of the replacement per
/// replacement made: the expected count, with pre-existing occurrences
/// excluded by hypothesis.
pub proof fn lemma_replace_exact_rep_count(s: Seq<u8>, pat: Seq<u8>, rep: Seq<u8>)
    requires
        pat.len() > 0,
        rep.len() > 0,
        no_self_overlap(rep),
        !contains_seq(s, rep),
    ensures
        occ_count(replace_spec(s, pat, rep), rep) == match_count(s, pat),
    decreases s.len(),
{
    if s.len() == 0 {
    } else if is_match_at(s, pat, 0) {
        let s2 = s.skip(pat.len() as int);
        let r2 = replace_spec(s2, pat, rep);
        lemma_contains_skip(s, rep, pat.len() as int);
        lemma_replace_exact_rep_count(s2, pat, rep);
        assert forall|m: int|
            #![trigger rep.take(m)]
            1 <= m < rep.len() implies !(m <= rep.len() && rep.skip(rep.len() - m) == rep.take(m)
            && rep.len() - m <= r2.len() && r2.take(rep.len() - m) == rep.skip(m)) by {
            if rep.skip(rep.len() - m) == rep.take(m) {
                assert(rep.skip(rep.len() - m) != rep.take(rep.len() - (rep.len() - m)));
            }
        }
        lemma_occ_count_concat(rep, r2, rep);
        lemma_occ_count_self(rep);
        assert(replace_spec(s, pat, rep) == rep + r2);
    } else {
        let s2 = s.skip(1);
        let r2 = replace_spec(s2, pat, rep);
        lemma_contains_skip(s, rep, 1);
        lemma_replace_exact_rep_count(s2, pat, rep);
        let c = s[0];
        assert forall|m: int|
            #![trigger rep.take(m)]
            1 <= m < rep.len() implies !(m <= seq![c].len() && seq![c].skip(seq![c].len() - m)
            == rep.take(m) && rep.len() - m <= r2.len() && r2.take(rep.len() - m) == rep.skip(
            m,
        )) by {
            if m <= 1 && seq![c].skip(1 - m) == rep.take(m) && rep.len() - m <= r2.len()
                && r2.take(rep.len() - m) == rep.skip(m) {
                assert(seq![c].skip(0)[0] == c);
                assert(rep.take(1)[0] == rep[0]);
                assert(c == rep[0]);
                lemma_tail_prefix_realized(s2, pat, rep, 1);
                assert(s.subrange(0, rep.len() as int) =~= rep) by {
                    assert forall|u: int| 0 <= u < rep.len() implies s[u] == #[trigger] rep[u] by {
                        if u > 0 {
                            assert(s2.take(rep.len() - 1)[u - 1] == s[u]);
                            assert(rep.skip(1)[u - 1] == rep[u]);
                        }
                    }
                }
                assert(is_match_at(s, rep, 0));
                assert(false);
            }
        }
        lemma_occ_count_concat(seq![c], r2, rep);
        if rep.len() == 1 {
            if is_match_at(seq![c], rep, 0) {
                assert(seq![c].subrange(0, 1)[0] == c);
                assert(c == rep[0]);
                assert(s.subrange(0, 1) =~= rep);
                assert(is_match_at(s, rep, 0));
                assert(false);
            }
            assert(seq![c].skip(1) =~= Seq::<u8>::empty());
            assert(occ_count(seq![c].skip(1), rep) == 0);
            assert(occ_count(seq![c], rep) == 0);
        } else {
            lemma_occ_count_short(seq![c], rep);
        }
        assert(replace_spec(s, pat, rep) == seq![c] + r2);
    }
}

/// Counting occurrences and containing an occurrence agree.
pub proof fn lemma_occ_count_zero(s: Seq<u8>, pat: Seq<u8>)
    requires
        pat.len() > 0,
    ensures
        (occ_count(s, pat) == 0) == !contains_seq(s, pat),
    decreases s.len(),
{
    if s.len() == 0 {
        assert forall|i: int| !is_match_at(s, pat, i) by {}
    } else {
        lemma_occ_count_zero(s.skip(1), pat);
        if contains_seq(s, pat) {
            let i = choose|i: int| is_match_at(s, pat, i);
            if i >= 1 {
                lemma_match_at_skip(s, pat, 1, i - 1);
                assert(is_match_at(s.skip(1), pat, i - 1));
            }
        }
        if is_match_at(s, pat, 0) {
        } else if contains_seq(s.skip(1), pat) {
            let j = choose|j: int| is_match_at(s.skip(1), pat, j);
            lemma_match_at_skip(s, pat, 1, j);
            assert(is_match_at(s, pat, 1 + j));
        }
    }
}

/// What rewriting one file's content does, in full: no occurrence of the
/// old literal survives, and the new literal occurs exactly once per
/// replacement made. Pre-existing occurrences of the new literal are
/// excluded by hypothesis; with them the count gains exactly their number,
/// which the edge case keeps outside this statement.
pub proof fn lemma_rewrite_effect(s: Seq<u8>, pat: Seq<u8>, rep: Seq<u8>)
    requires
        rule_independent(pat, rep),
        rep.len() > 0,
        no_self_overlap(rep),
        !contains_seq(s, rep),
    ensures
        !contains_seq(replace_spec(s, pat, rep), pat),
        occ_count(replace_spec(s, pat, rep), pat) == 0,
        occ_count(replace_spec(s, pat, rep), rep) == match_count(s, pat),
{
    lemma_replace_removes_pattern(s, pat, rep);
    lemma_occ_count_zero(replace_spec(s, pat, rep), pat);
    lemma_replace_exact_rep_count(s, pat, rep);
}

/// Applies the rewrite rule `(pat, rep)` to `content`: a single greedy
/// left-to-right scan replacing every non-overlapping occurrence. Returns
/// the rewritten content and whether any replacement occurred. The pattern
/// must be nonempty: an empty pattern would match before every byte and
/// the scan could never advance past it.
pub fn rewrite_bytes(content: &Vec<u8>, pat: &Vec<u8>, rep: &Vec<u8>) -> (r: (Vec<u8>, bool))
    requires
        pat.len() > 0,
    ensures
        r.0@ == replace_spec(content@, pat@, rep@),
        r.1 == (match_count(content@, pat@) > 0),
        !r.1 ==> r.0@ == content@,
{
    let mut out: Vec<u8> = Vec::new();
    let mut changed = false;
    let ghost mut cnt: nat = 0nat;
    let mut i: usize = 0;
    proof {
        assert(content@.skip(0) =~= content@);
        assert(out@ + replace_spec(content@, pat@, rep@) =~= replace_spec(content@, pat@, rep@));
    }
    while i < content.len()
        invariant
            pat.len() > 0,
            i <= content.len(),
            replace_spec(content@, pat@, rep@) == out@ + replace_spec(
                content@.skip(i as int),
                pat@,
                rep@,
            ),
            match_count(content@, pat@) == cnt + match_count(content@.skip(i as int), pat@),
            changed == (cnt > 0),
        decreases content.len() - i,
    {
        let ghost tail = content@.skip(i as int);
        let ghost out0 = out@;
        if match_at(content, pat, i) {
            proof {
                lemma_match_at_skip(content@, pat@, i as int, 0);
                assert(is_match_at(tail, pat@, 0));
                assert(replace_spec(tail, pat@, rep@) == rep@ + replace_spec(
                    tail.skip(pat@.len() as int),
                    pat@,
                    rep@,
                ));
                assert(match_count(tail, pat@) == 1 + match_count(
                    tail.skip(pat@.len() as int),
                    pat@,
                ));
                assert(tail.skip(pat@.len() as int) =~= content@.skip(i + pat@.len()));
            }
            append_all(&mut out, rep);
            proof {
                assert(out0 + (rep@ + replace_spec(content@.skip(i + pat@.len()), pat@, rep@))
                    =~= (out0 + rep@) + replace_spec(content@.skip(i + pat@.len()), pat@, rep@));
            }
            i += pat.len();
            changed = true;
            proof {
                cnt = cnt + 1;
            }
        } else {
            proof {
                lemma_match_at_skip(content@, pat@, i as int, 0);
                assert(!is_match_at(tail, pat@, 0));
                assert(tail.len() > 0);
                assert(replace_spec(tail, pat@, rep@) == seq![tail[0]] + replace_spec(
                    tail.skip(1),
                    pat@,
                    rep@,
                ));
                assert(tail[0] == content@[i as int]);
                assert(tail.skip(1) =~= content@.skip(i + 1));
            }
            out.push(content[i]);
            proof {
                assert(out@ =~= out0 + seq![content@[i as int]]);
                assert(out0 + (seq![content@[i as int]] + replace_spec(
                    content@.skip(i + 1),
                    pat@,
                    rep@,
                )) =~= out@ + replace_spec(content@.skip(i + 1), pat@, rep@));
            }
            i += 1;
        }
    }
    proof {
        assert(content@.skip(content@.len() as int) =~= Seq::<u8>::empty());
        assert(out@ + replace_spec(content@.skip(content@.len() as int), pat@, rep@) =~= out@);
        if !changed {
            lemma_count_zero_unchanged(content@, pat@, rep@);
        }
    }
    (out, changed)
}

} // verus!
