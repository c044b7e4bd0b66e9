//! The source-fragment patcher: swaps known multi-line code blocks for the
//! variant matching the chosen database.
//!
//! Two files of the cloned template are targeted. In the bootstrap file the
//! patch looks for either database's known initialization block and replaces
//! whichever is present with the block for the chosen database. In the
//! wiring file it locates a span running from a known type declaration
//! through the end of its paired constructor and swaps the whole span. A
//! miss is not an error: the content is returned untouched and the caller
//! reports a warning.

use vstd::prelude::*;

use crate::bytes::{append_all, append_range, contains_pat, contains_seq, copy_bytes, is_match_at,
    match_at};
use crate::config::Database;
use crate::rewrite::{replace_spec, rewrite_bytes};

verus! {

/// Position `i` is the start of a line of `s`.
pub open spec fn at_line_start(s: Seq<u8>, i: int) -> bool {
    i == 0 || s[i - 1] == 10
}

/// The first position at or after `from` where a line starts with `pat`;
/// `s.len()` if there is none.
pub open spec fn find_anchored_spec(s: Seq<u8>, pat: Seq<u8>, from: int) -> int
    decreases s.len() - from,
{
    if !(0 <= from < s.len()) {
        s.len() as int
    } else if at_line_start(s, from) && is_match_at(s, pat, from) {
        from
    } else {
        find_anchored_spec(s, pat, from + 1)
    }
}

/// What `find_anchored_spec` returns: the first line-anchored occurrence,
/// within bounds, with none before it.
pub proof fn lemma_find_anchored_props(s: Seq<u8>, pat: Seq<u8>, from: int)
    requires
        0 <= from <= s.len(),
    ensures
        from <= find_anchored_spec(s, pat, from) <= s.len(),
        find_anchored_spec(s, pat, from) < s.len() ==> at_line_start(
            s,
            find_anchored_spec(s, pat, from),
        ) && is_match_at(s, pat, find_anchored_spec(s, pat, from)),
        forall|i: int|
            from <= i < find_anchored_spec(s, pat, from) ==> !(at_line_start(s, i)
                && #[trigger] is_match_at(s, pat, i)),
    decreases s.len() - from,
{
    if 0 <= from < s.len() && !(at_line_start(s, from) && is_match_at(s, pat, from)) {
        lemma_find_anchored_props(s, pat, from + 1);
    }
}

/// The wiring span: from the first line-anchored `hdr` through the first
/// line-anchored `closer` that follows the first line-anchored `ctor` after
/// the header. `None` when any of the three landmarks is missing.
pub open spec fn wiring_span_spec(s: Seq<u8>, hdr: Seq<u8>, ctor: Seq<u8>, closer: Seq<u8>) -> Option<
    (int, int),
> {
    let h = find_anchored_spec(s, hdr, 0);
    if h == s.len() {
        None
    } else {
        let f = find_anchored_spec(s, ctor, h + 1);
        if f == s.len() {
            None
        } else {
            let e = find_anchored_spec(s, closer, f + 1);
            if e == s.len() {
                None
            } else {
                Some((h, e + closer.len() as int))
            }
        }
    }
}

/// First line-anchored occurrence of `pat` at or after `from`.
fn find_anchored(s: &Vec<u8>, pat: &Vec<u8>, from: usize) -> (r: usize)
    requires
        from <= s.len(),
    ensures
        r == find_anchored_spec(s@, pat@, from as int),
{
    let mut i: usize = from;
    while i < s.len()
        invariant
            from <= i <= s.len(),
            find_anchored_spec(s@, pat@, from as int) == find_anchored_spec(s@, pat@, i as int),
        decreases s.len() - i,
    {
        let anchored = i == 0 || s[i - 1] == 10;
        if anchored {
            if match_at(s, pat, i) {
                return i;
            }
        }
        i += 1;
    }
    s.len()
}

/// Patches the bootstrap file: if either database's known block occurs in
/// `content`, every occurrence of both blocks is replaced by the block for
/// `db`; otherwise the content is returned untouched, flagged as a miss.
pub fn patch_bootstrap(
    content: &Vec<u8>,
    mongo_block: &Vec<u8>,
    postgres_block: &Vec<u8>,
    db: Database,
) -> (r: (Vec<u8>, bool))
    requires
        mongo_block.len() > 0,
        postgres_block.len() > 0,
    ensures
        r.1 == (contains_seq(content@, mongo_block@) || contains_seq(content@, postgres_block@)),
        r.1 ==> r.0@ == replace_spec(
            replace_spec(content@, mongo_block@, chosen_block(mongo_block@, postgres_block@, db)),
            postgres_block@,
            chosen_block(mongo_block@, postgres_block@, db),
        ),
        !r.1 ==> r.0@ == content@,
{
    let has_mongo = contains_pat(content, mongo_block);
    let has_postgres = contains_pat(content, postgres_block);
    if !has_mongo && !has_postgres {
        return (copy_bytes(content), false);
    }
    let chosen = match db {
        Database::MongoDb => mongo_block,
        Database::PostgreSql => postgres_block,
    };
    let (step1, _) = rewrite_bytes(content, mongo_block, chosen);
    let (step2, _) = rewrite_bytes(&step1, postgres_block, chosen);
    (step2, true)
}

/// The block the chosen database calls for.
pub open spec fn chosen_block(mongo_block: Seq<u8>, postgres_block: Seq<u8>, db: Database) -> Seq<
    u8,
> {
    match db {
        Database::MongoDb => mongo_block,
        Database::PostgreSql => postgres_block,
    }
}

/// Replacing a pattern by itself, in content that is exactly that pattern,
/// reproduces the pattern.
proof fn lemma_replace_self(block: Seq<u8>, rep: Seq<u8>)
    requires
        block.len() > 0,
    ensures
        replace_spec(block, block, rep) == rep,
{
    assert(block.subrange(0, block.len() as int) =~= block);
    assert(is_match_at(block, block, 0));
    assert(block.skip(block.len() as int) =~= Seq::<u8>::empty());
    assert(replace_spec(Seq::<u8>::empty(), block, rep) == Seq::<u8>::empty());
    assert(rep + Seq::<u8>::empty() =~= rep);
}

/// A bootstrap file holding exactly one database's block, patched for the
/// other database, becomes exactly the requested block, with no occurrence
/// of the replaced block left.
pub proof fn lemma_bootstrap_swap(mongo_block: Seq<u8>, postgres_block: Seq<u8>)
    requires
        mongo_block.len() > 0,
        postgres_block.len() > 0,
        !contains_seq(postgres_block, mongo_block),
    ensures
        replace_spec(
            replace_spec(mongo_block, mongo_block, postgres_block),
            postgres_block,
            postgres_block,
        ) == postgres_block,
        !contains_seq(
            replace_spec(
                replace_spec(mongo_block, mongo_block, postgres_block),
                postgres_block,
                postgres_block,
            ),
            mongo_block,
        ),
{
    lemma_replace_self(mongo_block, postgres_block);
    lemma_replace_self(postgres_block, postgres_block);
}

/// Patches the wiring file: replaces the span from the known declaration
/// through the paired constructor's closing line with `replacement`. A file
/// without the full landmark sequence is returned untouched. The templates
/// declare the wiring once, so only the first such span is patched.
pub fn patch_wiring(
    content: &Vec<u8>,
    hdr: &Vec<u8>,
    ctor: &Vec<u8>,
    closer: &Vec<u8>,
    replacement: &Vec<u8>,
) -> (r: (Vec<u8>, bool))
    requires
        hdr.len() > 0,
        ctor.len() > 0,
        closer.len() > 0,
    ensures
        match wiring_span_spec(content@, hdr@, ctor@, closer@) {
            Some(span) => r.1 && r.0@ == content@.subrange(0, span.0) + replacement@
                + content@.skip(span.1),
            None => !r.1 && r.0@ == content@,
        },
{
    proof {
        lemma_find_anchored_props(content@, hdr@, 0);
    }
    let h = find_anchored(content, hdr, 0);
    if h == content.len() {
        return (copy_bytes(content), false);
    }
    proof {
        lemma_find_anchored_props(content@, ctor@, h + 1);
    }
    let f = find_anchored(content, ctor, h + 1);
    if f == content.len() {
        return (copy_bytes(content), false);
    }
    proof {
        lemma_find_anchored_props(content@, closer@, f + 1);
    }
    let e = find_anchored(content, closer, f + 1);
    if e == content.len() {
        return (copy_bytes(content), false);
    }
    let end = e + closer.len();
    let mut out: Vec<u8> = Vec::new();
    append_range(&mut out, content, 0, h);
    append_all(&mut out, replacement);
    append_range(&mut out, content, end, content.len());
    proof {
        assert(content@.subrange(end as int, content@.len() as int) =~= content@.skip(end as int));
        assert((Seq::<u8>::empty() + content@.subrange(0, h as int) + replacement@) + content@.skip(
            end as int,
        ) =~= content@.subrange(0, h as int) + replacement@ + content@.skip(end as int));
    }
    (out, true)
}

} // verus!
