//! The manifest patcher: a surgical single-field edit of the project
//! manifest.
//!
//! The manifest is modelled as its sequence of lines. The patch locates the
//! top-level `[package]` table header, then the `name` key within that
//! table, and replaces that one line with a line declaring the new name.
//! Every other line is kept byte for byte, so re-serializing and re-parsing
//! a patched document gives back exactly the patched structure.

use vstd::prelude::*;

use crate::bytes::{append_all, bytes_eq};

verus! {

/// The line holds no line separator.
pub open spec fn no_newline(l: Seq<u8>) -> bool {
    forall|j: int| 0 <= j < l.len() ==> l[j] != 10
}

/// The manifest text split at every line separator; the separator itself
/// belongs to no line. Splitting keeps a final empty segment, so joining
/// the lines back with the separator restores the text exactly.
pub open spec fn split_lines_spec(s: Seq<u8>) -> Seq<Seq<u8>>
    decreases s.len(),
{
    if s.len() == 0 {
        seq![Seq::<u8>::empty()]
    } else if s[0] == 10 {
        seq![Seq::<u8>::empty()] + split_lines_spec(s.skip(1))
    } else {
        let rest = split_lines_spec(s.skip(1));
        seq![seq![s[0]] + rest[0]] + rest.skip(1)
    }
}

/// The lines joined back with the line separator.
pub open spec fn join_lines_spec(ls: Seq<Seq<u8>>) -> Seq<u8>
    decreases ls.len(),
{
    if ls.len() == 0 {
        Seq::<u8>::empty()
    } else if ls.len() == 1 {
        ls[0]
    } else {
        ls[0] + seq![10u8] + join_lines_spec(ls.skip(1))
    }
}

/// Splitting yields at least one line.
pub proof fn lemma_split_nonempty(s: Seq<u8>)
    ensures
        split_lines_spec(s).len() >= 1,
    decreases s.len(),
{
    if s.len() > 0 {
        lemma_split_nonempty(s.skip(1));
    }
}

/// No line produced by splitting holds a line separator.
pub proof fn lemma_split_no_newline(s: Seq<u8>)
    ensures
        forall|i: int|
            0 <= i < split_lines_spec(s).len() ==> no_newline(#[trigger] split_lines_spec(s)[i]),
    decreases s.len(),
{
    if s.len() == 0 {
        assert(no_newline(Seq::<u8>::empty()));
        assert(split_lines_spec(s)[0] == Seq::<u8>::empty());
    } else if s[0] == 10 {
        lemma_split_no_newline(s.skip(1));
        let rest = split_lines_spec(s.skip(1));
        assert forall|i: int|
            0 <= i < split_lines_spec(s).len() implies no_newline(
            #[trigger] split_lines_spec(s)[i],
        ) by {
            if i == 0 {
                assert(split_lines_spec(s)[0] == Seq::<u8>::empty());
                assert(no_newline(Seq::<u8>::empty()));
            } else {
                assert(split_lines_spec(s)[i] == rest[i - 1]);
                assert(no_newline(rest[i - 1]));
            }
        }
    } else {
        lemma_split_no_newline(s.skip(1));
        let rest = split_lines_spec(s.skip(1));
        lemma_split_nonempty(s.skip(1));
        assert forall|i: int|
            0 <= i < split_lines_spec(s).len() implies no_newline(
            #[trigger] split_lines_spec(s)[i],
        ) by {
            if i == 0 {
                assert(no_newline(rest[0]));
                assert forall|j: int|
                    0 <= j < (seq![s[0]] + rest[0]).len() implies (seq![s[0]] + rest[0])[j]
                    != 10 by {
                    if j > 0 {
                        assert(rest[0][j - 1] != 10);
                    }
                }
            } else {
                assert(split_lines_spec(s)[i] == rest.skip(1)[i - 1]);
                assert(rest.skip(1)[i - 1] == rest[i]);
                assert(no_newline(rest[i]));
            }
        }
    }
}

/// Joining what splitting produced restores the text it was split from.
pub proof fn lemma_join_split(s: Seq<u8>)
    ensures
        join_lines_spec(split_lines_spec(s)) == s,
    decreases s.len(),
{
    if s.len() == 0 {
        assert(s =~= Seq::<u8>::empty());
    } else if s[0] == 10 {
        lemma_join_split(s.skip(1));
        lemma_split_nonempty(s.skip(1));
        let rest = split_lines_spec(s.skip(1));
        assert(split_lines_spec(s).skip(1) =~= rest);
        assert(Seq::<u8>::empty() + seq![10u8] + s.skip(1) =~= s);
    } else {
        lemma_join_split(s.skip(1));
        lemma_split_nonempty(s.skip(1));
        let rest = split_lines_spec(s.skip(1));
        let first = seq![s[0]] + rest[0];
        if rest.len() == 1 {
            assert(split_lines_spec(s) =~= seq![first]);
            assert(join_lines_spec(rest) == rest[0]);
            assert(seq![s[0]] + s.skip(1) =~= s);
        } else {
            assert(split_lines_spec(s).len() >= 2);
            assert(split_lines_spec(s)[0] == first);
            assert(split_lines_spec(s).skip(1) =~= rest.skip(1));
            assert(join_lines_spec(rest) == rest[0] + seq![10u8] + join_lines_spec(rest.skip(1)));
            assert(first + seq![10u8] + join_lines_spec(rest.skip(1)) =~= seq![s[0]] + (rest[0]
                + seq![10u8] + join_lines_spec(rest.skip(1))));
            assert(seq![s[0]] + s.skip(1) =~= s);
        }
    }
}

/// A separator-free text splits into that single line.
proof fn lemma_split_single(a: Seq<u8>)
    requires
        no_newline(a),
    ensures
        split_lines_spec(a) == seq![a],
    decreases a.len(),
{
    if a.len() == 0 {
        assert(a =~= Seq::<u8>::empty());
    } else {
        assert forall|j: int| 0 <= j < a.skip(1).len() implies a.skip(1)[j] != 10 by {
            assert(a[j + 1] != 10);
        }
        lemma_split_single(a.skip(1));
        let rest = split_lines_spec(a.skip(1));
        assert(rest[0] == a.skip(1));
        assert(seq![a[0]] + a.skip(1) =~= a);
        assert(split_lines_spec(a) =~= seq![a]);
    }
}

/// Splitting a text of the shape `line, separator, rest` peels off the
/// line and splits the rest.
proof fn lemma_split_concat(a: Seq<u8>, b: Seq<u8>)
    requires
        no_newline(a),
    ensures
        split_lines_spec(a + seq![10u8] + b) == seq![a] + split_lines_spec(b),
    decreases a.len(),
{
    let s = a + seq![10u8] + b;
    if a.len() == 0 {
        assert(s[0] == 10);
        assert(s.skip(1) =~= b);
        assert(a =~= Seq::<u8>::empty());
        assert(split_lines_spec(s) =~= seq![a] + split_lines_spec(b));
    } else {
        assert(s[0] == a[0]);
        assert(a[0] != 10);
        assert forall|j: int| 0 <= j < a.skip(1).len() implies a.skip(1)[j] != 10 by {
            assert(a[j + 1] != 10);
        }
        assert(s.skip(1) =~= a.skip(1) + seq![10u8] + b);
        lemma_split_concat(a.skip(1), b);
        let rest = split_lines_spec(s.skip(1));
        lemma_split_nonempty(b);
        assert(rest == seq![a.skip(1)] + split_lines_spec(b));
        assert(rest[0] == a.skip(1));
        assert(rest.skip(1) =~= split_lines_spec(b));
        assert(seq![s[0]] + rest[0] =~= a);
        assert(split_lines_spec(s) =~= seq![a] + split_lines_spec(b));
    }
}

/// Splitting the join of separator-free lines gives the lines back.
pub proof fn lemma_split_join(ls: Seq<Seq<u8>>)
    requires
        ls.len() >= 1,
        forall|i: int| 0 <= i < ls.len() ==> no_newline(#[trigger] ls[i]),
    ensures
        split_lines_spec(join_lines_spec(ls)) == ls,
    decreases ls.len(),
{
    if ls.len() == 1 {
        lemma_split_single(ls[0]);
        assert(seq![ls[0]] =~= ls);
    } else {
        assert forall|i: int|
            0 <= i < ls.skip(1).len() implies no_newline(#[trigger] ls.skip(1)[i]) by {
            assert(ls.skip(1)[i] == ls[i + 1]);
        }
        lemma_split_join(ls.skip(1));
        lemma_split_concat(ls[0], join_lines_spec(ls.skip(1)));
        assert(seq![ls[0]] + ls.skip(1) =~= ls);
    }
}

/// The exact `[package]` table header line.
pub open spec fn package_header_spec() -> Seq<u8> {
    seq![91u8, 112u8, 97u8, 99u8, 107u8, 97u8, 103u8, 101u8, 93u8]
}

/// The `name` key.
pub open spec fn name_key_spec() -> Seq<u8> {
    seq![110u8, 97u8, 109u8, 101u8]
}

/// The line declaring the package name `n`, with the name quoted.
pub open spec fn name_line_spec(n: Seq<u8>) -> Seq<u8> {
    seq![110u8, 97u8, 109u8, 101u8, 32u8, 61u8, 32u8, 34u8] + n + seq![34u8]
}

/// From position `i` on, the line holds only spaces until an equals sign.
pub open spec fn spaces_then_eq(l: Seq<u8>, i: int) -> bool
    decreases l.len() - i,
{
    if !(0 <= i < l.len()) {
        false
    } else if l[i] == 32 {
        spaces_then_eq(l, i + 1)
    } else {
        l[i] == 61
    }
}

/// The line declares the `name` key: the key, optional spaces, equals.
pub open spec fn is_name_line(l: Seq<u8>) -> bool {
    l.len() > 4 && l.subrange(0, 4) == name_key_spec() && spaces_then_eq(l, 4)
}

/// The line opens a top-level table.
pub open spec fn is_header_line(l: Seq<u8>) -> bool {
    l.len() > 0 && l[0] == 91
}

/// Index of the first `[package]` header at or after `from`; the length if
/// there is none.
pub open spec fn find_package_from(ls: Seq<Seq<u8>>, from: int) -> int
    decreases ls.len() - from,
{
    if !(0 <= from < ls.len()) {
        ls.len() as int
    } else if ls[from] == package_header_spec() {
        from
    } else {
        find_package_from(ls, from + 1)
    }
}

/// Index of the first `name` line at or after `from`, stopping at the next
/// table header; the length if the key is missing from the table.
pub open spec fn find_name_from(ls: Seq<Seq<u8>>, from: int) -> int
    decreases ls.len() - from,
{
    if !(0 <= from < ls.len()) {
        ls.len() as int
    } else if is_name_line(ls[from]) {
        from
    } else if is_header_line(ls[from]) {
        ls.len() as int
    } else {
        find_name_from(ls, from + 1)
    }
}

/// Why the manifest could not be patched.
#[derive(Clone, Copy, Debug, PartialEq, Eq, Structural)]
pub enum ManifestError {
    /// No top-level `[package]` table header.
    MissingPackage,
    /// The `[package]` table has no `name` key.
    MissingName,
}

/// A manifest document: its lines, kept byte for byte.
pub struct ManifestDoc {
    pub lines: Vec<Vec<u8>>,
}

impl ManifestDoc {
    /// The lines as mathematical sequences.
    pub open spec fn view_lines(&self) -> Seq<Seq<u8>> {
        Seq::new(self.lines@.len(), |i: int| self.lines@[i]@)
    }

    /// Well-formed: at least one line, none holding a separator.
    pub open spec fn wf(&self) -> bool {
        &&& self.view_lines().len() >= 1
        &&& forall|i: int|
            0 <= i < self.view_lines().len() ==> no_newline(#[trigger] self.view_lines()[i])
    }

    /// Splits manifest text into its lines. Never fails: the structure the
    /// patcher relies on is looked up later, at edit time.
    pub fn parse(text: &Vec<u8>) -> (r: ManifestDoc)
        ensures
            r.view_lines() == split_lines_spec(text@),
            r.wf(),
    {
        let mut lines: Vec<Vec<u8>> = Vec::new();
        let mut cur: Vec<u8> = Vec::new();
        let mut i: usize = 0;
        proof {
            assert(text@.skip(0) =~= text@);
            assert(Seq::new(lines@.len(), |k: int| lines@[k]@) + cons_line(
                cur@,
                split_lines_spec(text@),
            ) =~~= cons_line(cur@, split_lines_spec(text@)));
        }
        while i < text.len()
            invariant
                i <= text.len(),
                split_lines_spec(text@) == Seq::new(lines@.len(), |k: int| lines@[k]@) + cons_line(
                    cur@,
                    split_lines_spec(text@.skip(i as int)),
                ),
            decreases text.len() - i,
        {
            let ghost tail = text@.skip(i as int);
            let ghost lv = Seq::new(lines@.len(), |k: int| lines@[k]@);
            let ghost cur0 = cur@;
            let ghost rest = split_lines_spec(text@.skip(i + 1));
            proof {
                lemma_split_nonempty(text@.skip(i + 1));
                assert(tail.skip(1) =~= text@.skip(i + 1));
                assert(tail[0] == text@[i as int]);
            }
            let c = text[i];
            if c == 10 {
                proof {
                    assert(split_lines_spec(tail) == seq![Seq::<u8>::empty()] + rest);
                    assert(cons_line(cur0, split_lines_spec(tail)) =~~= seq![cur0] + rest);
                }
                lines.push(cur);
                cur = Vec::new();
                proof {
                    assert(Seq::new(lines@.len(), |k: int| lines@[k]@) =~~= lv + seq![cur0]);
                    assert(cons_line(cur@, rest) =~~= rest);
                    assert((lv + seq![cur0]) + rest =~~= lv + (seq![cur0] + rest));
                }
            } else {
                proof {
                    assert(split_lines_spec(tail) == seq![seq![tail[0]] + rest[0]] + rest.skip(1));
                    assert(cons_line(cur0, split_lines_spec(tail)) =~~= seq![(cur0 + seq![c])
                        + rest[0]] + rest.skip(1));
                }
                cur.push(c);
                proof {
                    assert(cur@ =~= cur0 + seq![c]);
                    assert(cons_line(cur@, rest) =~~= seq![(cur0 + seq![c]) + rest[0]] + rest.skip(
                        1,
                    ));
                }
            }
            i += 1;
        }
        let ghost lv = Seq::new(lines@.len(), |k: int| lines@[k]@);
        let ghost cur0 = cur@;
        proof {
            assert(text@.skip(text@.len() as int) =~= Seq::<u8>::empty());
            assert(cons_line(cur0, split_lines_spec(Seq::<u8>::empty())) =~~= seq![cur0]);
        }
        lines.push(cur);
        let doc = ManifestDoc { lines };
        proof {
            assert(doc.view_lines() =~~= lv + seq![cur0]);
            assert(doc.view_lines() =~~= split_lines_spec(text@));
            lemma_split_no_newline(text@);
            assert forall|k: int|
                0 <= k < doc.view_lines().len() implies no_newline(
                #[trigger] doc.view_lines()[k],
            ) by {
                assert(doc.view_lines()[k] == split_lines_spec(text@)[k]);
            }
            lemma_split_nonempty(text@);
        }
        doc
    }

    /// Serializes the document back to manifest text.
    pub fn to_bytes(&self) -> (r: Vec<u8>)
        requires
            self.wf(),
        ensures
            r@ == join_lines_spec(self.view_lines()),
    {
        let mut out: Vec<u8> = Vec::new();
        let mut i: usize = 0;
        proof {
            assert(self.view_lines().skip(0) =~~= self.view_lines());
            assert(out@ + join_lines_spec(self.view_lines()) =~= join_lines_spec(
                self.view_lines(),
            ));
        }
        while i < self.lines.len()
            invariant
                self.wf(),
                i <= self.lines.len(),
                join_lines_spec(self.view_lines()) == out@ + join_lines_spec(
                    self.view_lines().skip(i as int),
                ),
            decreases self.lines.len() - i,
        {
            let ghost lv = self.view_lines();
            let ghost out0 = out@;
            append_all(&mut out, &self.lines[i]);
            proof {
                assert(lv.skip(i as int)[0] == lv[i as int]);
                assert(lv[i as int] == self.lines@[i as int]@);
            }
            if i + 1 < self.lines.len() {
                out.push(10);
                proof {
                    assert(lv.skip(i as int).len() >= 2);
                    assert(lv.skip(i as int).skip(1) =~~= lv.skip(i + 1));
                    assert(join_lines_spec(lv.skip(i as int)) == lv.skip(i as int)[0] + seq![10u8]
                        + join_lines_spec(lv.skip(i as int).skip(1)));
                    assert(out@ =~= (out0 + lv[i as int]).push(10u8));
                    assert(out0 + (lv[i as int] + seq![10u8] + join_lines_spec(lv.skip(i + 1)))
                        =~= out@ + join_lines_spec(lv.skip(i + 1)));
                }
            } else {
                proof {
                    assert(lv.skip(i as int).len() == 1);
                    assert(join_lines_spec(lv.skip(i as int)) == lv.skip(i as int)[0]);
                    assert(lv.skip(i + 1).len() == 0);
                    assert(out0 + lv[i as int] =~= out@ + join_lines_spec(lv.skip(i + 1)));
                }
            }
            i += 1;
        }
        proof {
            assert(self.view_lines().skip(self.view_lines().len() as int).len() == 0);
            assert(out@ + join_lines_spec(self.view_lines().skip(self.view_lines().len() as int))
                =~= out@);
        }
        out
    }
}

/// The first line of a split, with `c` prepended.
pub open spec fn cons_line(c: Seq<u8>, ls: Seq<Seq<u8>>) -> Seq<Seq<u8>> {
    seq![c + ls[0]] + ls.skip(1)
}

/// The exact bytes of the `[package]` header line.
fn package_header_bytes() -> (r: Vec<u8>)
    ensures
        r@ == package_header_spec(),
{
    let mut v: Vec<u8> = Vec::new();
    v.push(91);
    v.push(112);
    v.push(97);
    v.push(99);
    v.push(107);
    v.push(97);
    v.push(103);
    v.push(101);
    v.push(93);
    proof {
        assert(v@ =~= package_header_spec());
    }
    v
}

/// The bytes of the line declaring the package name `new_name`.
fn name_line_bytes(new_name: &Vec<u8>) -> (r: Vec<u8>)
    ensures
        r@ == name_line_spec(new_name@),
{
    let mut v: Vec<u8> = Vec::new();
    v.push(110);
    v.push(97);
    v.push(109);
    v.push(101);
    v.push(32);
    v.push(61);
    v.push(32);
    v.push(34);
    append_all(&mut v, new_name);
    v.push(34);
    proof {
        assert(v@ =~= name_line_spec(new_name@));
    }
    v
}

/// Whether the line declares the `name` key.
fn is_name_line_exec(line: &Vec<u8>) -> (r: bool)
    ensures
        r == is_name_line(line@),
{
    if line.len() <= 4 {
        return false;
    }
    if !(line[0] == 110 && line[1] == 97 && line[2] == 109 && line[3] == 101) {
        proof {
            if line@.subrange(0, 4) == name_key_spec() {
                assert(line@.subrange(0, 4)[0] == line@[0]);
                assert(line@.subrange(0, 4)[1] == line@[1]);
                assert(line@.subrange(0, 4)[2] == line@[2]);
                assert(line@.subrange(0, 4)[3] == line@[3]);
            }
        }
        return false;
    }
    proof {
        assert(line@.subrange(0, 4) =~= name_key_spec());
    }
    let mut i: usize = 4;
    while i < line.len()
        invariant
            4 <= i <= line.len(),
            line.len() > 4,
            line@.subrange(0, 4) == name_key_spec(),
            spaces_then_eq(line@, 4) == spaces_then_eq(line@, i as int),
        decreases line.len() - i,
    {
        if line[i] == 32 {
            i += 1;
        } else {
            return line[i] == 61;
        }
    }
    false
}

/// The lines of a line vector as mathematical sequences.
pub open spec fn view_of(lines: Seq<Vec<u8>>) -> Seq<Seq<u8>> {
    Seq::new(lines.len(), |i: int| lines[i]@)
}

/// Index of the first `[package]` header line.
fn find_package_line(lines: &Vec<Vec<u8>>) -> (r: usize)
    ensures
        r as int == find_package_from(view_of(lines@), 0),
        r <= lines.len(),
{
    let hdr = package_header_bytes();
    let ghost ls = view_of(lines@);
    let mut i: usize = 0;
    while i < lines.len()
        invariant
            i <= lines.len(),
            hdr@ == package_header_spec(),
            ls == view_of(lines@),
            find_package_from(ls, 0) == find_package_from(ls, i as int),
        decreases lines.len() - i,
    {
        proof {
            assert(ls[i as int] == lines@[i as int]@);
        }
        if bytes_eq(&lines[i], &hdr) {
            return i;
        }
        i += 1;
    }
    lines.len()
}

/// Index of the first `name` line of the table starting after `from`,
/// stopping at the next header.
fn find_name_line(lines: &Vec<Vec<u8>>, from: usize) -> (r: usize)
    requires
        from <= lines.len(),
    ensures
        r as int == find_name_from(view_of(lines@), from as int),
        r <= lines.len(),
{
    let ghost ls = view_of(lines@);
    let mut i: usize = from;
    while i < lines.len()
        invariant
            from <= i <= lines.len(),
            ls == view_of(lines@),
            find_name_from(ls, from as int) == find_name_from(ls, i as int),
        decreases lines.len() - i,
    {
        proof {
            assert(ls[i as int] == lines@[i as int]@);
        }
        if is_name_line_exec(&lines[i]) {
            return i;
        }
        let header = lines[i].len() > 0 && lines[i][0] == 91;
        if header {
            return lines.len();
        }
        i += 1;
    }
    lines.len()
}

/// Bounds of `find_package_from`.
proof fn lemma_find_package_bounds(ls: Seq<Seq<u8>>, from: int)
    requires
        0 <= from <= ls.len(),
    ensures
        from <= find_package_from(ls, from) <= ls.len(),
    decreases ls.len() - from,
{
    if from < ls.len() && ls[from] != package_header_spec() {
        lemma_find_package_bounds(ls, from + 1);
    }
}

/// Bounds of `find_name_from`.
proof fn lemma_find_name_bounds(ls: Seq<Seq<u8>>, from: int)
    requires
        0 <= from <= ls.len(),
    ensures
        find_name_from(ls, from) <= ls.len(),
        find_name_from(ls, from) < ls.len() ==> from <= find_name_from(ls, from),
    decreases ls.len() - from,
{
    if from < ls.len() && !is_name_line(ls[from]) && !is_header_line(ls[from]) {
        lemma_find_name_bounds(ls, from + 1);
    }
}

/// Updating a line past the first `[package]` header does not move the
/// header.
proof fn lemma_find_package_update(ls: Seq<Seq<u8>>, v: Seq<u8>, t: int, i: int)
    requires
        0 <= i <= ls.len(),
        0 <= t < ls.len(),
        find_package_from(ls, i) < t,
    ensures
        find_package_from(ls.update(t, v), i) == find_package_from(ls, i),
    decreases ls.len() - i,
{
    let ls2 = ls.update(t, v);
    lemma_find_package_bounds(ls, i);
    if ls[i] == package_header_spec() {
        assert(ls2[i] == ls[i]);
    } else {
        lemma_find_package_bounds(ls, i + 1);
        assert(ls2[i] == ls[i]);
        lemma_find_package_update(ls, v, t, i + 1);
    }
}

/// Replacing the found `name` line by another `name` line leaves it the
/// first one found.
proof fn lemma_find_name_update(ls: Seq<Seq<u8>>, v: Seq<u8>, t: int, i: int)
    requires
        0 <= i <= t < ls.len(),
        find_name_from(ls, i) == t,
        is_name_line(v),
    ensures
        find_name_from(ls.update(t, v), i) == t,
    decreases t - i,
{
    let ls2 = ls.update(t, v);
    if i == t {
        assert(ls2[i] == v);
    } else {
        assert(!is_name_line(ls[i]));
        assert(!is_header_line(ls[i]));
        assert(ls2[i] == ls[i]);
        lemma_find_name_update(ls, v, t, i + 1);
    }
}

/// The generated name line is separator-free and is itself a `name` line.
pub proof fn lemma_name_line_props(n: Seq<u8>)
    requires
        no_newline(n),
    ensures
        no_newline(name_line_spec(n)),
        is_name_line(name_line_spec(n)),
{
    let l = name_line_spec(n);
    assert forall|j: int| 0 <= j < l.len() implies l[j] != 10 by {
        if 8 <= j < 8 + n.len() {
            assert(l[j] == n[j - 8]);
        }
    }
    assert(l.subrange(0, 4) =~= name_key_spec());
    assert(l[4] == 32);
    assert(l[5] == 61);
    assert(spaces_then_eq(l, 5));
    assert(spaces_then_eq(l, 4));
}

impl ManifestDoc {
    /// Replaces the value of the `name` key of the `[package]` table with
    /// `new_name`, quoted; every other line is kept byte for byte. Fails,
    /// leaving the document unchanged, when the header or the key is
    /// missing.
    pub fn set_package_name(&mut self, new_name: &Vec<u8>) -> (r: Result<(), ManifestError>)
        requires
            old(self).wf(),
            no_newline(new_name@),
        ensures
            final(self).wf(),
            ({
                let ls = old(self).view_lines();
                let p = find_package_from(ls, 0);
                let t = find_name_from(ls, p + 1);
                match r {
                    Ok(_) => p < ls.len() && t < ls.len() && final(self).view_lines() == ls.update(
                        t,
                        name_line_spec(new_name@),
                    ),
                    Err(ManifestError::MissingPackage) => p == ls.len() && final(self).view_lines()
                        == ls,
                    Err(ManifestError::MissingName) => p < ls.len() && t == ls.len()
                        && final(self).view_lines() == ls,
                }
            }),
    {
        let ghost ls = self.view_lines();
        proof {
            assert(ls =~~= view_of(self.lines@));
        }
        let p = find_package_line(&self.lines);
        if p == self.lines.len() {
            return Err(ManifestError::MissingPackage);
        }
        let t = find_name_line(&self.lines, p + 1);
        if t == self.lines.len() {
            return Err(ManifestError::MissingName);
        }
        let line = name_line_bytes(new_name);
        self.lines[t] = line;
        proof {
            lemma_name_line_props(new_name@);
            assert(self.view_lines() =~~= ls.update(t as int, name_line_spec(new_name@)));
            assert forall|k: int|
                0 <= k < self.view_lines().len() implies no_newline(
                #[trigger] self.view_lines()[k],
            ) by {
                if k != t {
                    assert(self.view_lines()[k] == ls[k]);
                    assert(no_newline(ls[k]));
                }
            }
        }
        Ok(())
    }
}

/// Patching the `name` line and then patching again with the same name is
/// a no-op the second time: the header and the key are found at the same
/// lines, and the line written is the line already there.
pub proof fn lemma_set_name_idempotent(ls: Seq<Seq<u8>>, n: Seq<u8>)
    requires
        no_newline(n),
        find_package_from(ls, 0) < ls.len(),
        find_name_from(ls, find_package_from(ls, 0) + 1) < ls.len(),
    ensures
        ({
            let p = find_package_from(ls, 0);
            let t = find_name_from(ls, p + 1);
            let ls2 = ls.update(t, name_line_spec(n));
            &&& find_package_from(ls2, 0) == p
            &&& find_name_from(ls2, p + 1) == t
            &&& ls2.update(t, name_line_spec(n)) == ls2
        }),
{
    let p = find_package_from(ls, 0);
    let t = find_name_from(ls, p + 1);
    let v = name_line_spec(n);
    lemma_name_line_props(n);
    lemma_find_package_bounds(ls, 0);
    lemma_find_name_bounds(ls, p + 1);
    lemma_find_package_update(ls, v, t, 0);
    lemma_find_name_update(ls, v, t, p + 1);
    assert(ls.update(t, v).update(t, v) =~~= ls.update(t, v));
}

/// Serializing a well-formed document and parsing the result gives back
/// exactly the same lines: nothing but the patched line ever changes
/// across a patch, write, re-parse cycle.
pub proof fn lemma_manifest_round_trip(doc: ManifestDoc)
    requires
        doc.wf(),
    ensures
        split_lines_spec(join_lines_spec(doc.view_lines())) == doc.view_lines(),
{
    lemma_split_join(doc.view_lines());
}

} // verus!
