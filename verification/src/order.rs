//! The dictionary order on character sequences.
//!
//! Characters are ordered by code point, which is also how `str` orders
//! its values.

use vstd::prelude::*;

verus! {

/// Whether `a` stands at or before `b` in the dictionary.
pub open spec fn lex_le(a: Seq<char>, b: Seq<char>) -> bool
    decreases a.len(),
{
    if a.len() == 0 {
        true
    } else if b.len() == 0 {
        false
    } else if a[0] != b[0] {
        a[0] < b[0]
    } else {
        lex_le(a.skip(1), b.skip(1))
    }
}

pub proof fn lex_le_reflexive(a: Seq<char>)
    ensures
        lex_le(a, a),
    decreases a.len(),
{
    if a.len() > 0 {
        lex_le_reflexive(a.skip(1));
    }
}

pub proof fn lex_le_total(a: Seq<char>, b: Seq<char>)
    ensures
        lex_le(a, b) || lex_le(b, a),
    decreases a.len(),
{
    if a.len() > 0 && b.len() > 0 && a[0] == b[0] {
        lex_le_total(a.skip(1), b.skip(1));
    }
}

pub proof fn lex_le_transitive(a: Seq<char>, b: Seq<char>, c: Seq<char>)
    requires
        lex_le(a, b),
        lex_le(b, c),
    ensures
        lex_le(a, c),
    decreases a.len(),
{
    if a.len() > 0 && a[0] == b[0] && b[0] == c[0] {
        lex_le_transitive(a.skip(1), b.skip(1), c.skip(1));
    }
}

/// Whether `a` stands at or before `b` in the dictionary.
pub fn chars_le(a: &[char], b: &[char]) -> (r: bool)
    ensures
        r == lex_le(a@, b@),
{
    let mut i: usize = 0;
    assert(a@.skip(0) == a@ && b@.skip(0) == b@);
    while i < a.len() && i < b.len()
        invariant
            i <= a.len(),
            i <= b.len(),
            lex_le(a@, b@) == lex_le(a@.skip(i as int), b@.skip(i as int)),
        decreases a.len() - i,
    {
        if a[i] != b[i] {
            return a[i] < b[i];
        }
        assert(a@.skip(i as int).skip(1) == a@.skip(i + 1));
        assert(b@.skip(i as int).skip(1) == b@.skip(i + 1));
        i += 1;
    }
    i == a.len()
}

/// Something to put in order: what it is ordered by, and the thing itself.
/// Lines are ordered by group, and within a group by `folded` in the
/// dictionary.
pub struct Line<V> {
    pub group: int,
    pub folded: Seq<char>,
    pub item: V,
}

/// Whether `a` may stand before `b`.
pub open spec fn in_order<V>(a: Line<V>, b: Line<V>) -> bool {
    a.group < b.group || (a.group == b.group && lex_le(a.folded, b.folded))
}

pub open spec fn sorted<V>(lines: Seq<Line<V>>) -> bool {
    forall|i: int, j: int| 0 <= i < j < lines.len() ==> in_order(lines[i], lines[j])
}

/// Where a line goes among lines that are in order: behind the last line
/// that may stand before it.
pub open spec fn slot<V>(lines: Seq<Line<V>>, line: Line<V>) -> int
    decreases lines.len(),
{
    if lines.len() == 0 {
        0
    } else if in_order(lines.last(), line) {
        lines.len() as int
    } else {
        slot(lines.drop_last(), line)
    }
}

/// The lines put in order, one after the other, so that lines which may
/// stand either way keep the order in which they came.
pub open spec fn arranged<V>(lines: Seq<Line<V>>) -> Seq<Line<V>>
    decreases lines.len(),
{
    if lines.len() == 0 {
        Seq::empty()
    } else {
        let before = arranged(lines.drop_last());
        before.insert(slot(before, lines.last()), lines.last())
    }
}

/// The things that lines hold.
pub open spec fn unkeyed<V>(lines: Seq<Line<V>>) -> Seq<V> {
    Seq::new(lines.len(), |i: int| lines[i].item)
}

/// Of two lines one may stand before the other.
pub proof fn in_order_total<V>(a: Line<V>, b: Line<V>)
    ensures
        in_order(a, b) || in_order(b, a),
{
    lex_le_total(a.folded, b.folded);
}

pub proof fn in_order_transitive<V>(a: Line<V>, b: Line<V>, c: Line<V>)
    requires
        in_order(a, b),
        in_order(b, c),
    ensures
        in_order(a, c),
{
    if a.group == b.group && b.group == c.group {
        lex_le_transitive(a.folded, b.folded, c.folded);
    }
}

/// The slot of a line among lines in order parts those that may stand
/// before it from those that may not.
pub proof fn slot_parts<V>(lines: Seq<Line<V>>, line: Line<V>)
    requires
        sorted(lines),
    ensures
        0 <= slot(lines, line) <= lines.len(),
        forall|k: int| 0 <= k < slot(lines, line) ==> in_order(lines[k], line),
        forall|k: int| slot(lines, line) <= k < lines.len() ==> in_order(line, lines[k]),
    decreases lines.len(),
{
    if lines.len() > 0 {
        if in_order(lines.last(), line) {
            assert forall|k: int| 0 <= k < lines.len() implies in_order(lines[k], line) by {
                if k < lines.len() - 1 {
                    in_order_transitive(lines[k], lines.last(), line);
                }
            }
        } else {
            let rest = lines.drop_last();
            assert(sorted(rest)) by {
                assert forall|i: int, j: int| 0 <= i < j < rest.len() implies in_order(
                    rest[i],
                    rest[j],
                ) by {
                    assert(rest[i] == lines[i] && rest[j] == lines[j]);
                }
            }
            slot_parts(rest, line);
            in_order_total(lines.last(), line);
            assert forall|k: int| slot(lines, line) <= k < lines.len() implies in_order(
                line,
                lines[k],
            ) by {
                if k < lines.len() - 1 {
                    assert(rest[k] == lines[k]);
                }
            }
            assert forall|k: int| 0 <= k < slot(lines, line) implies in_order(lines[k], line) by {
                assert(rest[k] == lines[k]);
            }
        }
    }
}

/// Arranged lines are in order, and as many as before.
pub proof fn arranged_is_sorted<V>(lines: Seq<Line<V>>)
    ensures
        sorted(arranged(lines)),
        arranged(lines).len() == lines.len(),
    decreases lines.len(),
{
    if lines.len() > 0 {
        let before = arranged(lines.drop_last());
        let line = lines.last();
        arranged_is_sorted(lines.drop_last());
        slot_parts(before, line);
        let p = slot(before, line);
        let after = before.insert(p, line);
        before.insert_ensures(p, line);
        assert forall|i: int, j: int| 0 <= i < j < after.len() implies in_order(
            after[i],
            after[j],
        ) by {
            if j < p {
                assert(after[i] == before[i] && after[j] == before[j]);
            } else if j == p {
                assert(after[i] == before[i]);
            } else if i < p {
                assert(after[i] == before[i] && after[j] == before[j - 1]);
            } else if i == p {
                assert(after[j] == before[j - 1]);
            } else {
                assert(after[i] == before[i - 1] && after[j] == before[j - 1]);
            }
        }
    }
}

/// Arranging neither adds a line nor loses one.
pub proof fn arranged_is_permutation<V>(lines: Seq<Line<V>>)
    ensures
        arranged(lines).to_multiset() == lines.to_multiset(),
    decreases lines.len(),
{
    broadcast use vstd::seq_lib::group_to_multiset_ensures;

    if lines.len() > 0 {
        let rest = lines.drop_last();
        let before = arranged(rest);
        let line = lines.last();
        arranged_is_permutation(rest);
        arranged_is_sorted(rest);
        slot_parts(before, line);
        let p = slot(before, line);
        let after = before.insert(p, line);
        before.insert_ensures(p, line);
        assert(after.remove(p) == before);
        assert(after[p] == line);
        assert(after.to_multiset().remove(line) == before.to_multiset());
        assert(after.contains(line));
        assert(after.to_multiset() == before.to_multiset().insert(line));
        assert(rest.push(line) == lines);
    } else {
        assert(lines == Seq::<Line<V>>::empty());
    }
}

/// A line goes behind the first line where that one may stand before it.
pub proof fn slot_is_behind_first<V>(lines: Seq<Line<V>>, line: Line<V>)
    requires
        lines.len() > 0,
        in_order(lines[0], line),
    ensures
        slot(lines, line) >= 1,
    decreases lines.len(),
{
    if !in_order(lines.last(), line) {
        assert(lines.len() > 1);
        assert(lines.drop_last()[0] == lines[0]);
        slot_is_behind_first(lines.drop_last(), line);
    }
}

/// A first line that may stand before every other line stays first.
pub proof fn least_first_stays_first<V>(lines: Seq<Line<V>>)
    requires
        lines.len() > 0,
        forall|k: int| 0 <= k < lines.len() ==> in_order(lines[0], lines[k]),
    ensures
        arranged(lines).len() > 0,
        arranged(lines)[0] == lines[0],
    decreases lines.len(),
{
    let rest = lines.drop_last();
    let before = arranged(rest);
    let line = lines.last();
    if lines.len() == 1 {
        assert(before == Seq::<Line<V>>::empty());
        assert(arranged(lines)[0] == line);
    } else {
        assert(rest[0] == lines[0]);
        assert forall|k: int| 0 <= k < rest.len() implies in_order(rest[0], rest[k]) by {
            assert(rest[k] == lines[k]);
        }
        least_first_stays_first(rest);
        arranged_is_sorted(rest);
        slot_parts(before, line);
        assert(in_order(before[0], line)) by {
            assert(lines[lines.len() - 1] == line);
        }
        slot_is_behind_first(before, line);
        before.insert_ensures(slot(before, line), line);
    }
}

/// A thing to put in order, with what it is ordered by.
pub struct Keyed<T> {
    pub group: u8,
    pub folded: Vec<char>,
    pub item: T,
}

impl<T: View> View for Keyed<T> {
    type V = Line<T::V>;

    open spec fn view(&self) -> Line<T::V> {
        Line { group: self.group as int, folded: self.folded@, item: self.item@ }
    }
}

pub open spec fn line_views<T: View>(v: Seq<Keyed<T>>) -> Seq<Line<T::V>> {
    Seq::new(v.len(), |i: int| v[i]@)
}

/// Whether `a` may stand before `b`.
pub fn may_precede<T: View>(a: &Keyed<T>, b: &Keyed<T>) -> (r: bool)
    ensures
        r == in_order(a@, b@),
{
    a.group < b.group || (a.group == b.group && chars_le(a.folded.as_slice(), b.folded.as_slice()))
}

/// Puts lines in order.
pub fn arrange<T: View>(lines: Vec<Keyed<T>>) -> (out: Vec<Keyed<T>>)
    ensures
        line_views(out@) == arranged(line_views(lines@)),
{
    let mut out: Vec<Keyed<T>> = Vec::new();
    let ghost all = line_views(lines@);
    assert(all.take(0) == Seq::<Line<T::V>>::empty());
    assert(line_views(out@) == Seq::<Line<T::V>>::empty());
    for line in it: lines.into_iter()
        invariant
            it.seq() == lines@,
            all == line_views(lines@),
            line_views(out@) == arranged(all.take(it.index() as int)),
    {
        let ghost done = line_views(out@);
        let ghost seen = all.take(it.index() + 1);
        assert(seen.drop_last() == all.take(it.index() as int));
        assert(seen.last() == line@);
        let mut p: usize = out.len();
        let mut found: bool = false;
        assert(done.take(p as int) == done);
        while p > 0 && !found
            invariant
                p <= out.len(),
                done == line_views(out@),
                slot(done, line@) == slot(done.take(p as int), line@),
                found ==> p > 0 && in_order(done[p - 1], line@),
            decreases p + if found { 0int } else { 1int },
        {
            assert(done.take(p as int).last() == done[p - 1]);
            assert(done.take(p as int).drop_last() == done.take(p - 1));
            if may_precede(&out[p - 1], &line) {
                found = true;
            } else {
                p -= 1;
            }
        }
        assert(slot(done, line@) == p) by {
            if found {
                assert(done.take(p as int).last() == done[p - 1]);
            }
        }
        out.insert(p, line);
        assert(line_views(out@) == done.insert(p as int, line@));
    }
    assert(all.take(lines@.len() as int) == all);
    out
}

} // verus!
