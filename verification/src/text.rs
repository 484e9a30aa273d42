//! Splitting and joining of strings on a separator character, with exact
//! specifications over character sequences.

use vstd::prelude::*;

verus! {

/// The pieces of `s` between occurrences of `sep`, in order. There is always
/// at least one piece; a separator at either end, or two in a row, yields an
/// empty piece.
pub open spec fn spec_split(s: Seq<char>, sep: char) -> Seq<Seq<char>>
    decreases s.len(),
{
    if s.len() == 0 {
        seq![Seq::<char>::empty()]
    } else if s.last() == sep {
        spec_split(s.drop_last(), sep).push(Seq::<char>::empty())
    } else {
        let r = spec_split(s.drop_last(), sep);
        r.update(r.len() - 1, r.last().push(s.last()))
    }
}

/// The pieces joined back together with `sep` between neighbours.
pub open spec fn spec_join(parts: Seq<Seq<char>>, sep: char) -> Seq<char>
    decreases parts.len(),
{
    if parts.len() == 0 {
        Seq::<char>::empty()
    } else if parts.len() == 1 {
        parts[0]
    } else {
        spec_join(parts.drop_last(), sep) + seq![sep] + parts.last()
    }
}

/// A split always has at least one piece.
pub proof fn lemma_split_at_least_one(s: Seq<char>, sep: char)
    ensures
        spec_split(s, sep).len() >= 1,
    decreases s.len(),
{
    if s.len() != 0 {
        lemma_split_at_least_one(s.drop_last(), sep);
    }
}

/// Joining the pieces of a split restores the original string.
pub proof fn lemma_join_of_split(s: Seq<char>, sep: char)
    ensures
        spec_join(spec_split(s, sep), sep) == s,
    decreases s.len(),
{
    lemma_split_at_least_one(s, sep);
    if s.len() == 0 {
        assert(spec_join(spec_split(s, sep), sep) =~= s);
    } else {
        lemma_join_of_split(s.drop_last(), sep);
        lemma_split_at_least_one(s.drop_last(), sep);
        let r = spec_split(s.drop_last(), sep);
        if s.last() == sep {
            let rp = r.push(Seq::<char>::empty());
            assert(rp.drop_last() =~= r);
            assert(rp.last() == Seq::<char>::empty());
            assert(spec_join(rp, sep) =~= s);
        } else {
            let upd = r.update(r.len() - 1, r.last().push(s.last()));
            if r.len() == 1 {
                assert(upd[0] == r.last().push(s.last()));
                assert(spec_join(upd, sep) =~= s);
            } else {
                assert(upd.drop_last() =~= r.drop_last());
                assert(upd.last() == r.last().push(s.last()));
                assert(spec_join(upd, sep) == spec_join(r.drop_last(), sep) + seq![sep]
                    + r.last().push(s.last()));
                assert(spec_join(r, sep) == spec_join(r.drop_last(), sep) + seq![sep] + r.last());
                assert(spec_join(r.drop_last(), sep) + seq![sep] + r.last().push(s.last())
                    =~= (spec_join(r.drop_last(), sep) + seq![sep] + r.last()).push(s.last()));
                assert(s.drop_last().push(s.last()) =~= s);
            }
        }
    }
}

/// Splitting a separator-free piece gives just that piece.
pub proof fn lemma_split_single(p: Seq<char>, sep: char)
    requires
        !p.contains(sep),
    ensures
        spec_split(p, sep) == seq![p],
    decreases p.len(),
{
    if p.len() == 0 {
        assert(p =~= Seq::<char>::empty());
        assert(spec_split(p, sep) =~= seq![p]);
    } else {
        assert(p[p.len() - 1] != sep);
        assert forall|i: int| 0 <= i < p.drop_last().len() implies p.drop_last()[i] != sep by {
            assert(p.drop_last()[i] == p[i]);
        }
        assert(!p.drop_last().contains(sep));
        lemma_split_single(p.drop_last(), sep);
        assert(p.drop_last().push(p.last()) =~= p);
        assert(spec_split(p, sep) =~= seq![p]);
    }
}

/// Appending a separator to a string adds one empty piece to its split.
pub proof fn lemma_split_append_sep(s: Seq<char>, sep: char)
    ensures
        spec_split(s + seq![sep], sep) == spec_split(s, sep).push(Seq::<char>::empty()),
{
    assert((s + seq![sep]).last() == sep);
    assert((s + seq![sep]).drop_last() =~= s);
}

/// Appending separator-free text to a string extends the last piece of its
/// split.
pub proof fn lemma_split_append_piece(s: Seq<char>, p: Seq<char>, sep: char)
    requires
        !p.contains(sep),
    ensures
        spec_split(s + p, sep) == ({
            let r = spec_split(s, sep);
            r.update(r.len() - 1, r.last() + p)
        }),
    decreases p.len(),
{
    lemma_split_at_least_one(s, sep);
    let r = spec_split(s, sep);
    if p.len() == 0 {
        assert(s + p =~= s);
        assert(r.last() + p =~= r.last());
        assert(r.update(r.len() - 1, r.last() + p) =~= r);
    } else {
        assert(p[p.len() - 1] != sep);
        assert forall|i: int| 0 <= i < p.drop_last().len() implies p.drop_last()[i] != sep by {
            assert(p.drop_last()[i] == p[i]);
        }
        assert(!p.drop_last().contains(sep));
        lemma_split_append_piece(s, p.drop_last(), sep);
        let r1 = r.update(r.len() - 1, r.last() + p.drop_last());
        assert((s + p).drop_last() =~= s + p.drop_last());
        assert((s + p).last() == p.last());
        assert(spec_split(s + p, sep) == r1.update(
            r1.len() - 1,
            r1.last().push(p.last()),
        ));
        assert(r1.last().push(p.last()) =~= r.last() + p);
        assert(r1.update(r1.len() - 1, r1.last().push(p.last())) =~= r.update(
            r.len() - 1,
            r.last() + p,
        ));
    }
}

/// Splitting a join of separator-free pieces restores the pieces.
pub proof fn lemma_split_of_join(parts: Seq<Seq<char>>, sep: char)
    requires
        parts.len() >= 1,
        forall|i: int| 0 <= i < parts.len() ==> !(#[trigger] parts[i]).contains(sep),
    ensures
        spec_split(spec_join(parts, sep), sep) == parts,
    decreases parts.len(),
{
    if parts.len() == 1 {
        lemma_split_single(parts[0], sep);
        assert(spec_split(spec_join(parts, sep), sep) =~= parts);
    } else {
        lemma_split_of_join(parts.drop_last(), sep);
        let j = spec_join(parts.drop_last(), sep);
        lemma_split_append_sep(j, sep);
        lemma_split_append_piece(j + seq![sep], parts.last(), sep);
        let r1 = parts.drop_last().push(Seq::<char>::empty());
        assert(spec_split(j + seq![sep], sep) == r1);
        assert(spec_join(parts, sep) == (j + seq![sep]) + parts.last());
        assert(r1.last() + parts.last() =~= parts.last());
        assert(r1.update(r1.len() - 1, r1.last() + parts.last()) =~= parts);
    }
}

/// Joins the pieces of `parts` with positions in `from..to` into one string
/// with a dot between neighbours.
pub fn join_dot(parts: &Vec<String>, from: usize, to: usize) -> (r: String)
    requires
        from <= to <= parts.len(),
    ensures
        r@ == spec_join(parts.deep_view().subrange(from as int, to as int), '.'),
{
    let mut r = String::new();
    let mut k = from;
    proof {
        assert(parts.deep_view().subrange(from as int, from as int) =~= Seq::<Seq<char>>::empty());
        assert(r@ =~= spec_join(parts.deep_view().subrange(from as int, from as int), '.'));
    }
    while k < to
        invariant
            from <= k <= to <= parts.len(),
            parts.deep_view().len() == parts.len(),
            r@ == spec_join(parts.deep_view().subrange(from as int, k as int), '.'),
        decreases to - k,
    {
        if k > from {
            r.append(".");
        }
        r.append(parts[k].as_str());
        proof {
            reveal_strlit(".");
            let sub1 = parts.deep_view().subrange(from as int, k + 1);
            assert(sub1.drop_last() =~= parts.deep_view().subrange(from as int, k as int));
            assert(sub1.last() == parts.deep_view()[k as int]);
            assert(r@ =~= spec_join(sub1, '.'));
        }
        k += 1;
    }
    r
}

/// Splits `s` into the pieces between occurrences of `sep`.
pub fn split_on(s: &str, sep: char) -> (parts: Vec<String>)
    ensures
        parts.deep_view() == spec_split(s@, sep),
{
    let n = s.unicode_len();
    let mut parts: Vec<String> = Vec::new();
    let mut start: usize = 0;
    let mut i: usize = 0;
    proof {
        assert(s@.subrange(0, 0) =~= Seq::<char>::empty());
        assert(s@.take(0) =~= Seq::<char>::empty());
        assert(spec_split(s@.take(0), sep) =~= parts.deep_view().push(s@.subrange(0, 0)));
    }
    while i < n
        invariant
            n == s@.len(),
            start <= i <= n,
            spec_split(s@.take(i as int), sep) == parts.deep_view().push(
                s@.subrange(start as int, i as int),
            ),
        decreases n - i,
    {
        let c = s.get_char(i);
        proof {
            assert(s@.take(i + 1).drop_last() =~= s@.take(i as int));
            assert(s@.take(i + 1).last() == s@[i as int]);
        }
        if c == sep {
            let ghost old_parts = parts.deep_view();
            let piece = s.substring_char(start, i).to_owned();
            parts.push(piece);
            proof {
                assert(parts.deep_view() =~= old_parts.push(piece@));
                assert(s@.subrange(i + 1, i + 1) =~= Seq::<char>::empty());
                assert(spec_split(s@.take(i + 1), sep) =~= parts.deep_view().push(
                    s@.subrange(i + 1, i + 1),
                ));
            }
            start = i + 1;
        } else {
            proof {
                let r = spec_split(s@.take(i as int), sep);
                assert(s@.subrange(start as int, i + 1) =~= s@.subrange(
                    start as int,
                    i as int,
                ).push(s@[i as int]));
                assert(r.update(r.len() - 1, r.last().push(s@[i as int]))
                    =~= parts.deep_view().push(s@.subrange(start as int, i + 1)));
            }
        }
        i += 1;
    }
    let last = s.substring_char(start, n).to_owned();
    parts.push(last);
    proof {
        assert(s@.take(n as int) =~= s@);
        assert(parts.deep_view() =~= spec_split(s@, sep));
    }
    parts
}

} // verus!
