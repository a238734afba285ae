//! Text primitives the grammars of this crate are built on: string
//! equality, character search, and splitting and joining around a
//! separator, each specified against the `Seq<char>` view. The two
//! directions are proved inverse to each other, which is what makes the
//! topic grammar's parser and renderer agree.

use vstd::prelude::*;

verus! {

/// Character-wise equality of two string slices.
pub fn str_eq(a: &str, b: &str) -> (r: bool)
    ensures
        r == (a@ == b@),
{
    let a_len = a.unicode_len();
    let b_len = b.unicode_len();
    if a_len != b_len {
        proof {
            assert(a@ != b@) by {
                assert(a@.len() != b@.len());
            }
        }
        return false;
    }
    let mut i: usize = 0;
    while i < a_len
        invariant
            i <= a_len,
            a_len == a@.len(),
            a_len == b@.len(),
            forall|k: int| 0 <= k < i ==> a@[k] == b@[k],
        decreases a_len - i,
    {
        if a.get_char(i) != b.get_char(i) {
            return false;
        }
        i += 1;
    }
    proof {
        assert(a@ =~= b@);
    }
    true
}

/// Whether `c` occurs in `s`.
pub fn contains_char(s: &str, c: char) -> (r: bool)
    ensures
        r == s@.contains(c),
{
    let n = s.unicode_len();
    let mut i: usize = 0;
    while i < n
        invariant
            i <= n,
            n == s@.len(),
            forall|k: int| 0 <= k < i ==> s@[k] != c,
        decreases n - i,
    {
        if s.get_char(i) == c {
            proof {
                assert(s@.contains(c)) by {
                    assert(s@[i as int] == c);
                }
            }
            return true;
        }
        i += 1;
    }
    proof {
        assert(!s@.contains(c)) by {
            if s@.contains(c) {
                let k = choose|k: int| 0 <= k < s@.len() && s@[k] == c;
                assert(s@[k] != c);
            }
        }
    }
    false
}

/// The parts of `s` delimited by `sep`, in order. A string without the
/// separator is one part; every separator ends a part, so `n` separators
/// give `n + 1` parts and empty parts are kept.
pub open spec fn spec_split(s: Seq<char>, sep: char) -> Seq<Seq<char>>
    decreases s.len(),
{
    if s.len() == 0 {
        seq![Seq::<char>::empty()]
    } else {
        let rest = spec_split(s.drop_first(), sep);
        if s[0] == sep {
            seq![Seq::<char>::empty()] + rest
        } else {
            seq![seq![s[0]] + rest[0]] + rest.drop_first()
        }
    }
}

/// The parts joined back, with `sep` between each two.
pub open spec fn spec_join(parts: Seq<Seq<char>>, sep: char) -> Seq<char>
    decreases parts.len(),
{
    if parts.len() == 0 {
        Seq::<char>::empty()
    } else if parts.len() == 1 {
        parts[0]
    } else {
        parts[0] + seq![sep] + spec_join(parts.drop_first(), sep)
    }
}

/// Splitting always yields at least one part.
pub proof fn lemma_split_nonempty(s: Seq<char>, sep: char)
    ensures
        spec_split(s, sep).len() >= 1,
    decreases s.len(),
{
    if s.len() > 0 {
        lemma_split_nonempty(s.drop_first(), sep);
    }
}

/// No part produced by splitting contains the separator.
pub proof fn lemma_split_parts_free_of_sep(s: Seq<char>, sep: char)
    ensures
        forall|k: int|
            0 <= k < spec_split(s, sep).len() ==> !(#[trigger] spec_split(s, sep)[k]).contains(sep),
    decreases s.len(),
{
    if s.len() == 0 {
        assert forall|k: int| 0 <= k < spec_split(s, sep).len() implies !(#[trigger] spec_split(
            s,
            sep,
        )[k]).contains(sep) by {
            assert(spec_split(s, sep)[k] =~= Seq::<char>::empty());
        }
    } else {
        let rest = spec_split(s.drop_first(), sep);
        lemma_split_nonempty(s.drop_first(), sep);
        lemma_split_parts_free_of_sep(s.drop_first(), sep);
        if s[0] == sep {
            assert forall|k: int| 0 <= k < spec_split(s, sep).len() implies !(
            #[trigger] spec_split(s, sep)[k]).contains(sep) by {
                if k == 0 {
                    assert(spec_split(s, sep)[0] =~= Seq::<char>::empty());
                } else {
                    assert(spec_split(s, sep)[k] == rest[k - 1]);
                }
            }
        } else {
            assert forall|k: int| 0 <= k < spec_split(s, sep).len() implies !(
            #[trigger] spec_split(s, sep)[k]).contains(sep) by {
                if k == 0 {
                    assert(spec_split(s, sep)[0] == seq![s[0]] + rest[0]);
                    assert(!rest[0].contains(sep));
                    if (seq![s[0]] + rest[0]).contains(sep) {
                        let j = choose|j: int|
                            0 <= j < (seq![s[0]] + rest[0]).len() && (seq![s[0]] + rest[0])[j]
                                == sep;
                        if j == 0 {
                            assert(s[0] == sep);
                        } else {
                            assert(rest[0][j - 1] == sep);
                            assert(rest[0].contains(sep));
                        }
                    }
                } else {
                    assert(spec_split(s, sep)[k] == rest.drop_first()[k - 1]);
                    assert(rest.drop_first()[k - 1] == rest[k]);
                }
            }
        }
    }
}

/// Joining the parts of a split rebuilds the original string.
pub proof fn lemma_split_join(s: Seq<char>, sep: char)
    ensures
        spec_join(spec_split(s, sep), sep) == s,
    decreases s.len(),
{
    if s.len() == 0 {
        assert(spec_join(spec_split(s, sep), sep) =~= s);
    } else {
        let tail = s.drop_first();
        let rest = spec_split(tail, sep);
        lemma_split_nonempty(tail, sep);
        lemma_split_join(tail, sep);
        if s[0] == sep {
            let parts = seq![Seq::<char>::empty()] + rest;
            assert(parts.len() >= 2);
            assert(parts.drop_first() =~= rest);
            assert(spec_join(parts, sep) == parts[0] + seq![sep] + spec_join(rest, sep));
            assert(spec_join(parts, sep) =~= s);
        } else {
            let parts = seq![seq![s[0]] + rest[0]] + rest.drop_first();
            if rest.len() == 1 {
                assert(parts.len() == 1);
                assert(spec_join(parts, sep) == seq![s[0]] + rest[0]);
                assert(spec_join(rest, sep) == rest[0]);
                assert(spec_join(parts, sep) =~= s);
            } else {
                assert(parts.len() >= 2);
                assert(parts[0] == seq![s[0]] + rest[0]);
                assert(parts.drop_first() =~= rest.drop_first());
                assert(spec_join(parts, sep) == (seq![s[0]] + rest[0]) + seq![sep] + spec_join(
                    rest.drop_first(),
                    sep,
                ));
                assert(spec_join(rest, sep) == rest[0] + seq![sep] + spec_join(
                    rest.drop_first(),
                    sep,
                ));
                assert(spec_join(parts, sep) =~= seq![s[0]] + spec_join(rest, sep));
                assert(spec_join(parts, sep) =~= s);
            }
        }
    }
}

/// Splitting a join of separator-free parts gives the parts back.
pub proof fn lemma_join_split(parts: Seq<Seq<char>>, sep: char)
    requires
        parts.len() >= 1,
        forall|k: int| 0 <= k < parts.len() ==> !(#[trigger] parts[k]).contains(sep),
    ensures
        spec_split(spec_join(parts, sep), sep) == parts,
    decreases parts.len(), parts[0].len(),
{
    let joined = spec_join(parts, sep);
    if parts[0].len() == 0 {
        if parts.len() == 1 {
            assert(joined =~= Seq::<char>::empty());
            assert(spec_split(joined, sep) =~= parts);
        } else {
            let tail_join = spec_join(parts.drop_first(), sep);
            assert(joined =~= seq![sep] + tail_join);
            assert(joined.len() > 0);
            assert(joined[0] == sep);
            assert(joined.drop_first() =~= tail_join);
            assert forall|k: int| 0 <= k < parts.drop_first().len() implies !(
            #[trigger] parts.drop_first()[k]).contains(sep) by {
                assert(parts.drop_first()[k] == parts[k + 1]);
            }
            lemma_join_split(parts.drop_first(), sep);
            assert(spec_split(joined, sep) =~= seq![Seq::<char>::empty()] + spec_split(
                tail_join,
                sep,
            ));
            assert(parts[0] =~= Seq::<char>::empty());
            assert(spec_split(joined, sep) =~= parts);
        }
    } else {
        let c = parts[0][0];
        assert(c != sep) by {
            assert(parts[0].contains(c)) by {
                assert(parts[0][0] == c);
            }
        }
        let shorter = parts.update(0, parts[0].drop_first());
        assert(shorter.len() == parts.len());
        assert forall|k: int| 0 <= k < shorter.len() implies !(#[trigger] shorter[k]).contains(
            sep,
        ) by {
            if k == 0 {
                if shorter[0].contains(sep) {
                    let j = choose|j: int| 0 <= j < shorter[0].len() && shorter[0][j] == sep;
                    assert(parts[0][j + 1] == sep);
                    assert(parts[0].contains(sep));
                }
            } else {
                assert(shorter[k] == parts[k]);
            }
        }
        let tail_join = spec_join(shorter, sep);
        assert(joined =~= seq![c] + tail_join) by {
            if parts.len() == 1 {
                assert(joined == parts[0]);
                assert(tail_join == shorter[0]);
                assert(joined =~= seq![c] + parts[0].drop_first());
            } else {
                assert(shorter.drop_first() =~= parts.drop_first());
                assert(joined == parts[0] + seq![sep] + spec_join(parts.drop_first(), sep));
                assert(tail_join == parts[0].drop_first() + seq![sep] + spec_join(
                    parts.drop_first(),
                    sep,
                ));
                assert(joined =~= seq![c] + tail_join);
            }
        }
        lemma_join_split(shorter, sep);
        assert(joined.len() > 0);
        assert(joined[0] == c);
        assert(joined.drop_first() =~= tail_join);
        let rest = spec_split(tail_join, sep);
        assert(rest == shorter);
        lemma_split_nonempty(tail_join, sep);
        assert(spec_split(joined, sep) == seq![seq![c] + rest[0]] + rest.drop_first());
        assert(seq![c] + rest[0] =~= parts[0]);
        assert(spec_split(joined, sep) =~= parts);
    }
}

/// Split `s` at every occurrence of `sep`.
pub fn split_str(s: &str, sep: char) -> (parts: Vec<String>)
    ensures
        parts@.map_values(|p: String| p@) == spec_split(s@, sep),
{
    let n = s.unicode_len();
    let mut parts: Vec<String> = Vec::new();
    let mut start: usize = 0;
    let mut i: usize = 0;
    proof {
        lemma_split_nonempty(s@, sep);
        assert(s@.skip(0) =~= s@);
        assert(s@.subrange(0, 0) =~= Seq::<char>::empty());
        assert(split_accum(Seq::<char>::empty(), spec_split(s@, sep)) =~= spec_split(s@, sep));
        assert(spec_split(s@, sep) =~= parts@.map_values(|p: String| p@) + split_accum(
            Seq::<char>::empty(),
            spec_split(s@, sep),
        ));
    }
    while i < n
        invariant
            start <= i <= n,
            n == s@.len(),
            spec_split(s@, sep) == parts@.map_values(|p: String| p@) + split_accum(
                s@.subrange(start as int, i as int),
                spec_split(s@.skip(i as int), sep),
            ),
            !s@.subrange(start as int, i as int).contains(sep),
        decreases n - i,
    {
        proof {
            lemma_split_nonempty(s@.skip(i as int + 1), sep);
            assert(s@.skip(i as int).drop_first() =~= s@.skip(i as int + 1));
            assert(s@.skip(i as int).len() > 0);
            assert(s@.skip(i as int)[0] == s@[i as int]);
        }
        let c = s.get_char(i);
        if c == sep {
            let ghost old_parts = parts@;
            let part = s.substring_char(start, i).to_owned();
            parts.push(part);
            proof {
                let acc = s@.subrange(start as int, i as int);
                let rest = spec_split(s@.skip(i as int + 1), sep);
                assert(spec_split(s@.skip(i as int), sep) == seq![Seq::<char>::empty()] + rest);
                assert(split_accum(acc, seq![Seq::<char>::empty()] + rest) =~= seq![acc] + rest);
                assert(parts@.map_values(|p: String| p@) =~= old_parts.map_values(|p: String| p@)
                    + seq![acc]);
                assert(split_accum(Seq::<char>::empty(), rest) =~= rest);
                assert(s@.subrange(i as int + 1, i as int + 1) =~= Seq::<char>::empty());
                assert(spec_split(s@, sep) == parts@.map_values(|p: String| p@) + split_accum(
                    s@.subrange(i as int + 1, i as int + 1),
                    spec_split(s@.skip(i as int + 1), sep),
                ));
            }
            start = i + 1;
        } else {
            proof {
                let acc = s@.subrange(start as int, i as int);
                let acc1 = s@.subrange(start as int, i as int + 1);
                let rest = spec_split(s@.skip(i as int + 1), sep);
                assert(spec_split(s@.skip(i as int), sep) == seq![seq![s@[i as int]] + rest[0]]
                    + rest.drop_first());
                assert(acc1 =~= acc + seq![s@[i as int]]);
                assert((seq![seq![s@[i as int]] + rest[0]] + rest.drop_first()).drop_first()
                    =~= rest.drop_first());
                assert(acc + (seq![s@[i as int]] + rest[0]) =~= acc1 + rest[0]);
                assert(split_accum(acc, spec_split(s@.skip(i as int), sep)) =~= split_accum(
                    acc1,
                    rest,
                ));
                if acc1.contains(sep) {
                    let j = choose|j: int| 0 <= j < acc1.len() && acc1[j] == sep;
                    if j < acc.len() {
                        assert(acc[j] == sep);
                        assert(acc.contains(sep));
                    }
                }
            }
        }
        i += 1;
    }
    let last = s.substring_char(start, n).to_owned();
    let ghost old_parts = parts@;
    parts.push(last);
    proof {
        let acc = s@.subrange(start as int, n as int);
        assert(s@.skip(n as int) =~= Seq::<char>::empty());
        assert(spec_split(s@.skip(n as int), sep) == seq![Seq::<char>::empty()]);
        assert(split_accum(acc, seq![Seq::<char>::empty()]) =~= seq![acc]);
        assert(parts@.map_values(|p: String| p@) =~= old_parts.map_values(|p: String| p@) + seq![
            acc,
        ]);
    }
    parts
}

/// The split of a remainder, with `acc` (the part under construction)
/// prefixed onto its first element.
pub open spec fn split_accum(acc: Seq<char>, rest_split: Seq<Seq<char>>) -> Seq<Seq<char>> {
    seq![acc + rest_split[0]] + rest_split.drop_first()
}

} // verus!
