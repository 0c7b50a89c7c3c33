//! Splitting character sequences on reserved delimiter characters.
//!
//! `split_chars` is the mathematical meaning of splitting on every
//! delimiter occurrence; `find_delim` is the index of the first
//! occurrence. The executable `split_on` and `find_on` are proved
//! against them.

use vstd::prelude::*;

use crate::chars::{spec_is_delim, is_delim, DelimSet};
use crate::text::push_char;

verus! {

/// The index of the first delimiter of `ds` in `s`, or `s.len()` if none occurs.
pub open spec fn find_delim(s: Seq<char>, ds: DelimSet) -> int
    decreases s.len(),
{
    if s.len() == 0 {
        0
    } else if spec_is_delim(ds, s[0]) {
        0
    } else {
        1 + find_delim(s.skip(1), ds)
    }
}

pub proof fn lemma_find_delim(s: Seq<char>, ds: DelimSet)
    ensures
        0 <= find_delim(s, ds) <= s.len(),
        find_delim(s, ds) < s.len() ==> spec_is_delim(ds, s[find_delim(s, ds)]),
        forall|j: int| 0 <= j < find_delim(s, ds) ==> !spec_is_delim(ds, s[j]),
    decreases s.len(),
{
    if s.len() == 0 {
    } else if spec_is_delim(ds, s[0]) {
    } else {
        lemma_find_delim(s.skip(1), ds);
        assert forall|j: int| 0 <= j < find_delim(s, ds) implies !spec_is_delim(ds, s[j]) by {
            if j > 0 {
                assert(s[j] == s.skip(1)[j - 1]);
            }
        }
    }
}

/// Splitting on every occurrence of a delimiter of `ds`. The result always
/// holds one more piece than `s` holds delimiters; pieces may be empty.
pub open spec fn split_chars(s: Seq<char>, ds: DelimSet) -> Seq<Seq<char>>
    decreases s.len(),
{
    if s.len() == 0 {
        seq![Seq::<char>::empty()]
    } else if spec_is_delim(ds, s[0]) {
        seq![Seq::<char>::empty()] + split_chars(s.skip(1), ds)
    } else {
        let rest = split_chars(s.skip(1), ds);
        seq![seq![s[0]] + rest[0]] + rest.skip(1)
    }
}

pub proof fn lemma_split_nonempty(s: Seq<char>, ds: DelimSet)
    ensures
        split_chars(s, ds).len() >= 1,
{
    if s.len() == 0 {
    } else if spec_is_delim(ds, s[0]) {
    } else {
    }
}

/// How the split of a sequence grows when one character is appended:
/// a delimiter opens a new empty piece, any other character extends the
/// last piece.
pub proof fn lemma_split_push(p: Seq<char>, c: char, ds: DelimSet)
    ensures
        spec_is_delim(ds, c) ==> split_chars(p.push(c), ds) == split_chars(p, ds).push(
            Seq::<char>::empty(),
        ),
        !spec_is_delim(ds, c) ==> split_chars(p.push(c), ds) == split_chars(p, ds).update(
            split_chars(p, ds).len() - 1,
            split_chars(p, ds).last().push(c),
        ),
    decreases p.len(),
{
    let q = p.push(c);
    if p.len() == 0 {
        assert(q.len() == 1);
        assert(q[0] == c);
        assert(q.skip(1) =~= Seq::<char>::empty());
        assert(p =~= Seq::<char>::empty());
        assert(split_chars(Seq::<char>::empty(), ds) == seq![Seq::<char>::empty()]);
        if spec_is_delim(ds, c) {
            assert(split_chars(q, ds) == seq![Seq::<char>::empty()] + split_chars(
                q.skip(1),
                ds,
            ));
            assert(split_chars(q, ds) =~~= split_chars(p, ds).push(Seq::<char>::empty()));
        } else {
            let rest = split_chars(q.skip(1), ds);
            assert(seq![q[0]] + rest[0] =~= Seq::<char>::empty().push(c));
            assert(split_chars(q, ds) =~~= split_chars(p, ds).update(
                0,
                split_chars(p, ds).last().push(c),
            ));
        }
    } else {
        assert(q[0] == p[0]);
        assert(q.skip(1) =~= p.skip(1).push(c));
        lemma_split_push(p.skip(1), c, ds);
        lemma_split_nonempty(p.skip(1), ds);
        let rest_p = split_chars(p.skip(1), ds);
        let rest_q = split_chars(q.skip(1), ds);
        if spec_is_delim(ds, p[0]) {
            if spec_is_delim(ds, c) {
                assert(split_chars(q, ds) =~~= split_chars(p, ds).push(Seq::<char>::empty()));
            } else {
                assert(split_chars(q, ds) =~~= split_chars(p, ds).update(
                    split_chars(p, ds).len() - 1,
                    split_chars(p, ds).last().push(c),
                ));
            }
        } else {
            if spec_is_delim(ds, c) {
                assert(rest_q == rest_p.push(Seq::<char>::empty()));
                assert(rest_q[0] == rest_p[0]);
                assert(rest_q.skip(1) =~= rest_p.skip(1).push(Seq::<char>::empty()));
                assert(split_chars(q, ds) =~~= split_chars(p, ds).push(Seq::<char>::empty()));
            } else {
                let m = rest_p.len();
                assert(rest_q == rest_p.update(m - 1, rest_p.last().push(c)));
                if m == 1 {
                    assert(rest_q[0] == rest_p[0].push(c));
                    assert(seq![q[0]] + rest_p[0].push(c) =~= (seq![p[0]] + rest_p[0]).push(c));
                    assert(split_chars(q, ds) =~~= split_chars(p, ds).update(
                        split_chars(p, ds).len() - 1,
                        split_chars(p, ds).last().push(c),
                    ));
                } else {
                    assert(rest_q[0] == rest_p[0]);
                    assert(rest_q.skip(1) =~= rest_p.skip(1).update(
                        m - 2,
                        rest_p.last().push(c),
                    ));
                    assert(split_chars(p, ds).last() == rest_p.skip(1)[m - 2]);
                    assert(rest_p.skip(1)[m - 2] == rest_p.last());
                    assert(split_chars(q, ds) =~~= split_chars(p, ds).update(
                        split_chars(p, ds).len() - 1,
                        split_chars(p, ds).last().push(c),
                    ));
                }
            }
        }
    }
}

/// A sequence without delimiters splits into itself as the only piece.
pub proof fn lemma_split_no_delim(s: Seq<char>, ds: DelimSet)
    requires
        forall|i: int| 0 <= i < s.len() ==> !spec_is_delim(ds, s[i]),
    ensures
        split_chars(s, ds) == seq![s],
    decreases s.len(),
{
    if s.len() == 0 {
        assert(s =~= Seq::<char>::empty());
        assert(split_chars(s, ds) =~~= seq![s]);
    } else {
        assert forall|i: int| 0 <= i < s.skip(1).len() implies !spec_is_delim(ds, s.skip(1)[i]) by {
            assert(s.skip(1)[i] == s[i + 1]);
        }
        lemma_split_no_delim(s.skip(1), ds);
        assert(seq![s[0]] + s.skip(1) =~= s);
        assert(seq![s.skip(1)].skip(1) =~= Seq::<Seq<char>>::empty());
        assert(split_chars(s, ds) =~~= seq![s]);
    }
}

/// `c` occurs nowhere in `s`.
pub open spec fn lacks_char(s: Seq<char>, c: char) -> bool {
    forall|i: int| 0 <= i < s.len() ==> s[i] != c
}

/// Splitting introduces no character: a character absent from the whole
/// sequence is absent from every piece.
pub proof fn lemma_split_pieces_lack_char(s: Seq<char>, ds: DelimSet, c: char)
    requires
        lacks_char(s, c),
    ensures
        forall|k: int|
            0 <= k < split_chars(s, ds).len() ==> lacks_char(
                #[trigger] split_chars(s, ds)[k],
                c,
            ),
    decreases s.len(),
{
    if s.len() == 0 {
    } else {
        assert forall|i: int| 0 <= i < s.skip(1).len() implies s.skip(1)[i] != c by {
            assert(s.skip(1)[i] == s[i + 1]);
        }
        lemma_split_pieces_lack_char(s.skip(1), ds, c);
        let rest = split_chars(s.skip(1), ds);
        lemma_split_nonempty(s.skip(1), ds);
        if spec_is_delim(ds, s[0]) {
            assert forall|k: int|
                0 <= k < split_chars(s, ds).len() implies lacks_char(
                #[trigger] split_chars(s, ds)[k],
                c,
            ) by {
                if k > 0 {
                    assert(split_chars(s, ds)[k] == rest[k - 1]);
                }
            }
        } else {
            assert forall|k: int|
                0 <= k < split_chars(s, ds).len() implies lacks_char(
                #[trigger] split_chars(s, ds)[k],
                c,
            ) by {
                if k == 0 {
                    assert(split_chars(s, ds)[0] == seq![s[0]] + rest[0]);
                    assert forall|i: int|
                        0 <= i < (seq![s[0]] + rest[0]).len() implies (seq![s[0]] + rest[0])[i]
                        != c by {
                        if i > 0 {
                            assert((seq![s[0]] + rest[0])[i] == rest[0][i - 1]);
                        }
                    }
                } else {
                    assert(split_chars(s, ds)[k] == rest.skip(1)[k - 1]);
                    assert(rest.skip(1)[k - 1] == rest[k]);
                }
            }
        }
    }
}

/// The index of the first delimiter of `ds` in `s`, or the character length
/// of `s` if none occurs.
pub fn find_on(s: &str, ds: DelimSet) -> (i: usize)
    ensures
        i as int == find_delim(s@, ds),
{
    let n: usize = s.unicode_len();
    let mut i: usize = 0;
    while i < n
        invariant
            0 <= i <= n,
            n == s@.len(),
            forall|j: int| 0 <= j < i ==> !spec_is_delim(ds, s@[j]),
        decreases n - i,
    {
        let c = s.get_char(i);
        if is_delim(ds, c) {
            proof {
                lemma_find_delim(s@, ds);
            }
            return i;
        }
        i = i + 1;
    }
    proof {
        lemma_find_delim(s@, ds);
    }
    i
}

/// Splits `s` on every occurrence of a delimiter of `ds`.
pub fn split_on(s: &str, ds: DelimSet) -> (r: Vec<String>)
    ensures
        r.deep_view() == split_chars(s@, ds),
{
    let n: usize = s.unicode_len();
    let mut words: Vec<String> = Vec::new();
    let mut cur: String = String::new();
    let mut i: usize = 0;
    proof {
        assert(s@.take(0) =~= Seq::<char>::empty());
        assert(words.deep_view().push(cur@) =~~= split_chars(s@.take(0), ds));
    }
    while i < n
        invariant
            0 <= i <= n,
            n == s@.len(),
            words.deep_view().push(cur@) == split_chars(s@.take(i as int), ds),
        decreases n - i,
    {
        let ghost prefix = s@.take(i as int);
        let c = s.get_char(i);
        proof {
            lemma_split_push(prefix, c, ds);
            assert(s@.take(i + 1) =~= prefix.push(c));
        }
        if is_delim(ds, c) {
            words.push(cur);
            cur = String::new();
            proof {
                assert(words.deep_view().push(cur@) =~~= split_chars(s@.take(i + 1), ds));
            }
        } else {
            push_char(&mut cur, c);
            proof {
                assert(words.deep_view().push(cur@) =~~= split_chars(s@.take(i + 1), ds));
            }
        }
        i = i + 1;
    }
    proof {
        assert(s@.take(n as int) =~= s@);
    }
    words.push(cur);
    proof {
        assert(words.deep_view() =~~= split_chars(s@, ds));
    }
    words
}

} // verus!
