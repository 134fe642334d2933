//! Finding the one entry of a list whose name matches.
use vstd::prelude::*;

use crate::text::same_text;

verus! {

/// How many of `names` equal `q`.
pub open spec fn count_equal(names: Seq<Seq<char>>, q: Seq<char>) -> nat
    decreases names.len(),
{
    if names.len() == 0 {
        0
    } else {
        count_equal(names.drop_last(), q) + if names.last() == q { 1nat } else { 0nat }
    }
}

/// The characters of each string of `v`.
pub open spec fn texts(v: Seq<String>) -> Seq<Seq<char>> {
    v.map_values(|s: String| s@)
}

/// How a name matched a list of names.
#[derive(Clone, Copy, Debug, PartialEq, Eq, Structural)]
pub enum NameMatch {
    /// No name matched.
    Absent,
    /// Exactly one name matched, at this position.
    Unique(usize),
    /// Two or more names matched.
    Ambiguous,
}

/// Exactly one of `names` equals `q`, and it is the one at `i`.
proof fn lemma_unique_position(names: Seq<Seq<char>>, q: Seq<char>, i: int)
    requires
        0 <= i < names.len(),
        names[i] == q,
        count_equal(names, q) == 1,
    ensures
        forall|j: int| 0 <= j < names.len() && j != i ==> names[j] != q,
    decreases names.len(),
{
    let n = names.len() - 1;
    let rest = names.drop_last();
    if i == n {
        lemma_count_zero(rest, q);
        assert forall|j: int| 0 <= j < names.len() && j != i implies names[j] != q by {
            assert(rest[j] == names[j]);
        }
    } else {
        assert(rest[i] == q);
        lemma_count_positive(rest, q, i);
        lemma_unique_position(rest, q, i);
        assert forall|j: int| 0 <= j < names.len() && j != i implies names[j] != q by {
            if j < n {
                assert(rest[j] == names[j]);
            }
        }
    }
}

/// A name that occurs counts.
proof fn lemma_count_positive(names: Seq<Seq<char>>, q: Seq<char>, i: int)
    requires
        0 <= i < names.len(),
        names[i] == q,
    ensures
        count_equal(names, q) >= 1,
    decreases names.len(),
{
    let n = names.len() - 1;
    if i < n {
        assert(names.drop_last()[i] == q);
        lemma_count_positive(names.drop_last(), q, i);
    }
}

/// A count of zero means no name equals `q`.
proof fn lemma_count_zero(names: Seq<Seq<char>>, q: Seq<char>)
    requires
        count_equal(names, q) == 0,
    ensures
        forall|j: int| 0 <= j < names.len() ==> names[j] != q,
{
    assert forall|j: int| 0 <= j < names.len() implies names[j] != q by {
        if names[j] == q {
            lemma_count_positive(names, q, j);
        }
    }
}

/// Whether no name, exactly one name, or several names of `names` equal `q`.
pub fn match_name(names: &Vec<String>, q: &str) -> (r: NameMatch)
    ensures
        (r == NameMatch::Absent) <==> count_equal(texts(names@), q@) == 0,
        (r == NameMatch::Ambiguous) <==> count_equal(texts(names@), q@) >= 2,
        r matches NameMatch::Unique(i) ==> {
            &&& count_equal(texts(names@), q@) == 1
            &&& i < names@.len()
            &&& names@[i as int]@ == q@
            &&& forall|j: int| 0 <= j < names@.len() && j != i ==> names@[j]@ != q@
        },
{
    let mut count: usize = 0;
    let mut first: usize = 0;
    let mut i: usize = 0;
    while i < names.len()
        invariant
            i <= names@.len(),
            count == count_equal(texts(names@).subrange(0, i as int), q@),
            count <= i,
            count >= 1 ==> first < i && names@[first as int]@ == q@,
        decreases names@.len() - i,
    {
        assert(texts(names@).subrange(0, i + 1).drop_last() == texts(names@).subrange(0, i as int));
        if same_text(names[i].as_str(), q) {
            if count == 0 {
                first = i;
            }
            count = count + 1;
        }
        i += 1;
    }
    assert(texts(names@).subrange(0, names@.len() as int) == texts(names@));
    if count == 0 {
        NameMatch::Absent
    } else if count == 1 {
        proof {
            lemma_unique_position(texts(names@), q@, first as int);
            assert forall|j: int| 0 <= j < names@.len() && j != first implies names@[j]@ != q@ by {
                assert(texts(names@)[j] == names@[j]@);
            }
        }
        NameMatch::Unique(first)
    } else {
        NameMatch::Ambiguous
    }
}

} // verus!
