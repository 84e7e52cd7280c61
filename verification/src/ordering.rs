//! The ordinal order on account names: case-sensitive, code point by code
//! point, and the sequences that are sorted by it.

use crate::encoding::{lemma_bytes_common_prefix, lemma_precedes_is_byte_order};
use vstd::prelude::*;
use vstd::utf8::*;

verus! {

/// `a` comes strictly before `b` in the ordinal order on names: at the
/// first place where they differ `a` has the lower code point, or `a` ends
/// there and `b` goes on.
pub open spec fn precedes(a: Seq<char>, b: Seq<char>) -> bool
    decreases a.len(),
{
    if b.len() == 0 {
        false
    } else if a.len() == 0 {
        true
    } else if a[0] != b[0] {
        (a[0] as u32) < (b[0] as u32)
    } else {
        precedes(a.drop_first(), b.drop_first())
    }
}

/// Every name of `names` comes strictly before each later one.
pub open spec fn strictly_sorted(names: Seq<Seq<char>>) -> bool {
    forall|i: int, j: int| 0 <= i < j < names.len() ==> precedes(#[trigger] names[i], #[trigger] names[j])
}

/// No name comes before itself.
pub proof fn lemma_precedes_irreflexive(a: Seq<char>)
    ensures
        !precedes(a, a),
    decreases a.len(),
{
    if a.len() > 0 {
        lemma_precedes_irreflexive(a.drop_first());
    }
}

/// The order is transitive.
pub proof fn lemma_precedes_transitive(a: Seq<char>, b: Seq<char>, c: Seq<char>)
    requires
        precedes(a, b),
        precedes(b, c),
    ensures
        precedes(a, c),
    decreases a.len(),
{
    if a.len() > 0 && a[0] == b[0] && b[0] == c[0] {
        lemma_precedes_transitive(a.drop_first(), b.drop_first(), c.drop_first());
    }
}

/// Of two names, one comes before the other or they are equal.
pub proof fn lemma_precedes_connected(a: Seq<char>, b: Seq<char>)
    ensures
        a == b || precedes(a, b) || precedes(b, a),
    decreases a.len(),
{
    if a.len() > 0 && b.len() > 0 && a[0] == b[0] {
        lemma_precedes_connected(a.drop_first(), b.drop_first());
        if a.drop_first() == b.drop_first() {
            assert(a =~= seq![a[0]] + a.drop_first());
            assert(b =~= seq![b[0]] + b.drop_first());
        }
    } else if a.len() == 0 && b.len() == 0 {
        assert(a =~= b);
    } else if a.len() > 0 && b.len() > 0 {
        char_u32_cast(a[0], a[0] as u32);
        char_u32_cast(b[0], b[0] as u32);
    }
}

/// A strictly sorted sequence holds no name twice.
pub proof fn lemma_sorted_no_duplicates(names: Seq<Seq<char>>)
    requires
        strictly_sorted(names),
    ensures
        names.no_duplicates(),
{
    assert forall|i: int, j: int|
        0 <= i < names.len() && 0 <= j < names.len() && i != j implies names[i] != names[j] by {
        lemma_precedes_irreflexive(names[i]);
        if i < j {
            assert(precedes(names[i], names[j]));
        } else {
            assert(precedes(names[j], names[i]));
        }
    }
}

/// The first name of a strictly sorted sequence is the first name of every
/// strictly sorted sequence of the same names.
proof fn lemma_sorted_first(a: Seq<Seq<char>>, b: Seq<Seq<char>>)
    requires
        strictly_sorted(a),
        strictly_sorted(b),
        a.to_set() == b.to_set(),
        a.len() > 0,
        b.len() > 0,
    ensures
        a[0] == b[0],
{
    assert(a.contains(a[0]));
    assert(b.to_set().contains(a[0]));
    let k = choose|k: int| 0 <= k < b.len() && b[k] == a[0];
    assert(b.contains(b[0]));
    assert(a.to_set().contains(b[0]));
    let m = choose|m: int| 0 <= m < a.len() && a[m] == b[0];
    if k > 0 {
        assert(precedes(b[0], b[k]));
        lemma_precedes_irreflexive(a[0]);
        if m > 0 {
            assert(precedes(a[0], a[m]));
            lemma_precedes_transitive(a[0], a[m], a[0]);
        }
    }
}

/// What remains of `a` after its first name is found in what remains of `b`.
proof fn lemma_sorted_rest(a: Seq<Seq<char>>, b: Seq<Seq<char>>, name: Seq<char>)
    requires
        strictly_sorted(a),
        strictly_sorted(b),
        a.to_set() == b.to_set(),
        a.len() > 0,
        b.len() > 0,
        a[0] == b[0],
        a.drop_first().contains(name),
    ensures
        b.drop_first().contains(name),
{
    let i = choose|i: int| 0 <= i < a.drop_first().len() && a.drop_first()[i] == name;
    assert(a[i + 1] == name);
    assert(a.contains(name));
    assert(b.to_set().contains(name));
    let k = choose|k: int| 0 <= k < b.len() && b[k] == name;
    lemma_sorted_no_duplicates(a);
    assert(a[0] != a[i + 1]);
    assert(k > 0);
    assert(b.drop_first()[k - 1] == name);
}

/// A set of names has at most one strictly sorted sequence.
pub proof fn lemma_sorted_unique(a: Seq<Seq<char>>, b: Seq<Seq<char>>)
    requires
        strictly_sorted(a),
        strictly_sorted(b),
        a.to_set() == b.to_set(),
    ensures
        a == b,
    decreases a.len(),
{
    lemma_sorted_no_duplicates(a);
    lemma_sorted_no_duplicates(b);
    a.unique_seq_to_set();
    b.unique_seq_to_set();
    if a.len() == 0 {
        assert(a =~= b);
    } else {
        lemma_sorted_first(a, b);
        let a1 = a.drop_first();
        let b1 = b.drop_first();
        assert(strictly_sorted(a1)) by {
            assert forall|i: int, j: int| 0 <= i < j < a1.len() implies precedes(
                #[trigger] a1[i],
                #[trigger] a1[j],
            ) by {
                assert(precedes(a[i + 1], a[j + 1]));
            }
        }
        assert(strictly_sorted(b1)) by {
            assert forall|i: int, j: int| 0 <= i < j < b1.len() implies precedes(
                #[trigger] b1[i],
                #[trigger] b1[j],
            ) by {
                assert(precedes(b[i + 1], b[j + 1]));
            }
        }
        assert forall|name: Seq<char>| a1.to_set().contains(name) == b1.to_set().contains(
            name,
        ) by {
            if a1.contains(name) {
                lemma_sorted_rest(a, b, name);
            }
            if b1.contains(name) {
                lemma_sorted_rest(b, a, name);
            }
        }
        assert(a1.to_set() =~= b1.to_set());
        lemma_sorted_unique(a1, b1);
        assert(a =~= seq![a[0]] + a1);
        assert(b =~= seq![b[0]] + b1);
    }
}

/// A name put between the names before it and the names after it keeps
/// the sequence strictly sorted, and adds itself to its names.
pub proof fn lemma_insert_sorted(before: Seq<Seq<char>>, at: int, name: Seq<char>)
    requires
        strictly_sorted(before),
        0 <= at <= before.len(),
        forall|i: int| 0 <= i < at ==> precedes(#[trigger] before[i], name),
        forall|i: int| at <= i < before.len() ==> precedes(name, #[trigger] before[i]),
    ensures
        strictly_sorted(before.insert(at, name)),
        before.insert(at, name).to_set() == before.to_set().insert(name),
{
    let after = before.insert(at, name);
    assert forall|i: int, j: int| 0 <= i < j < after.len() implies precedes(
        #[trigger] after[i],
        #[trigger] after[j],
    ) by {
        if j < at {
            assert(precedes(before[i], before[j]));
        } else if j == at {
            assert(precedes(before[i], name));
        } else if i > at {
            assert(precedes(before[i - 1], before[j - 1]));
        } else if i == at {
            assert(precedes(name, before[j - 1]));
        } else {
            assert(precedes(before[i], name));
            assert(precedes(name, before[j - 1]));
            lemma_precedes_transitive(before[i], name, before[j - 1]);
        }
    }
    assert forall|other: Seq<char>| after.to_set().contains(other) == before.to_set().insert(
        name,
    ).contains(other) by {
        if after.contains(other) {
            let i = choose|i: int| 0 <= i < after.len() && after[i] == other;
            if i < at {
                assert(before[i] == other);
            } else if i > at {
                assert(before[i - 1] == other);
            }
        }
        if before.contains(other) {
            let i = choose|i: int| 0 <= i < before.len() && before[i] == other;
            if i < at {
                assert(after[i] == other);
            } else {
                assert(after[i + 1] == other);
            }
        }
        if other == name {
            assert(after[at] == other);
        }
    }
    assert(after.to_set() =~= before.to_set().insert(name));
}

/// The strictly sorted sequence of the names of `names`.
pub open spec fn ascending_sequence(names: Set<Seq<char>>) -> Seq<Seq<char>> {
    choose|sorted: Seq<Seq<char>>| strictly_sorted(sorted) && sorted.to_set() == names
}

/// A strictly sorted sequence is the ascending sequence of its names.
pub proof fn lemma_ascending_sequence_unique(names: Set<Seq<char>>, sorted: Seq<Seq<char>>)
    requires
        strictly_sorted(sorted),
        sorted.to_set() == names,
    ensures
        ascending_sequence(names) == sorted,
{
    lemma_sorted_unique(ascending_sequence(names), sorted);
}

/// How many names of `sorted` come before `name`.
spec fn rank(sorted: Seq<Seq<char>>, name: Seq<char>) -> int
    decreases sorted.len(),
{
    if sorted.len() == 0 {
        0
    } else if precedes(sorted.last(), name) {
        sorted.len() as int
    } else {
        rank(sorted.drop_last(), name)
    }
}

proof fn lemma_rank(sorted: Seq<Seq<char>>, name: Seq<char>)
    requires
        strictly_sorted(sorted),
    ensures
        0 <= rank(sorted, name) <= sorted.len(),
        forall|i: int| 0 <= i < rank(sorted, name) ==> precedes(#[trigger] sorted[i], name),
        forall|i: int|
            rank(sorted, name) <= i < sorted.len() ==> !precedes(#[trigger] sorted[i], name),
    decreases sorted.len(),
{
    if sorted.len() > 0 {
        let last = sorted.len() - 1;
        if precedes(sorted.last(), name) {
            assert forall|i: int| 0 <= i < sorted.len() implies precedes(
                #[trigger] sorted[i],
                name,
            ) by {
                if i < last {
                    assert(precedes(sorted[i], sorted[last]));
                    lemma_precedes_transitive(sorted[i], sorted[last], name);
                }
            }
        } else {
            let shorter = sorted.drop_last();
            assert forall|i: int, j: int| 0 <= i < j < shorter.len() implies precedes(
                #[trigger] shorter[i],
                #[trigger] shorter[j],
            ) by {
                assert(precedes(sorted[i], sorted[j]));
            }
            lemma_rank(shorter, name);
            assert forall|i: int| 0 <= i < rank(sorted, name) implies precedes(
                #[trigger] sorted[i],
                name,
            ) by {
                assert(precedes(shorter[i], name));
            }
            assert forall|i: int| rank(sorted, name) <= i < sorted.len() implies !precedes(
                #[trigger] sorted[i],
                name,
            ) by {
                if i < last {
                    assert(!precedes(shorter[i], name));
                }
            }
        }
    }
}

/// Every finite set of names has a strictly sorted sequence.
pub proof fn lemma_ascending_sequence_exists(names: Set<Seq<char>>)
    requires
        names.finite(),
    ensures
        strictly_sorted(ascending_sequence(names)),
        ascending_sequence(names).to_set() == names,
    decreases names.len(),
{
    if names.len() == 0 {
        let none = Seq::<Seq<char>>::empty();
        assert(names =~= Set::<Seq<char>>::empty());
        assert(none.to_set() =~= names);
        assert(strictly_sorted(none));
    } else {
        let name = names.choose();
        let fewer = names.remove(name);
        lemma_ascending_sequence_exists(fewer);
        let sorted = ascending_sequence(fewer);
        lemma_rank(sorted, name);
        let at = rank(sorted, name);
        assert forall|i: int| at <= i < sorted.len() implies precedes(name, #[trigger] sorted[i]) by {
            assert(sorted.contains(sorted[i]));
            assert(fewer.contains(sorted[i]));
            lemma_precedes_connected(name, sorted[i]);
        }
        lemma_insert_sorted(sorted, at, name);
        assert(fewer.insert(name) =~= names);
        assert(strictly_sorted(sorted.insert(at, name)) && sorted.insert(at, name).to_set() == names);
    }
}

/// Decides the ordinal order of two names.
pub fn name_less(a: &str, b: &str) -> (less: bool)
    ensures
        less == precedes(a@, b@),
{
    let x = a.as_bytes();
    let y = b.as_bytes();
    let n: usize = x.len();
    let m: usize = y.len();
    let mut i: usize = 0;
    while i < n && i < m
        invariant
            i <= n,
            i <= m,
            n == x@.len(),
            m == y@.len(),
            x@ == encode_utf8(a@),
            y@ == encode_utf8(b@),
            forall|j: int| 0 <= j < i ==> x@[j] == y@[j],
        decreases n - i,
    {
        if x[i] != y[i] {
            proof {
                lemma_bytes_common_prefix(x@, y@, i as int);
                assert(x@.skip(i as int)[0] == x@[i as int]);
                assert(y@.skip(i as int)[0] == y@[i as int]);
                lemma_precedes_is_byte_order(a@, b@);
            }
            return x[i] < y[i];
        }
        i = i + 1;
    }
    proof {
        lemma_bytes_common_prefix(x@, y@, i as int);
        lemma_precedes_is_byte_order(a@, b@);
    }
    i < m
}

} // verus!
