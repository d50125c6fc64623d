//! Helpers for working with collections of names: device names within a
//! room and room names within a house are both unordered sets of strings,
//! represented here as vectors whose entries are pairwise distinct.

use vstd::prelude::*;

verus! {

/// True when no two entries of `names` are equal.
pub open spec fn distinct_names(names: Seq<Seq<char>>) -> bool {
    forall|i: int, j: int| 0 <= i < j < names.len() ==> names[i] != names[j]
}

/// The sequence `names` with every repeated entry dropped: only the first
/// occurrence of each name is kept, in its original position.
pub open spec fn dedup_names(names: Seq<Seq<char>>) -> Seq<Seq<char>>
    decreases names.len(),
{
    if names.len() == 0 {
        Seq::empty()
    } else {
        let rest = dedup_names(names.drop_last());
        if rest.contains(names.last()) {
            rest
        } else {
            rest.push(names.last())
        }
    }
}

/// Deduplication keeps exactly the names that were present, and the result
/// has pairwise distinct entries.
pub proof fn lemma_dedup_names(names: Seq<Seq<char>>)
    ensures
        distinct_names(dedup_names(names)),
        forall|d: Seq<char>| #[trigger] dedup_names(names).contains(d) <==> names.contains(d),
    decreases names.len(),
{
    if names.len() == 0 {
    } else {
        let prefix = names.drop_last();
        let last = names.last();
        lemma_dedup_names(prefix);
        assert(prefix.push(last) =~= names);
        let rest = dedup_names(prefix);
        if rest.contains(last) {
            assert forall|d: Seq<char>| #[trigger] dedup_names(names).contains(d) <==> names.contains(
                d,
            ) by {
                if names.contains(d) {
                    let k = choose|k: int| 0 <= k < names.len() && names[k] == d;
                    if k < names.len() - 1 {
                        assert(prefix[k] == d);
                        assert(prefix.contains(d));
                    } else {
                        assert(d == last);
                    }
                }
            }
        } else {
            assert forall|d: Seq<char>| #[trigger] dedup_names(names).contains(d) <==> names.contains(
                d,
            ) by {
                if rest.push(last).contains(d) {
                    let k = choose|k: int| 0 <= k < rest.push(last).len() && rest.push(last)[k] == d;
                    if k < rest.len() {
                        assert(rest.contains(d));
                    } else {
                        assert(d == last);
                    }
                }
                if names.contains(d) {
                    let k = choose|k: int| 0 <= k < names.len() && names[k] == d;
                    if k < names.len() - 1 {
                        assert(prefix[k] == d);
                        assert(prefix.contains(d));
                        assert(rest.contains(d));
                        assert(rest.push(last)[choose|m: int|
                            0 <= m < rest.len() && rest[m] == d] == d);
                    } else {
                        assert(rest.push(last).last() == d);
                    }
                }
            }
            assert forall|i: int, j: int| 0 <= i < j < rest.push(last).len() implies rest.push(
                last,
            )[i] != rest.push(last)[j] by {
                if j == rest.len() as int {
                    assert(rest.push(last)[i] == rest[i]);
                    assert(rest.contains(rest[i]));
                }
            }
        }
    }
}

/// Relies on `str`'s `==` operator (`<str as PartialEq>::eq`): two string
/// slices compare equal exactly when their character sequences are equal.
#[verifier::external_body]
pub(crate) fn str_eq(a: &str, b: &str) -> (r: bool)
    ensures
        r == (a@ == b@),
{
    a == b
}

/// Whether `name` occurs among `names`.
pub(crate) fn contains_name(names: &Vec<String>, name: &str) -> (r: bool)
    ensures
        r == names.deep_view().contains(name@),
{
    let mut i: usize = 0;
    while i < names.len()
        invariant
            i <= names@.len(),
            forall|k: int| 0 <= k < i ==> names.deep_view()[k] != name@,
        decreases names@.len() - i,
    {
        if str_eq(names[i].as_str(), name) {
            assert(names.deep_view()[i as int] == name@);
            return true;
        }
        i += 1;
    }
    false
}

} // verus!
