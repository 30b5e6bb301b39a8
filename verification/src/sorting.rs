//! References in the order in which they are listed: by path, then line,
//! then column.

use vstd::prelude::*;
use vstd::string::*;
use vstd::utf8::encode_utf8;
use vstd::seq_lib::{to_multiset_insert, to_multiset_remove};
use crate::entities::ReferenceInfo;
use crate::strings::{
    bytes_before, is_before, lemma_before_irreflexive, lemma_before_transitive,
};

verus! {

/// `a` is listed before `b`: its path comes first in the order of byte
/// strings, or the paths are the same and its line is smaller, or path and
/// line are the same and its column is smaller.
pub open spec fn listed_before(a: ReferenceInfo, b: ReferenceInfo) -> bool {
    ||| bytes_before(encode_utf8(a.file_path@), encode_utf8(b.file_path@))
    ||| (a.file_path@ == b.file_path@ && a.line < b.line)
    ||| (a.file_path@ == b.file_path@ && a.line == b.line && a.column < b.column)
}

/// No reference is listed behind one that it is listed before.
pub open spec fn in_listing_order(references: Seq<ReferenceInfo>) -> bool {
    forall|i: int, j: int|
        0 <= i < j < references.len() ==> !listed_before(
            #[trigger] references[j],
            #[trigger] references[i],
        )
}

/// Nothing is listed before itself.
pub proof fn lemma_listed_irreflexive(a: ReferenceInfo)
    ensures
        !listed_before(a, a),
{
    lemma_before_irreflexive(encode_utf8(a.file_path@));
}

/// What is listed before a reference is listed before all that the
/// reference is listed before.
pub proof fn lemma_listed_transitive(a: ReferenceInfo, b: ReferenceInfo, c: ReferenceInfo)
    requires
        listed_before(a, b),
        listed_before(b, c),
    ensures
        listed_before(a, c),
{
    let pa = encode_utf8(a.file_path@);
    let pb = encode_utf8(b.file_path@);
    let pc = encode_utf8(c.file_path@);
    if bytes_before(pa, pb) && bytes_before(pb, pc) {
        lemma_before_transitive(pa, pb, pc);
    }
}

/// Whether `a` is listed before `b`.
pub fn is_listed_before(a: &ReferenceInfo, b: &ReferenceInfo) -> (before: bool)
    ensures
        before == listed_before(*a, *b),
{
    let pa = a.file_path.as_str().as_bytes();
    let pb = b.file_path.as_str().as_bytes();
    if is_before(pa, pb) {
        return true;
    }
    if a.file_path == b.file_path {
        proof {
            lemma_before_irreflexive(pa@);
        }
        a.line < b.line || (a.line == b.line && a.column < b.column)
    } else {
        false
    }
}

/// The references in listing order. References of which none is listed
/// before the other keep the order they came in.
pub fn sort_references(references: Vec<ReferenceInfo>) -> (sorted: Vec<ReferenceInfo>)
    ensures
        in_listing_order(sorted@),
        sorted@.to_multiset() == references@.to_multiset(),
{
    let ghost all = references@;
    let mut rest = references;
    let mut sorted: Vec<ReferenceInfo> = Vec::new();
    proof {
        assert(sorted@.to_multiset().add(rest@.to_multiset()) =~= all.to_multiset()) by {
            vstd::seq_lib::lemma_multiset_commutative(sorted@, rest@);
            assert(sorted@ + rest@ =~= rest@);
        }
    }
    while rest.len() > 0
        invariant
            in_listing_order(sorted@),
            sorted@.to_multiset().add(rest@.to_multiset()) == all.to_multiset(),
        decreases rest.len(),
    {
        let ghost rest_before = rest@;
        let ghost sorted_before = sorted@;
        let next = rest.remove(0);
        let mut at: usize = 0;
        while at < sorted.len() && !is_listed_before(&next, &sorted[at])
            invariant
                at <= sorted@.len(),
                forall|k: int| 0 <= k < at ==> !listed_before(next, #[trigger] sorted@[k]),
            decreases sorted.len() - at,
        {
            at = at + 1;
        }
        sorted.insert(at, next);
        proof {
            broadcast use vstd::multiset::group_multiset_axioms;

            to_multiset_remove(rest_before, 0);
            to_multiset_insert(sorted_before, at as int, next);
            rest_before.to_multiset_ensures();
            assert(rest_before[0] == next);
            assert(rest_before.contains(next));
            assert(rest_before.to_multiset().count(next) > 0);
            assert(sorted@.to_multiset().add(rest@.to_multiset()) =~= sorted_before.to_multiset().add(
                rest_before.to_multiset(),
            ));
            assert forall|i: int, j: int| 0 <= i < j < sorted@.len() implies !listed_before(
                #[trigger] sorted@[j],
                #[trigger] sorted@[i],
            ) by {
                if j == at {
                    assert(sorted@[i] == sorted_before[i]);
                } else if i == at {
                    let behind = sorted_before[j - 1];
                    let first = sorted_before[at as int];
                    if listed_before(behind, next) {
                        lemma_listed_transitive(behind, next, first);
                        lemma_listed_irreflexive(first);
                        if j - 1 > at {
                            assert(!listed_before(sorted_before[j - 1], sorted_before[at as int]));
                        }
                    }
                } else {
                    let old_i = if i < at {
                        i
                    } else {
                        i - 1
                    };
                    let old_j = if j < at {
                        j
                    } else {
                        j - 1
                    };
                    assert(sorted@[i] == sorted_before[old_i]);
                    assert(sorted@[j] == sorted_before[old_j]);
                }
            }
        }
    }
    proof {
        assert(rest@.to_multiset() =~= vstd::multiset::Multiset::<ReferenceInfo>::empty()) by {
            rest@.to_multiset_ensures();
        }
        assert(sorted@.to_multiset().add(rest@.to_multiset()) =~= sorted@.to_multiset());
    }
    sorted
}

} // verus!
