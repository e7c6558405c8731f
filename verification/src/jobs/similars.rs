//! For a stored embedding, the most similar other one. The similarities are
//! computed by the application, which hands each here as an integer that
//! orders as the similarity does (none for the embedding itself, or when the
//! similarity is not a number); the choice is made here.
use vstd::prelude::*;

verus! {

/// Whether candidate `j` counts: it has a similarity above `floor`.
pub open spec fn counts(scores: Seq<Option<u64>>, floor: u64, j: int) -> bool {
    0 <= j < scores.len() && match scores[j] {
        Some(k) => k > floor,
        None => false,
    }
}

/// The similarity of candidate `j`, 0 when it has none.
pub open spec fn similarity_of(scores: Seq<Option<u64>>, j: int) -> u64 {
    match scores[j] {
        Some(k) => k,
        None => 0,
    }
}

/// The candidate chosen by a scan in order that keeps the first strictly
/// better candidate and stops as soon as one reaches `ceiling`: no candidate
/// counts when nothing is chosen; otherwise the chosen one counts, every
/// earlier one that counts is below it and below `ceiling`, and it either
/// reaches `ceiling` or no later one is above it.
pub open spec fn is_most_similar(
    scores: Seq<Option<u64>>,
    floor: u64,
    ceiling: u64,
    chosen: Option<usize>,
) -> bool {
    match chosen {
        None => forall|l: int| !#[trigger] counts(scores, floor, l),
        Some(j) => {
            &&& counts(scores, floor, j as int)
            &&& forall|l: int|
                0 <= l < j && #[trigger] counts(scores, floor, l) ==> similarity_of(scores, l)
                    < similarity_of(scores, j as int) && similarity_of(scores, l) < ceiling
            &&& (similarity_of(scores, j as int) >= ceiling || forall|l: int|
                j < l && #[trigger] counts(scores, floor, l) ==> similarity_of(scores, l)
                    <= similarity_of(scores, j as int))
        },
    }
}

/// What the choice is, in terms of the similarities themselves: with no
/// choice, no similarity is above `floor`; otherwise the chosen one is above
/// `floor`, every earlier one is below it and below `ceiling`, and either it
/// reaches `ceiling` or none is above it.
pub proof fn lemma_most_similar_by_score(
    scores: Seq<Option<u64>>,
    floor: u64,
    ceiling: u64,
    chosen: Option<usize>,
)
    requires
        is_most_similar(scores, floor, ceiling, chosen),
    ensures
        match chosen {
            None => forall|l: int| 0 <= l < scores.len() && #[trigger] scores[l] is Some ==> scores[l]->0 <= floor,
            Some(j) => {
                &&& (j as int) < scores.len()
                &&& scores[j as int] is Some
                &&& scores[j as int]->0 > floor
                &&& forall|l: int|
                    0 <= l < j && #[trigger] scores[l] is Some && scores[l]->0 > floor ==> scores[l]->0
                        < scores[j as int]->0 && scores[l]->0 < ceiling
                &&& (scores[j as int]->0 >= ceiling || forall|l: int|
                    0 <= l < scores.len() && #[trigger] scores[l] is Some && scores[l]->0 > floor
                        ==> scores[l]->0 <= scores[j as int]->0)
            },
        },
{
    match chosen {
        None => {
            assert forall|l: int| 0 <= l < scores.len() && #[trigger] scores[l] is Some implies scores[l]->0 <= floor by {
                assert(!counts(scores, floor, l));
            }
        },
        Some(j) => {
            assert forall|l: int|
                0 <= l < j && #[trigger] scores[l] is Some && scores[l]->0 > floor implies scores[l]->0
                    < scores[j as int]->0 && scores[l]->0 < ceiling by {
                assert(counts(scores, floor, l));
            }
            if scores[j as int]->0 < ceiling {
                assert forall|l: int|
                    0 <= l < scores.len() && #[trigger] scores[l] is Some && scores[l]->0 > floor implies scores[l]->0
                        <= scores[j as int]->0 by {
                    assert(counts(scores, floor, l));
                }
            }
        },
    }
}

/// The most similar candidate (see `is_most_similar`): the best similarity
/// above `floor`, the first of equals, or the first that reaches `ceiling`.
pub fn most_similar(scores: &Vec<Option<u64>>, floor: u64, ceiling: u64) -> (chosen: Option<usize>)
    requires
        floor < ceiling,
    ensures
        is_most_similar(scores@, floor, ceiling, chosen),
{
    let mut best: Option<usize> = None;
    let mut best_score: u64 = floor;
    let mut j: usize = 0;
    while j < scores.len()
        invariant_except_break
            best_score < ceiling,
        invariant
            j <= scores@.len(),
            floor < ceiling,
            match best {
                None => best_score == floor && forall|l: int|
                    0 <= l < j ==> !#[trigger] counts(scores@, floor, l),
                Some(b) => {
                    &&& b < j
                    &&& counts(scores@, floor, b as int)
                    &&& best_score == similarity_of(scores@, b as int)
                    &&& forall|l: int|
                        0 <= l < b && #[trigger] counts(scores@, floor, l) ==> similarity_of(
                            scores@,
                            l,
                        ) < best_score && similarity_of(scores@, l) < ceiling
                    &&& forall|l: int|
                        b < l < j && #[trigger] counts(scores@, floor, l) ==> similarity_of(
                            scores@,
                            l,
                        ) <= best_score
                },
            },
        ensures
            is_most_similar(scores@, floor, ceiling, best),
        decreases scores.len() - j,
    {
        match scores[j] {
            Some(score) => {
                if score > best_score {
                    best = Some(j);
                    best_score = score;
                }
            },
            None => {},
        }
        j = j + 1;
        if best_score >= ceiling {
            break;
        }
    }
    best
}

} // verus!
