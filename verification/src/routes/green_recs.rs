//! `POST /green_recs`: recommending listings close to a description.
//! The similarity scores are computed by the application, which hands each
//! listing's score here as an integer that orders as the score does; the
//! choice and order of the recommendations is made here.
use vstd::prelude::*;

verus! {

/// The description to find listings for.
pub struct GreenRecData {
    pub description: String,
}

/// How closeness is measured.
#[derive(Clone, Copy, Debug, PartialEq, Eq, Structural)]
pub enum SimilarityOptions {
    Cosine,
    Euclidean,
    Manhattan,
}

/// The query string: the measure, if one is chosen.
pub struct GreenRecQuery {
    pub similarity: Option<SimilarityOptions>,
}

/// How many listings are compared with the description.
pub const CANDIDATE_LIMIT: u32 = 150;

/// How many recommendations are returned.
pub const RECOMMENDATION_COUNT: usize = 5;

impl GreenRecQuery {
    /// The measure chosen, cosine similarity when none is.
    pub fn similarity_option(&self) -> (res: SimilarityOptions)
        ensures
            res == match self.similarity {
                Some(s) => s,
                None => SimilarityOptions::Cosine,
            },
    {
        match self.similarity {
            Some(s) => s,
            None => SimilarityOptions::Cosine,
        }
    }
}

/// Whether listing `i` can be recommended: it exists and has a score (a
/// listing without an embedding has none).
pub open spec fn is_candidate(keys: Seq<Option<u32>>, i: int) -> bool {
    0 <= i < keys.len() && keys[i] is Some
}

/// The score of listing `i`, -1 when it has none.
pub open spec fn score_of(keys: Seq<Option<u32>>, i: int) -> int {
    match keys[i] {
        Some(k) => k as int,
        None => -1,
    }
}

/// Whether listing `a` is ranked before listing `b`: a higher score first,
/// and of two equal scores the earlier listing first.
pub open spec fn ranks_before(keys: Seq<Option<u32>>, a: int, b: int) -> bool {
    score_of(keys, a) > score_of(keys, b) || (score_of(keys, a) == score_of(keys, b) && a < b)
}

/// Whether `chosen` is the start of the ranking of the candidates, as long
/// as it can be up to `count`: every entry is a candidate, the entries are
/// in ranking order, there are at most `count` of them, and a candidate left
/// out is ranked after all of them, with `count` entries taken.
pub open spec fn is_top_ranked(keys: Seq<Option<u32>>, count: nat, chosen: Seq<usize>) -> bool {
    &&& forall|i: int| 0 <= i < chosen.len() ==> is_candidate(keys, #[trigger] chosen[i] as int)
    &&& forall|i: int, j: int|
        0 <= i < j < chosen.len() ==> ranks_before(keys, #[trigger] chosen[i] as int, #[trigger] chosen[j] as int)
    &&& chosen.len() <= count
    &&& forall|x: int|
        is_candidate(keys, x) && !chosen.contains(x as usize) ==> chosen.len() == count && forall|i: int|
            0 <= i < chosen.len() ==> ranks_before(keys, #[trigger] chosen[i] as int, x)
}

/// What a ranking of the candidates is, in terms of the scores themselves:
/// every listing in it has a score, scores never rise along it, equal
/// scores keep listing order, and a scored listing left out scores no more
/// than any listing in it, which then holds `count` listings.
pub proof fn lemma_top_ranked_by_score(keys: Seq<Option<u32>>, count: nat, chosen: Seq<usize>)
    requires
        is_top_ranked(keys, count, chosen),
    ensures
        forall|i: int| 0 <= i < chosen.len() ==> (#[trigger] chosen[i] as int) < keys.len() && keys[chosen[i] as int] is Some,
        forall|i: int, j: int|
            0 <= i < j < chosen.len() ==> {
                let a = keys[#[trigger] chosen[i] as int]->0;
                let b = keys[#[trigger] chosen[j] as int]->0;
                a > b || (a == b && chosen[i] < chosen[j])
            },
        forall|x: int|
            0 <= x < keys.len() && keys[x] is Some && !chosen.contains(x as usize) ==> chosen.len() == count
                && forall|i: int| 0 <= i < chosen.len() ==> keys[#[trigger] chosen[i] as int]->0 >= keys[x]->0,
{
    assert forall|x: int|
        0 <= x < keys.len() && keys[x] is Some && !chosen.contains(x as usize) implies chosen.len() == count
            && forall|i: int| 0 <= i < chosen.len() ==> keys[#[trigger] chosen[i] as int]->0 >= keys[x]->0 by {
        assert(is_candidate(keys, x));
        assert forall|i: int| 0 <= i < chosen.len() implies keys[#[trigger] chosen[i] as int]->0 >= keys[x]->0 by {
            assert(ranks_before(keys, chosen[i] as int, x));
            assert(is_candidate(keys, chosen[i] as int));
        }
    }
    assert forall|i: int, j: int| 0 <= i < j < chosen.len() implies {
        let a = keys[#[trigger] chosen[i] as int]->0;
        let b = keys[#[trigger] chosen[j] as int]->0;
        a > b || (a == b && chosen[i] < chosen[j])
    } by {
        assert(ranks_before(keys, chosen[i] as int, chosen[j] as int));
        assert(is_candidate(keys, chosen[i] as int) && is_candidate(keys, chosen[j] as int));
    }
}

/// The listings to recommend, by index: those with a score, best first,
/// ties in listing order, at most `count` of them (see `is_top_ranked`).
pub fn rank_closest(keys: &Vec<Option<u32>>, count: usize) -> (chosen: Vec<usize>)
    ensures
        is_top_ranked(keys@, count as nat, chosen@),
{
    let n = keys.len();
    let mut taken: Vec<bool> = Vec::new();
    let mut k: usize = 0;
    while k < n
        invariant
            k <= n,
            n == keys@.len(),
            taken@.len() == k,
            forall|x: int| 0 <= x < k ==> !#[trigger] taken@[x],
        decreases n - k,
    {
        taken.push(false);
        k = k + 1;
    }
    let mut chosen: Vec<usize> = Vec::new();
    loop
        invariant
            n == keys@.len(),
            taken@.len() == n,
            forall|x: int| 0 <= x < n ==> (#[trigger] taken@[x] <==> chosen@.contains(x as usize)),
            forall|i: int| 0 <= i < chosen@.len() ==> is_candidate(keys@, #[trigger] chosen@[i] as int),
            forall|i: int, j: int|
                0 <= i < j < chosen@.len() ==> ranks_before(
                    keys@,
                    #[trigger] chosen@[i] as int,
                    #[trigger] chosen@[j] as int,
                ),
            chosen@.len() <= count,
            forall|x: int|
                is_candidate(keys@, x) && !#[trigger] taken@[x] ==> forall|i: int|
                    0 <= i < chosen@.len() ==> ranks_before(keys@, #[trigger] chosen@[i] as int, x),
        ensures
            is_top_ranked(keys@, count as nat, chosen@),
        decreases count - chosen@.len(),
    {
        if chosen.len() >= count {
            assert forall|x: int| is_candidate(keys@, x) && !chosen@.contains(x as usize) implies chosen@.len()
                == count && forall|i: int|
                0 <= i < chosen@.len() ==> ranks_before(keys@, #[trigger] chosen@[i] as int, x) by {
                assert(!taken@[x]);
            }
            break;
        }
        let mut best: Option<usize> = None;
        let mut i: usize = 0;
        while i < n
            invariant
                i <= n,
                n == keys@.len(),
                taken@.len() == n,
                match best {
                    None => forall|y: int| 0 <= y < i ==> !(is_candidate(keys@, y) && !#[trigger] taken@[y]),
                    Some(b) => b < i && is_candidate(keys@, b as int) && !taken@[b as int] && forall|y: int|
                        0 <= y < i && is_candidate(keys@, y) && !#[trigger] taken@[y] && y != b
                            ==> ranks_before(keys@, b as int, y),
                },
            decreases n - i,
        {
            if !taken[i] {
                match keys[i] {
                    Some(key) => {
                        match best {
                            None => {
                                best = Some(i);
                            },
                            Some(b) => {
                                let better = match keys[b] {
                                    Some(best_key) => key > best_key,
                                    None => true,
                                };
                                if better {
                                    best = Some(i);
                                }
                            },
                        }
                    },
                    None => {},
                }
            }
            i = i + 1;
        }
        match best {
            None => {
                assert forall|x: int| is_candidate(keys@, x) && !chosen@.contains(x as usize) implies chosen@.len()
                    == count && forall|i: int|
                    0 <= i < chosen@.len() ==> ranks_before(keys@, #[trigger] chosen@[i] as int, x) by {
                    assert(!taken@[x]);
                }
                break;
            },
            Some(b) => {
                let ghost before = chosen@;
                chosen.push(b);
                taken.set(b, true);
                assert forall|x: int| 0 <= x < n implies (#[trigger] taken@[x] <==> chosen@.contains(
                    x as usize,
                )) by {
                    if x == b as int {
                        assert(chosen@[before.len() as int] == b);
                    } else {
                        if before.contains(x as usize) {
                            let w = choose|w: int| 0 <= w < before.len() && before[w] == x as usize;
                            assert(chosen@[w] == x as usize);
                        }
                        if chosen@.contains(x as usize) {
                            let w = choose|w: int| 0 <= w < chosen@.len() && chosen@[w] == x as usize;
                            assert(w < before.len());
                            assert(before[w] == x as usize);
                        }
                    }
                }
                assert forall|i: int, j: int| 0 <= i < j < chosen@.len() implies ranks_before(
                    keys@,
                    #[trigger] chosen@[i] as int,
                    #[trigger] chosen@[j] as int,
                ) by {
                    if j < before.len() {
                        assert(chosen@[i] == before[i] && chosen@[j] == before[j]);
                    } else {
                        assert(chosen@[i] == before[i]);
                    }
                }
                assert forall|x: int| is_candidate(keys@, x) && !#[trigger] taken@[x] implies forall|i: int|
                    0 <= i < chosen@.len() ==> ranks_before(keys@, #[trigger] chosen@[i] as int, x) by {
                    assert forall|i: int| 0 <= i < chosen@.len() implies ranks_before(
                        keys@,
                        #[trigger] chosen@[i] as int,
                        x,
                    ) by {
                        if i < before.len() {
                            assert(chosen@[i] == before[i]);
                        }
                    }
                }
            },
        }
    }
    chosen
}

} // verus!
