use vstd::prelude::*;

use crate::ident::{names, Ident};

verus! {

pub open spec fn min_of(x: nat, y: nat) -> nat {
    if x <= y {
        x
    } else {
        y
    }
}

/// Edit distance between the first `i` characters of `a` and the first `j`
/// characters of `b`: insertions, deletions and substitutions cost one each.
pub open spec fn prefix_distance(a: Seq<char>, b: Seq<char>, i: nat, j: nat) -> nat
    decreases i + j,
{
    if i == 0 {
        j
    } else if j == 0 {
        i
    } else {
        let cost: nat = if a[i - 1] == b[j - 1] {
            0
        } else {
            1
        };
        min_of(
            min_of(
                prefix_distance(a, b, (i - 1) as nat, j) + 1,
                prefix_distance(a, b, i, (j - 1) as nat) + 1,
            ),
            prefix_distance(a, b, (i - 1) as nat, (j - 1) as nat) + cost,
        )
    }
}

/// Character-level Levenshtein distance.
pub open spec fn edit_distance(a: Seq<char>, b: Seq<char>) -> nat {
    prefix_distance(a, b, a.len(), b.len())
}

proof fn lemma_prefix_distance_bound(a: Seq<char>, b: Seq<char>, i: nat, j: nat)
    ensures
        prefix_distance(a, b, i, j) <= if i <= j {
            j
        } else {
            i
        },
    decreases i + j,
{
    if i > 0 && j > 0 {
        lemma_prefix_distance_bound(a, b, (i - 1) as nat, (j - 1) as nat);
    }
}

/// Computes the edit distance between two character sequences, one row of the
/// distance table at a time.
pub fn distance(a: &Vec<char>, b: &Vec<char>) -> (r: usize)
    ensures
        r == edit_distance(a@, b@),
{
    let n = a.len();
    let m = b.len();
    if n == 0 {
        return m;
    }
    if m == 0 {
        return n;
    }
    // row[k] holds the distance for a prefix of `b` of length k + 1.
    let mut row: Vec<usize> = Vec::new();
    let mut k: usize = 0;
    while k < m
        invariant
            m == b@.len(),
            k <= m,
            row@.len() == k,
            forall|t: int| 0 <= t < k ==> row@[t] == prefix_distance(a@, b@, 0, (t + 1) as nat),
        decreases m - k,
    {
        row.push(k + 1);
        k = k + 1;
    }
    let mut i: usize = 0;
    while i < n
        invariant
            n == a@.len(),
            m == b@.len(),
            m > 0,
            i <= n,
            row@.len() == m,
            forall|t: int| 0 <= t < m ==> row@[t] == prefix_distance(a@, b@, i as nat, (t + 1) as nat),
        decreases n - i,
    {
        let mut diag: usize = i;
        let mut left: usize = i + 1;
        let mut k: usize = 0;
        while k < m
            invariant
                n == a@.len(),
                m == b@.len(),
                i < n,
                k <= m,
                row@.len() == m,
                diag == prefix_distance(a@, b@, i as nat, k as nat),
                left == prefix_distance(a@, b@, (i + 1) as nat, k as nat),
                forall|t: int| 0 <= t < k ==> row@[t] == prefix_distance(a@, b@, (i + 1) as nat, (t + 1) as nat),
                forall|t: int| k <= t < m ==> row@[t] == prefix_distance(a@, b@, i as nat, (t + 1) as nat),
            decreases m - k,
        {
            proof {
                lemma_prefix_distance_bound(a@, b@, i as nat, k as nat);
            }
            let up = row[k];
            let cost: usize = if a[i] == b[k] {
                0
            } else {
                1
            };
            let x = diag + cost;
            let m0 = if up <= left {
                up
            } else {
                left
            };
            let val = if m0 < x {
                m0 + 1
            } else {
                x
            };
            assert(val == prefix_distance(a@, b@, (i + 1) as nat, (k + 1) as nat));
            row.set(k, val);
            diag = up;
            left = val;
            k = k + 1;
        }
        i = i + 1;
    }
    row[m - 1]
}

} // verus!

verus! {

/// `k` is the position of the candidate nearest to `target`: no candidate is
/// nearer, and every earlier candidate is strictly farther.
pub open spec fn is_nearest(target: Seq<char>, candidates: Seq<Seq<char>>, k: int) -> bool {
    &&& 0 <= k < candidates.len()
    &&& forall|t: int|
        0 <= t < candidates.len() ==> edit_distance(target, candidates[k]) <= edit_distance(
            target,
            #[trigger] candidates[t],
        )
    &&& forall|t: int|
        0 <= t < k ==> edit_distance(target, #[trigger] candidates[t]) > edit_distance(
            target,
            candidates[k],
        )
}

/// Finds the candidate nearest to `target` by edit distance; ties go to the
/// earliest candidate. There is none only when there are no candidates.
pub fn nearest(target: &Vec<char>, candidates: &Vec<Ident>) -> (r: Option<usize>)
    ensures
        r is None <==> candidates@.len() == 0,
        r matches Some(k) ==> is_nearest(target@, names(candidates@), k as int),
{
    if candidates.len() == 0 {
        return None;
    }
    let ghost cands = names(candidates@);
    let mut best: usize = 0;
    let mut best_score = distance(target, candidates[0].chars());
    let mut i: usize = 1;
    while i < candidates.len()
        invariant
            cands == names(candidates@),
            cands.len() == candidates@.len(),
            1 <= i <= candidates@.len(),
            best < i,
            best_score == edit_distance(target@, cands[best as int]),
            forall|t: int| 0 <= t < i ==> best_score <= edit_distance(target@, #[trigger] cands[t]),
            forall|t: int| 0 <= t < best ==> edit_distance(target@, #[trigger] cands[t]) > best_score,
        decreases candidates@.len() - i,
    {
        let score = distance(target, candidates[i].chars());
        if score < best_score {
            best = i;
            best_score = score;
        }
        i = i + 1;
    }
    Some(best)
}

} // verus!
