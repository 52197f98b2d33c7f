//! Shanten estimation: the minimum number of tile exchanges that brings
//! a thirteen-tile hand to a ready (tenpai) shape, computed separately
//! for the three shape families and combined as their minimum.

use vstd::prelude::*;

use crate::hand::{
    bucket_total, lemma_sum_prefix_bounds, lemma_sum_update, sum_prefix, Bucket, Hand,
};
use crate::tile::spec_is_yao;
use vstd::array::ArrayAdditionalExecFns;

verus! {

/// A hand the estimator accepts: thirteen tiles, counting each declared
/// meld as three.
pub open spec fn spec_shanten_input(h: Hand) -> bool {
    bucket_total(h.bucket@) + 3 * h.mianzi_list@.len() == 13
}

/// The progress score of a fixed set of choices: two per complete meld
/// and one per partial meld, with partial melds beyond four total
/// groups not counted.
pub open spec fn spec_ap_val(men: int, ta: int) -> int {
    let room = if men <= 4 {
        4 - men
    } else {
        0
    };
    2 * men + if ta <= room {
        ta
    } else {
        room
    }
}

/// The best progress reachable from tile index `pai` upward: at each
/// index, either move on, or remove a triple, a pair toward a triple, a
/// run, or either two-tile run fragment, and keep searching.
pub open spec fn spec_all_pattern(b: Seq<u8>, men: int, ta: int, pai: int) -> int
    decreases bucket_total(b) + 34 - pai
        via spec_all_pattern_decreases
{
    if pai < 0 || pai >= 34 || b.len() != 34 {
        spec_ap_val(men, ta)
    } else {
        let c = b[pai];
        let v0 = spec_all_pattern(b, men, ta, pai + 1);
        let v1 = if c >= 3 {
            let w = spec_all_pattern(b.update(pai, (c - 3) as u8), men + 1, ta, pai);
            if w > v0 {
                w
            } else {
                v0
            }
        } else {
            v0
        };
        let v2 = if c >= 2 {
            let w = spec_all_pattern(b.update(pai, (c - 2) as u8), men, ta + 1, pai);
            if w > v1 {
                w
            } else {
                v1
            }
        } else {
            v1
        };
        if pai < 27 && c >= 1 {
            let num = pai % 9 + 1;
            let v3 = if num <= 7 && b[pai + 1] >= 1 && b[pai + 2] >= 1 {
                let b3 = b.update(pai, (c - 1) as u8).update(
                    pai + 1,
                    (b[pai + 1] - 1) as u8,
                ).update(pai + 2, (b[pai + 2] - 1) as u8);
                let w = spec_all_pattern(b3, men + 1, ta, pai);
                if w > v2 {
                    w
                } else {
                    v2
                }
            } else {
                v2
            };
            let v4 = if num <= 8 && b[pai + 1] >= 1 {
                let b4 = b.update(pai, (c - 1) as u8).update(pai + 1, (b[pai + 1] - 1) as u8);
                let w = spec_all_pattern(b4, men, ta + 1, pai);
                if w > v3 {
                    w
                } else {
                    v3
                }
            } else {
                v3
            };
            if num <= 7 && b[pai + 2] >= 1 {
                let b5 = b.update(pai, (c - 1) as u8).update(pai + 2, (b[pai + 2] - 1) as u8);
                let w = spec_all_pattern(b5, men, ta + 1, pai);
                if w > v4 {
                    w
                } else {
                    v4
                }
            } else {
                v4
            }
        } else {
            v2
        }
    }
}

#[via_fn]
proof fn spec_all_pattern_decreases(b: Seq<u8>, men: int, ta: int, pai: int) {
    if 0 <= pai < 34 && b.len() == 34 {
        lemma_sum_prefix_bounds(b, 34);
        let c = b[pai];
        if c >= 3 {
            lemma_sum_update(b, pai, (c - 3) as u8);
            lemma_sum_prefix_bounds(b.update(pai, (c - 3) as u8), 34);
        }
        if c >= 2 {
            lemma_sum_update(b, pai, (c - 2) as u8);
            lemma_sum_prefix_bounds(b.update(pai, (c - 2) as u8), 34);
        }
        if pai < 27 && c >= 1 {
            let b1 = b.update(pai, (c - 1) as u8);
            lemma_sum_update(b, pai, (c - 1) as u8);
            lemma_sum_prefix_bounds(b1, 34);
            if b[pai + 1] >= 1 {
                let b2 = b1.update(pai + 1, (b[pai + 1] - 1) as u8);
                lemma_sum_update(b1, pai + 1, (b[pai + 1] - 1) as u8);
                lemma_sum_prefix_bounds(b2, 34);
                if b[pai + 2] >= 1 {
                    lemma_sum_update(b2, pai + 2, (b[pai + 2] - 1) as u8);
                    lemma_sum_prefix_bounds(b2.update(pai + 2, (b[pai + 2] - 1) as u8), 34);
                }
            }
            if b[pai + 2] >= 1 {
                let b5 = b1.update(pai + 2, (b[pai + 2] - 1) as u8);
                lemma_sum_update(b1, pai + 2, (b[pai + 2] - 1) as u8);
                lemma_sum_prefix_bounds(b5, 34);
            }
        }
    }
}

/// The largest progress a search state can reach: 8 once twelve or more
/// tiles are free, 7 with eleven.
pub open spec fn spec_ap_cap(k: int) -> int {
    if k >= 12 {
        8
    } else if k >= 0 {
        k / 3 + 4
    } else {
        4
    }
}

proof fn lemma_ap_bound(b: Seq<u8>, men: int, ta: int, pai: int)
    requires
        b.len() == 34,
        men >= 0,
        ta >= 0,
        3 * men + 2 * ta + bucket_total(b) <= 13,
    ensures
        0 <= spec_all_pattern(b, men, ta, pai) <= spec_ap_cap(3 * men + 2 * ta + bucket_total(b)),
    decreases bucket_total(b) + 34 - pai,
{
    lemma_sum_prefix_bounds(b, 34);
    let k = 3 * men + 2 * ta + bucket_total(b);
    assert(spec_ap_val(men, ta) <= spec_ap_cap(k));
    if 0 <= pai < 34 {
        let c = b[pai];
        lemma_ap_bound(b, men, ta, pai + 1);
        if c >= 3 {
            let b1 = b.update(pai, (c - 3) as u8);
            lemma_sum_update(b, pai, (c - 3) as u8);
            lemma_sum_prefix_bounds(b1, 34);
            lemma_ap_bound(b1, men + 1, ta, pai);
        }
        if c >= 2 {
            let b1 = b.update(pai, (c - 2) as u8);
            lemma_sum_update(b, pai, (c - 2) as u8);
            lemma_sum_prefix_bounds(b1, 34);
            lemma_ap_bound(b1, men, ta + 1, pai);
        }
        if pai < 27 && c >= 1 {
            let num = pai % 9 + 1;
            let b1 = b.update(pai, (c - 1) as u8);
            lemma_sum_update(b, pai, (c - 1) as u8);
            lemma_sum_prefix_bounds(b1, 34);
            if num <= 7 && b[pai + 1] >= 1 && b[pai + 2] >= 1 {
                let b2 = b1.update(pai + 1, (b[pai + 1] - 1) as u8);
                lemma_sum_update(b1, pai + 1, (b[pai + 1] - 1) as u8);
                lemma_sum_prefix_bounds(b2, 34);
                let b3 = b2.update(pai + 2, (b[pai + 2] - 1) as u8);
                lemma_sum_update(b2, pai + 2, (b[pai + 2] - 1) as u8);
                lemma_sum_prefix_bounds(b3, 34);
                lemma_ap_bound(b3, men + 1, ta, pai);
            }
            if num <= 8 && b[pai + 1] >= 1 {
                let b4 = b1.update(pai + 1, (b[pai + 1] - 1) as u8);
                lemma_sum_update(b1, pai + 1, (b[pai + 1] - 1) as u8);
                lemma_sum_prefix_bounds(b4, 34);
                lemma_ap_bound(b4, men, ta + 1, pai);
            }
            if num <= 7 && b[pai + 2] >= 1 {
                let b5 = b1.update(pai + 2, (b[pai + 2] - 1) as u8);
                lemma_sum_update(b1, pai + 2, (b[pai + 2] - 1) as u8);
                lemma_sum_prefix_bounds(b5, 34);
                lemma_ap_bound(b5, men, ta + 1, pai);
            }
        }
    }
}

fn ap_val(men: u32, ta: u32) -> (r: u32)
    requires
        men <= 4,
    ensures
        r == spec_ap_val(men as int, ta as int),
        r <= 8,
{
    let room = 4 - men;
    let t = if ta <= room {
        ta
    } else {
        room
    };
    2 * men + t
}

fn all_pattern(bucket: &mut Bucket, men: u32, ta: u32, pai: usize) -> (val: u32)
    requires
        pai <= 34,
        3 * men + 2 * ta + bucket_total(old(bucket)@) <= 13,
    ensures
        final(bucket)@ == old(bucket)@,
        val == spec_all_pattern(old(bucket)@, men as int, ta as int, pai as int),
        val <= 8,
    decreases bucket_total(old(bucket)@) + 34 - pai,
{
    proof {
        lemma_sum_prefix_bounds(bucket@, 34);
        lemma_ap_bound(bucket@, men as int, ta as int, pai as int);
    }
    if pai >= 34 {
        return ap_val(men, ta);
    }
    let ghost b0 = bucket@;
    let c = bucket[pai];
    let mut best = all_pattern(bucket, men, ta, pai + 1);
    if c >= 3 {
        bucket.set(pai, c - 3);
        proof {
            lemma_sum_update(b0, pai as int, (c - 3) as u8);
            lemma_sum_prefix_bounds(bucket@, 34);
        }
        let w = all_pattern(bucket, men + 1, ta, pai);
        bucket.set(pai, c);
        proof {
            assert(bucket@ =~= b0);
        }
        if w > best {
            best = w;
        }
    }
    if c >= 2 {
        bucket.set(pai, c - 2);
        proof {
            lemma_sum_update(b0, pai as int, (c - 2) as u8);
            lemma_sum_prefix_bounds(bucket@, 34);
        }
        let w = all_pattern(bucket, men, ta + 1, pai);
        bucket.set(pai, c);
        proof {
            assert(bucket@ =~= b0);
        }
        if w > best {
            best = w;
        }
    }
    if pai < 27 && c >= 1 {
        let num = pai % 9 + 1;
        if num <= 7 && bucket[pai + 1] >= 1 && bucket[pai + 2] >= 1 {
            let c1 = bucket[pai + 1];
            let c2 = bucket[pai + 2];
            proof {
                let b1 = b0.update(pai as int, (c - 1) as u8);
                let b2 = b1.update(pai + 1, (c1 - 1) as u8);
                lemma_sum_update(b0, pai as int, (c - 1) as u8);
                lemma_sum_update(b1, pai + 1, (c1 - 1) as u8);
                lemma_sum_update(b2, pai + 2, (c2 - 1) as u8);
                lemma_sum_prefix_bounds(b2.update(pai + 2, (c2 - 1) as u8), 34);
            }
            bucket.set(pai, c - 1);
            bucket.set(pai + 1, c1 - 1);
            bucket.set(pai + 2, c2 - 1);
            let w = all_pattern(bucket, men + 1, ta, pai);
            bucket.set(pai + 2, c2);
            bucket.set(pai + 1, c1);
            bucket.set(pai, c);
            proof {
                assert(bucket@ =~= b0);
            }
            if w > best {
                best = w;
            }
        }
        if num <= 8 && bucket[pai + 1] >= 1 {
            let c1 = bucket[pai + 1];
            proof {
                let b1 = b0.update(pai as int, (c - 1) as u8);
                lemma_sum_update(b0, pai as int, (c - 1) as u8);
                lemma_sum_update(b1, pai + 1, (c1 - 1) as u8);
                lemma_sum_prefix_bounds(b1.update(pai + 1, (c1 - 1) as u8), 34);
            }
            bucket.set(pai, c - 1);
            bucket.set(pai + 1, c1 - 1);
            let w = all_pattern(bucket, men, ta + 1, pai);
            bucket.set(pai + 1, c1);
            bucket.set(pai, c);
            proof {
                assert(bucket@ =~= b0);
            }
            if w > best {
                best = w;
            }
        }
        if num <= 7 && bucket[pai + 2] >= 1 {
            let c2 = bucket[pai + 2];
            proof {
                let b1 = b0.update(pai as int, (c - 1) as u8);
                lemma_sum_update(b0, pai as int, (c - 1) as u8);
                lemma_sum_update(b1, pai + 2, (c2 - 1) as u8);
                lemma_sum_prefix_bounds(b1.update(pai + 2, (c2 - 1) as u8), 34);
            }
            bucket.set(pai, c - 1);
            bucket.set(pai + 2, c2 - 1);
            let w = all_pattern(bucket, men, ta + 1, pai);
            bucket.set(pai + 2, c2);
            bucket.set(pai, c);
            proof {
                assert(bucket@ =~= b0);
            }
            if w > best {
                best = w;
            }
        }
    }
    best
}

/// The best progress over the choices of a pair, indices below `h`; a
/// chosen pair scores its search plus one.
pub open spec fn spec_progress_upto(b: Seq<u8>, fixed: int, h: int) -> int
    decreases h,
{
    if h <= 0 || b.len() != 34 {
        0
    } else {
        let prev = spec_progress_upto(b, fixed, h - 1);
        let cur = if b[h - 1] >= 2 {
            spec_all_pattern(b.update(h - 1, (b[h - 1] - 2) as u8), fixed, 0, 0) + 1
        } else {
            0
        };
        if cur > prev {
            cur
        } else {
            prev
        }
    }
}

/// The best progress over every pair choice, including no pair.
pub open spec fn spec_best_progress(b: Seq<u8>, fixed: int) -> int {
    let nohead = spec_all_pattern(b, fixed, 0, 0);
    let withhead = spec_progress_upto(b, fixed, 34);
    if withhead > nohead {
        withhead
    } else {
        nohead
    }
}

/// The standard-shape shanten of a hand: eight minus its best progress.
pub open spec fn spec_normal_shanten(h: Hand) -> int {
    8 - spec_best_progress(h.bucket@, h.mianzi_list@.len() as int)
}

/// Standard-shape shanten: an exhaustive search over pair choices and
/// meld removals, scored by complete and partial melds.
#[verifier::loop_isolation(false)]
pub fn normal(hand: &Hand) -> (r: u32)
    requires
        spec_shanten_input(*hand),
    ensures
        r == spec_normal_shanten(*hand),
{
    proof {
        lemma_sum_prefix_bounds(hand.bucket@, 34);
    }
    let fixed = hand.mianzi_list.len() as u32;
    let mut bucket = hand.bucket;

    let mut progress: u32 = 0;
    let mut head: usize = 0;
    while head < 34
        invariant
            head <= 34,
            bucket@ == hand.bucket@,
            progress == spec_progress_upto(hand.bucket@, fixed as int, head as int),
            progress <= 8,
        decreases 34 - head,
    {
        let c = bucket[head];
        if c >= 2 {
            bucket.set(head, c - 2);
            proof {
                lemma_sum_update(hand.bucket@, head as int, (c - 2) as u8);
                lemma_ap_bound(bucket@, fixed as int, 0, 0);
            }
            let tmp = all_pattern(&mut bucket, fixed, 0, 0) + 1;
            bucket.set(head, c);
            proof {
                assert(bucket@ =~= hand.bucket@);
            }
            if tmp > progress {
                progress = tmp;
            }
        }
        head += 1;
    }
    let nohead = all_pattern(&mut bucket, fixed, 0, 0);
    if nohead > progress {
        progress = nohead;
    }

    8 - progress
}

/// How many distinct orphan (terminal or honor) kinds the bucket holds
/// below index `n`.
pub open spec fn spec_yao_kinds_upto(b: Seq<u8>, n: int) -> int
    decreases n,
{
    if n <= 0 {
        0
    } else {
        spec_yao_kinds_upto(b, n - 1) + if spec_is_yao((n - 1) as u8) && b[n - 1] >= 1 {
            1int
        } else {
            0int
        }
    }
}

/// Some orphan kind is held at least twice.
pub open spec fn spec_yao_dual(b: Seq<u8>) -> bool {
    exists|j: int| 0 <= j < 34 && spec_is_yao(j as u8) && #[trigger] b[j] >= 2
}

/// The thirteen-orphans shanten of a hand: thirteen minus the distinct
/// orphan kinds held, minus one more if any orphan is paired; hands
/// with declared melds cannot reach the shape.
pub open spec fn spec_kokushi_shanten(h: Hand) -> int {
    if h.mianzi_list@.len() != 0 {
        u32::MAX as int
    } else {
        13 - spec_yao_kinds_upto(h.bucket@, 34) - (if spec_yao_dual(h.bucket@) {
            1int
        } else {
            0int
        })
    }
}

/// Thirteen-orphans shanten.
#[verifier::loop_isolation(false)]
pub fn kokushi(hand: &Hand) -> (r: u32)
    requires
        spec_shanten_input(*hand),
    ensures
        r == spec_kokushi_shanten(*hand),
{
    if hand.mianzi_list.len() != 0 {
        return u32::MAX;
    }

    let mut dual = false;
    let mut count: u32 = 0;
    let mut pai: usize = 0;
    while pai < 34
        invariant
            pai <= 34,
            count == spec_yao_kinds_upto(hand.bucket@, pai as int) + (if dual {
                1int
            } else {
                0int
            }),
            dual == exists|j: int|
                0 <= j < pai && spec_is_yao(j as u8) && #[trigger] hand.bucket@[j] >= 2,
            count <= sum_prefix(hand.bucket@, pai as int),
        decreases 34 - pai,
    {
        let u8pai = pai as u8;
        proof {
            lemma_sum_prefix_bounds(hand.bucket@, pai as int);
        }
        if u8pai >= 27 || u8pai % 9 == 0 || u8pai % 9 == 8 {
            if hand.bucket[pai] >= 1 {
                count += 1;
            }
            if !dual && hand.bucket[pai] >= 2 {
                count += 1;
                dual = true;
            }
        }
        pai += 1;
    }

    13 - count
}

/// How many tile kinds the bucket holds below index `n`.
pub open spec fn spec_kinds_upto(b: Seq<u8>, n: int) -> int
    decreases n,
{
    if n <= 0 {
        0
    } else {
        spec_kinds_upto(b, n - 1) + if b[n - 1] >= 1 {
            1int
        } else {
            0int
        }
    }
}

/// How many tile kinds the bucket holds at least twice below index `n`.
pub open spec fn spec_duals_upto(b: Seq<u8>, n: int) -> int
    decreases n,
{
    if n <= 0 {
        0
    } else {
        spec_duals_upto(b, n - 1) + if b[n - 1] >= 2 {
            1int
        } else {
            0int
        }
    }
}

/// The seven-pairs shanten of a hand: six minus the pairs held, plus
/// one for each distinct kind short of seven; hands with declared melds
/// cannot reach the shape.
pub open spec fn spec_chitoi_shanten(h: Hand) -> int {
    if h.mianzi_list@.len() != 0 {
        u32::MAX as int
    } else {
        let kinds = spec_kinds_upto(h.bucket@, 34);
        let duals = spec_duals_upto(h.bucket@, 34);
        6 - duals + (if kinds >= 7 {
            0int
        } else {
            7 - kinds
        })
    }
}

/// Seven-pairs shanten.
#[verifier::loop_isolation(false)]
pub fn chitoi(hand: &Hand) -> (r: u32)
    requires
        spec_shanten_input(*hand),
    ensures
        r == spec_chitoi_shanten(*hand),
{
    if hand.mianzi_list.len() != 0 {
        return u32::MAX;
    }

    let mut kind: u32 = 0;
    let mut dual: u32 = 0;
    let mut pai: usize = 0;
    while pai < 34
        invariant
            pai <= 34,
            kind == spec_kinds_upto(hand.bucket@, pai as int),
            dual == spec_duals_upto(hand.bucket@, pai as int),
            kind <= sum_prefix(hand.bucket@, pai as int),
            2 * dual <= sum_prefix(hand.bucket@, pai as int),
        decreases 34 - pai,
    {
        proof {
            lemma_sum_prefix_bounds(hand.bucket@, pai as int);
        }
        if hand.bucket[pai] >= 1 {
            kind += 1;
        }
        if hand.bucket[pai] >= 2 {
            dual += 1;
        }
        pai += 1;
    }

    // one more exchange per missing kind when fewer than seven are held
    let miss = if kind >= 7 {
        0
    } else {
        7 - kind
    };
    6 - dual + miss
}

/// The overall shanten: the minimum over the three shape families.
pub open spec fn spec_shanten_all(h: Hand) -> int {
    let k = spec_kokushi_shanten(h);
    let c = spec_chitoi_shanten(h);
    let n = spec_normal_shanten(h);
    let m = if c < n {
        c
    } else {
        n
    };
    if k < m {
        k
    } else {
        m
    }
}

/// The shanten of the hand: the minimum of the thirteen-orphans,
/// seven-pairs and standard estimates.
pub fn all(hand: &Hand) -> (r: u32)
    requires
        spec_shanten_input(*hand),
    ensures
        r == spec_shanten_all(*hand),
{
    let s1 = kokushi(hand);
    let s2 = chitoi(hand);
    let s3 = normal(hand);
    let m = if s2 < s3 {
        s2
    } else {
        s3
    };
    if s1 < m {
        s1
    } else {
        m
    }
}

} // verus!
