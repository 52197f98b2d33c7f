//! Exhaustive decomposition search.
//!
//! `all_finish_patterns` enumerates every legal partition of a hand's
//! free tiles into melds and a pair for its finishing tile (or for all
//! finishing tiles when none is set), together with the two special
//! shapes, seven pairs and thirteen orphans.
//!
//! The search mutates the hand's bucket in place and restores it on
//! every backtrack; the contracts below prove the hand comes back
//! unchanged, that no internal-consistency failure is possible, that
//! every emitted decomposition is well formed, carries the hand's
//! declared melds, and finishes on the requested tile, and that the
//! number of emitted decompositions equals, exactly, a recursive count
//! of the search space (`spec_search_cnt`), with the two special
//! detectors pinned to closed-form shape conditions.

use vstd::prelude::*;

use crate::err::MjError;
use crate::hand::{
    bucket_total, lemma_sum_all_zero, lemma_sum_prefix_bounds, lemma_sum_update, spec_fhand_wf,
    spec_ft_special, spec_hand_13, spec_hand_wf, spec_melds_wf, Bucket, FinishHand, FinishType,
    Hand, Mianzi, MianziType,
};
use vstd::array::ArrayAdditionalExecFns;

verus! {

/// The two hands hold the same tiles, melds, pair, finishing tile and
/// draw flag.
pub open spec fn spec_hand_eq(a: Hand, b: Hand) -> bool {
    &&& a.bucket@ == b.bucket@
    &&& a.mianzi_list@ == b.mianzi_list@
    &&& a.head == b.head
    &&& a.finish_pai == b.finish_pai
    &&& a.tumo == b.tumo
}

/// What the search promises of every decomposition it emits for a hand:
/// it is well formed, copies the hand's draw flag, finishes on the
/// hand's finishing tile when one is set, and (for standard shapes)
/// begins with the hand's declared melds.
pub open spec fn spec_emitted_ok(f: FinishHand, h: Hand) -> bool {
    &&& spec_fhand_wf(f)
    &&& f.tumo == h.tumo
    &&& (match h.finish_pai {
        Some(fp) => f.finish_pai == fp,
        None => true,
    })
    &&& (!spec_ft_special(f.finish_type) ==> h.mianzi_list@.len() <= f.mianzi_list@.len()
        && f.mianzi_list@.take(h.mianzi_list@.len() as int) == h.mianzi_list@)
}

/// `new` extends `old` by decompositions the search may emit for `h`.
pub open spec fn spec_results_extended(old_r: Seq<FinishHand>, new_r: Seq<FinishHand>, h: Hand) -> bool {
    &&& old_r.len() <= new_r.len()
    &&& new_r.take(old_r.len() as int) == old_r
    &&& forall|i: int| old_r.len() <= i < new_r.len() ==> spec_emitted_ok(#[trigger] new_r[i], h)
}

pub proof fn lemma_extended_trans(a: Seq<FinishHand>, b: Seq<FinishHand>, c: Seq<FinishHand>, h: Hand)
    requires
        spec_results_extended(a, b, h),
        spec_results_extended(b, c, h),
    ensures
        spec_results_extended(a, c, h),
{
    assert(c.take(a.len() as int) =~= c.take(b.len() as int).take(a.len() as int));
    assert forall|i: int| a.len() <= i < c.len() implies spec_emitted_ok(#[trigger] c[i], h) by {
        if i < b.len() {
            assert(c.take(b.len() as int)[i] == c[i]);
            assert(b[i] == c[i]);
        }
    }
}

/// Results emitted for a hand carrying one more declared meld also
/// count as results for the hand without it.
pub proof fn lemma_extended_push(
    a: Seq<FinishHand>,
    b: Seq<FinishHand>,
    hp: Hand,
    h: Hand,
)
    requires
        spec_results_extended(a, b, hp),
        hp.tumo == h.tumo,
        hp.finish_pai == h.finish_pai,
        hp.mianzi_list@.len() == h.mianzi_list@.len() + 1,
        hp.mianzi_list@.take(h.mianzi_list@.len() as int) == h.mianzi_list@,
    ensures
        spec_results_extended(a, b, h),
{
    assert forall|i: int| a.len() <= i < b.len() implies spec_emitted_ok(#[trigger] b[i], h) by {
        let f = b[i];
        assert(spec_emitted_ok(f, hp));
        if !spec_ft_special(f.finish_type) {
            let lh = h.mianzi_list@.len() as int;
            let lp = hp.mianzi_list@.len() as int;
            assert(f.mianzi_list@.take(lh) =~= f.mianzi_list@.take(lp).take(lh));
        }
    }
}

/// Results whose hand differs only in bucket and pair choice count for
/// both hands.
pub proof fn lemma_extended_same_melds(
    a: Seq<FinishHand>,
    b: Seq<FinishHand>,
    hp: Hand,
    h: Hand,
)
    requires
        spec_results_extended(a, b, hp),
        hp.tumo == h.tumo,
        hp.finish_pai == h.finish_pai,
        hp.mianzi_list@ == h.mianzi_list@,
    ensures
        spec_results_extended(a, b, h),
{
    assert forall|i: int| a.len() <= i < b.len() implies spec_emitted_ok(#[trigger] b[i], h) by {
        assert(spec_emitted_ok(b[i], hp));
    }
}

fn clone_melds(v: &Vec<Mianzi>) -> (r: Vec<Mianzi>)
    ensures
        r@ == v@,
{
    let mut r: Vec<Mianzi> = Vec::new();
    let mut i: usize = 0;
    while i < v.len()
        invariant
            i <= v@.len(),
            r@ == v@.take(i as int),
        decreases v@.len() - i,
    {
        r.push(v[i]);
        proof {
            assert(r@ =~= v@.take(i + 1));
        }
        i += 1;
    }
    proof {
        assert(v@.take(v@.len() as int) =~= v@);
    }
    r
}

/// The index of the first tile held in the bucket.
fn first_nonzero(b: &Bucket) -> (r: usize)
    requires
        bucket_total(b@) > 0,
    ensures
        r < 34,
        b@[r as int] > 0,
        forall|j: int| 0 <= j < r ==> b@[j] == 0,
{
    let mut i: usize = 0;
    while i < 34
        invariant
            i <= 34,
            b@.len() == 34,
            bucket_total(b@) > 0,
            forall|j: int| 0 <= j < i ==> b@[j] == 0,
        decreases 34 - i,
    {
        if b[i] > 0 {
            return i;
        }
        i += 1;
    }
    proof {
        lemma_sum_all_zero(b@, 34);
    }
    assert(false);
    0
}

/// Both leftover tiles equal the finishing tile: a dual-triple wait.
pub open spec fn spec_shabo(p1: u8, p2: u8, fp: u8) -> bool {
    p1 == p2 && p1 == fp
}

/// The two leftovers and the finishing tile are numeric and share one
/// suit.
pub open spec fn spec_same_suit3(p1: u8, p2: u8, fp: u8) -> bool {
    p1 < 27 && p1 / 9 == p2 / 9 && p2 / 9 == fp / 9
}

/// Edge wait: 1-2 waiting on 3, or 8-9 waiting on 7.
pub open spec fn spec_penchan(p1: u8, p2: u8, fp: u8) -> bool {
    let n1 = p1 % 9 + 1;
    let n2 = p2 % 9 + 1;
    let nf = fp % 9 + 1;
    (n1 == 1 && n2 == 2 && nf == 3) || (nf == 7 && n1 == 8 && n2 == 9)
}

/// Closed wait: the finishing tile fills the gap.
pub open spec fn spec_kanchan(p1: u8, p2: u8, fp: u8) -> bool {
    let n1 = p1 % 9 + 1;
    let n2 = p2 % 9 + 1;
    let nf = fp % 9 + 1;
    n1 + 1 == nf && nf + 1 == n2
}

/// Two-sided wait: the finishing tile extends an open run end.
pub open spec fn spec_ryanmen(p1: u8, p2: u8, fp: u8) -> bool {
    let n1 = p1 % 9 + 1;
    let n2 = p2 % 9 + 1;
    let nf = fp % 9 + 1;
    n1 + 1 == n2 && (nf + 1 == n1 || n2 + 1 == nf)
}

/// The finishing tile completes the two leftover tiles into a triple or
/// run.
pub open spec fn spec_pair_completes(p1: u8, p2: u8, fp: u8) -> bool {
    spec_shabo(p1, p2, fp) || (spec_same_suit3(p1, p2, fp) && (spec_penchan(p1, p2, fp)
        || spec_kanchan(p1, p2, fp) || spec_ryanmen(p1, p2, fp)))
}

/// The wait tag of a completed pair, in the order the checks are made:
/// an edge wait that also reads as two-sided counts as an edge wait.
pub open spec fn spec_pair_finish_type(p1: u8, p2: u8, fp: u8) -> FinishType {
    if spec_shabo(p1, p2, fp) {
        FinishType::Shabo
    } else if spec_penchan(p1, p2, fp) {
        FinishType::Penchan
    } else if spec_kanchan(p1, p2, fp) {
        FinishType::Kanchan
    } else {
        FinishType::Ryanmen
    }
}

/// The anchor tile of the meld the finishing tile completes.
pub open spec fn spec_pair_meld(p1: u8, p2: u8, fp: u8, tumo: bool) -> Mianzi {
    if spec_shabo(p1, p2, fp) {
        Mianzi { mtype: if tumo { MianziType::Same } else { MianziType::SameRon }, pai: p1 }
    } else if spec_kanchan(p1, p2, fp) {
        Mianzi { mtype: MianziType::Ordered, pai: p1 }
    } else {
        Mianzi { mtype: MianziType::Ordered, pai: if p1 < fp { p1 } else { fp } }
    }
}

/// Tests whether the finishing tile completes the two leftover tiles,
/// and if so builds the finished decomposition: the hand's melds plus
/// the completed group, tagged with its wait shape.
fn check_finish(pai1: u8, pai2: u8, finish_pai: u8, hand: &Hand) -> (r: Option<FinishHand>)
    requires
        pai1 <= pai2,
        pai2 < 34,
        finish_pai < 34,
        hand.head matches Some(hd) && hd < 34,
        spec_melds_wf(hand.mianzi_list@),
        forall|j: int|
            0 <= j < hand.mianzi_list@.len() ==> !(#[trigger] hand.mianzi_list@[j].mtype
                is Chitoi),
        hand.mianzi_list@.len() == 3,
    ensures
        r is Some <==> spec_pair_completes(pai1, pai2, finish_pai),
        r matches Some(f) ==> {
            &&& f.finish_type == spec_pair_finish_type(pai1, pai2, finish_pai)
            &&& f.head == hand.head
            &&& f.tumo == hand.tumo
            &&& f.finish_pai == finish_pai
            &&& f.mianzi_list@.len() == 4
            &&& f.mianzi_list@.take(3) == hand.mianzi_list@
            &&& f.mianzi_list@.last() == spec_pair_meld(pai1, pai2, finish_pai, hand.tumo)
            &&& spec_fhand_wf(f)
        },
{
    // triple finish
    if pai1 == pai2 && pai1 == finish_pai {
        let mut mianzi_list = clone_melds(&hand.mianzi_list);
        let mtype = if hand.tumo {
            MianziType::Same
        } else {
            // a win by discard keeps the hand concealed but scores the
            // triple as a claimed one
            MianziType::SameRon
        };
        mianzi_list.push(Mianzi { mtype, pai: pai1 });
        proof {
            assert(mianzi_list@.take(3) =~= hand.mianzi_list@);
        }
        return Some(FinishHand {
            finish_type: FinishType::Shabo,
            mianzi_list,
            head: hand.head,
            finish_pai,
            tumo: hand.tumo,
        });
    }

    // run finish: numeric, one suit
    let n1 = pai1 % 9 + 1;
    let n2 = pai2 % 9 + 1;
    let nf = finish_pai % 9 + 1;
    if pai1 >= 27 {
        return None;
    }
    if pai1 / 9 != pai2 / 9 || pai2 / 9 != finish_pai / 9 {
        return None;
    }
    if (n1 == 1 && n2 == 2 && nf == 3) || (nf == 7 && n1 == 8 && n2 == 9) {
        let mut mianzi_list = clone_melds(&hand.mianzi_list);
        let anchor = if pai1 < finish_pai {
            pai1
        } else {
            finish_pai
        };
        mianzi_list.push(Mianzi { mtype: MianziType::Ordered, pai: anchor });
        proof {
            assert(mianzi_list@.take(3) =~= hand.mianzi_list@);
        }
        Some(FinishHand {
            finish_type: FinishType::Penchan,
            mianzi_list,
            head: hand.head,
            finish_pai,
            tumo: hand.tumo,
        })
    } else if n1 + 1 == nf && nf + 1 == n2 {
        let mut mianzi_list = clone_melds(&hand.mianzi_list);
        mianzi_list.push(Mianzi { mtype: MianziType::Ordered, pai: pai1 });
        proof {
            assert(mianzi_list@.take(3) =~= hand.mianzi_list@);
        }
        Some(FinishHand {
            finish_type: FinishType::Kanchan,
            mianzi_list,
            head: hand.head,
            finish_pai,
            tumo: hand.tumo,
        })
    } else if n1 + 1 == n2 && (nf + 1 == n1 || n2 + 1 == nf) {
        let mut mianzi_list = clone_melds(&hand.mianzi_list);
        let anchor = if pai1 < finish_pai {
            pai1
        } else {
            finish_pai
        };
        mianzi_list.push(Mianzi { mtype: MianziType::Ordered, pai: anchor });
        proof {
            assert(mianzi_list@.take(3) =~= hand.mianzi_list@);
        }
        Some(FinishHand {
            finish_type: FinishType::Ryanmen,
            mianzi_list,
            head: hand.head,
            finish_pai,
            tumo: hand.tumo,
        })
    } else {
        None
    }
}


/// How many tile kinds are held exactly once below index `n`.
pub open spec fn spec_count_ones(b: Seq<u8>, n: int) -> int
    decreases n,
{
    if n <= 0 {
        0
    } else {
        spec_count_ones(b, n - 1) + if b[n - 1] == 1 {
            1int
        } else {
            0int
        }
    }
}

proof fn lemma_count_ones_nonneg(b: Seq<u8>, n: int)
    ensures
        spec_count_ones(b, n) >= 0,
    decreases n,
{
    if n > 0 {
        lemma_count_ones_nonneg(b, n - 1);
    }
}

proof fn lemma_count_ones_mono(b: Seq<u8>, n: int, m: int)
    requires
        n <= m,
    ensures
        spec_count_ones(b, n) <= spec_count_ones(b, m),
    decreases m - n,
{
    if n < m {
        lemma_count_ones_mono(b, n, m - 1);
    }
}

proof fn lemma_count_ones_unique(b: Seq<u8>, n: int, i: int, j: int)
    requires
        0 <= i < n,
        0 <= j < n,
        i != j,
        b[i] == 1,
        b[j] == 1,
    ensures
        spec_count_ones(b, n) >= 2,
    decreases n,
{
    if i < n - 1 && j < n - 1 {
        lemma_count_ones_unique(b, n - 1, i, j);
    } else {
        let k = if i == n - 1 {
            j
        } else {
            i
        };
        lemma_count_ones_nonneg(b, k);
        lemma_count_ones_mono(b, k + 1, n - 1);
        assert(spec_count_ones(b, k + 1) >= 1);
    }
}

/// The pair markers of a seven-pairs hand: one `Chitoi` marker per held
/// tile kind below `n`, in ascending tile order.
pub open spec fn spec_chitoi_melds(b: Seq<u8>, n: int) -> Seq<Mianzi>
    decreases n,
{
    if n <= 0 {
        seq![]
    } else if b[n - 1] >= 1 {
        spec_chitoi_melds(b, n - 1).push(Mianzi { mtype: MianziType::Chitoi, pai: (n - 1) as u8 })
    } else {
        spec_chitoi_melds(b, n - 1)
    }
}

/// The bucket is one tile short of seven pairs: no declared melds, no
/// count above two, exactly one single tile, seven kinds in all, and
/// the finishing tile (when set) is that single tile.
pub open spec fn spec_chitoi_ready(h: Hand) -> bool {
    &&& h.mianzi_list@.len() == 0
    &&& forall|i: int| 0 <= i < 34 ==> #[trigger] h.bucket@[i] <= 2
    &&& spec_count_ones(h.bucket@, 34) == 1
    &&& crate::shanten::spec_kinds_upto(h.bucket@, 34) == 7
    &&& (match h.finish_pai {
        Some(fp) => fp < 34 && h.bucket@[fp as int] == 1,
        None => true,
    })
}

proof fn lemma_extended_refl(a: Seq<FinishHand>, h: Hand)
    ensures
        spec_results_extended(a, a, h),
{
    assert(a.take(a.len() as int) =~= a);
}

/// Emits the seven-pairs decomposition exactly when the hand is one
/// tile short of seven pairs; the emitted hand lists the seven pair
/// markers and waits on the single tile.
#[verifier::loop_isolation(false)]
fn finish_chitoi(hand: &Hand, result: &mut Vec<FinishHand>) -> (r: Result<(), MjError>)
    requires
        spec_hand_wf(*hand),
    ensures
        r is Ok,
        spec_results_extended(old(result)@, final(result)@, *hand),
        final(result)@.len() == old(result)@.len() + (if spec_chitoi_ready(*hand) {
            1int
        } else {
            0int
        }),
        spec_chitoi_ready(*hand) ==> final(result)@.last().finish_type is Chitoi
            && hand.bucket@[final(result)@.last().finish_pai as int] == 1
            && final(result)@.last().mianzi_list@ == spec_chitoi_melds(hand.bucket@, 34)
            && final(result)@.last().head is None && final(result)@.last().tumo == hand.tumo,
{
    let ghost r0 = result@;
    proof {
        lemma_extended_refl(r0, *hand);
    }
    // concealed hands only
    if hand.mianzi_list.len() != 0 {
        return Ok(());
    }

    let mut wait: Option<u8> = None;
    let mut mianzi_list: Vec<Mianzi> = Vec::new();

    let mut pai: usize = 0;
    while pai < 34
        invariant
            pai <= 34,
            result@ == r0,
            forall|j: int| 0 <= j < pai ==> #[trigger] hand.bucket@[j] <= 2,
            mianzi_list@.len() == crate::shanten::spec_kinds_upto(hand.bucket@, pai as int),
            mianzi_list@ == spec_chitoi_melds(hand.bucket@, pai as int),
            spec_count_ones(hand.bucket@, pai as int) == (if wait is Some {
                1int
            } else {
                0int
            }),
            forall|j: int|
                0 <= j < mianzi_list@.len() ==> (#[trigger] mianzi_list@[j].mtype is Chitoi
                    && mianzi_list@[j].pai < 34),
            (match wait {
                Some(w) => w < pai && hand.bucket@[w as int] == 1,
                None => true,
            }),
        decreases 34 - pai,
    {
        let count = hand.bucket[pai];
        if count == 1 {
            if let Some(w) = wait {
                // a second single tile: not a seven-pairs wait
                proof {
                    lemma_count_ones_unique(hand.bucket@, 34, w as int, pai as int);
                }
                return Ok(());
            }
            wait = Some(pai as u8);
            mianzi_list.push(Mianzi { mtype: MianziType::Chitoi, pai: pai as u8 });
        } else if count == 2 {
            mianzi_list.push(Mianzi { mtype: MianziType::Chitoi, pai: pai as u8 });
        } else if count != 0 {
            return Ok(());
        }
        pai += 1;
    }

    if mianzi_list.len() != 7 {
        return Ok(());
    }

    let w = match wait {
        Option::Some(w) => w,
        Option::None => {
            return Ok(());
        }
    };
    let fin: u8 = match hand.finish_pai {
        Option::Some(fp) => {
            if fp != w {
                proof {
                    if fp < 34 && hand.bucket@[fp as int] == 1 {
                        lemma_count_ones_unique(hand.bucket@, 34, w as int, fp as int);
                    }
                }
                return Ok(());
            }
            fp
        }
        Option::None => w,
    };
    result.push(FinishHand {
        finish_type: FinishType::Chitoi,
        mianzi_list,
        head: None,
        finish_pai: fin,
        tumo: hand.tumo,
    });
    proof {
        assert(result@.take(r0.len() as int) =~= r0);
    }
    Ok(())
}

/// How many orphan kinds below `n` the bucket misses entirely.
pub open spec fn spec_yao_zeros(b: Seq<u8>, n: int) -> int
    decreases n,
{
    if n <= 0 {
        0
    } else {
        spec_yao_zeros(b, n - 1) + if crate::tile::spec_is_yao((n - 1) as u8) && b[n - 1] == 0 {
            1int
        } else {
            0int
        }
    }
}

/// How many orphan kinds below `n` the bucket holds exactly twice.
pub open spec fn spec_yao_twos(b: Seq<u8>, n: int) -> int
    decreases n,
{
    if n <= 0 {
        0
    } else {
        spec_yao_twos(b, n - 1) + if crate::tile::spec_is_yao((n - 1) as u8) && b[n - 1] == 2 {
            1int
        } else {
            0int
        }
    }
}

/// How many orphan kinds lie below index `n`.
pub open spec fn spec_yao_count(n: int) -> int
    decreases n,
{
    if n <= 0 {
        0
    } else {
        spec_yao_count(n - 1) + if crate::tile::spec_is_yao((n - 1) as u8) {
            1int
        } else {
            0int
        }
    }
}

proof fn lemma_yao_zeros_nonneg(b: Seq<u8>, n: int)
    ensures
        spec_yao_zeros(b, n) >= 0,
    decreases n,
{
    if n > 0 {
        lemma_yao_zeros_nonneg(b, n - 1);
    }
}

proof fn lemma_yao_zeros_mono(b: Seq<u8>, n: int, m: int)
    requires
        n <= m,
    ensures
        spec_yao_zeros(b, n) <= spec_yao_zeros(b, m),
    decreases m - n,
{
    if n < m {
        lemma_yao_zeros_mono(b, n, m - 1);
    }
}

proof fn lemma_yao_zeros_unique(b: Seq<u8>, n: int, i: int, j: int)
    requires
        0 <= i < n,
        0 <= j < n,
        i != j,
        crate::tile::spec_is_yao(i as u8),
        crate::tile::spec_is_yao(j as u8),
        b[i] == 0,
        b[j] == 0,
    ensures
        spec_yao_zeros(b, n) >= 2,
    decreases n,
{
    if i < n - 1 && j < n - 1 {
        lemma_yao_zeros_unique(b, n - 1, i, j);
    } else {
        let k = if i == n - 1 {
            j
        } else {
            i
        };
        lemma_yao_zeros_nonneg(b, k);
        lemma_yao_zeros_mono(b, k + 1, n - 1);
        assert(spec_yao_zeros(b, k + 1) >= 1);
    }
}

proof fn lemma_yao_twos_nonneg(b: Seq<u8>, n: int)
    ensures
        spec_yao_twos(b, n) >= 0,
    decreases n,
{
    if n > 0 {
        lemma_yao_twos_nonneg(b, n - 1);
    }
}

proof fn lemma_yao_twos_mono(b: Seq<u8>, n: int, m: int)
    requires
        n <= m,
    ensures
        spec_yao_twos(b, n) <= spec_yao_twos(b, m),
    decreases m - n,
{
    if n < m {
        lemma_yao_twos_mono(b, n, m - 1);
    }
}

proof fn lemma_yao_twos_unique(b: Seq<u8>, n: int, i: int, j: int)
    requires
        0 <= i < n,
        0 <= j < n,
        i != j,
        crate::tile::spec_is_yao(i as u8),
        crate::tile::spec_is_yao(j as u8),
        b[i] == 2,
        b[j] == 2,
    ensures
        spec_yao_twos(b, n) >= 2,
    decreases n,
{
    if i < n - 1 && j < n - 1 {
        lemma_yao_twos_unique(b, n - 1, i, j);
    } else {
        let k = if i == n - 1 {
            j
        } else {
            i
        };
        lemma_yao_twos_nonneg(b, k);
        lemma_yao_twos_mono(b, k + 1, n - 1);
        assert(spec_yao_twos(b, k + 1) >= 1);
    }
}

/// The orphan counts of a thirteen-orphans candidate: no declared
/// melds, no simple tiles, and no orphan held more than twice.
pub open spec fn spec_kokushi_base(h: Hand) -> bool {
    &&& h.mianzi_list@.len() == 0
    &&& forall|i: int|
        0 <= i < 34 ==> (!crate::tile::spec_is_yao(i as u8) ==> #[trigger] h.bucket@[i] == 0)
    &&& forall|i: int|
        0 <= i < 34 ==> (crate::tile::spec_is_yao(i as u8) ==> #[trigger] h.bucket@[i] <= 2)
}

proof fn lemma_yao_zeros_at(b: Seq<u8>, n: int, j: int)
    requires
        0 <= j < n,
        crate::tile::spec_is_yao(j as u8),
        b[j] == 0,
    ensures
        spec_yao_zeros(b, n) >= 1,
{
    lemma_yao_zeros_nonneg(b, j);
    lemma_yao_zeros_mono(b, j + 1, n);
}

proof fn lemma_yao_twos_at(b: Seq<u8>, n: int, j: int)
    requires
        0 <= j < n,
        crate::tile::spec_is_yao(j as u8),
        b[j] == 2,
    ensures
        spec_yao_twos(b, n) >= 1,
{
    lemma_yao_twos_nonneg(b, j);
    lemma_yao_twos_mono(b, j + 1, n);
}

/// What each emitted thirteen-orphans decomposition looks like against
/// the hand: its wait is an orphan, and its pair doubles either the
/// wait itself (a held single) or the one kind held twice while the
/// wait is the absent kind.
pub open spec fn spec_kokushi_emission(f: FinishHand, h: Hand) -> bool {
    &&& crate::tile::spec_is_yao(f.finish_pai)
    &&& f.tumo == h.tumo
    &&& match f.head {
        Some(hd) => (hd == f.finish_pai && h.bucket@[hd as int] == 1) || (
        crate::tile::spec_is_yao(hd) && h.bucket@[hd as int] == 2 && h.bucket@[f.finish_pai as int]
            == 0),
        None => false,
    }
}

/// The hand holds all thirteen orphan kinds once each with no finishing
/// tile chosen: the thirteen-sided open wait.
pub open spec fn spec_kokushi_open_wait(h: Hand) -> bool {
    &&& spec_kokushi_base(h)
    &&& spec_yao_zeros(h.bucket@, 34) == 0
    &&& spec_yao_twos(h.bucket@, 34) == 0
    &&& h.finish_pai is None
}

/// How many thirteen-orphans decompositions the hand allows: one when
/// twelve kinds plus a duplicate wait on the absent or duplicated kind,
/// one per orphan kind when all thirteen singles wait open, none
/// otherwise.
pub open spec fn spec_kokushi_emit_count(h: Hand) -> int {
    if spec_kokushi_base(h) {
        let z = spec_yao_zeros(h.bucket@, 34);
        let t = spec_yao_twos(h.bucket@, 34);
        if z == 1 && t == 1 {
            match h.finish_pai {
                Some(fp) => if fp < 34 && crate::tile::spec_is_yao(fp) && h.bucket@[fp as int]
                    == 0 {
                    1int
                } else {
                    0int
                },
                None => 1,
            }
        } else if z == 0 && t == 0 {
            match h.finish_pai {
                Some(fp) => if crate::tile::spec_is_yao(fp) {
                    1int
                } else {
                    0int
                },
                None => 13,
            }
        } else {
            0
        }
    } else {
        0
    }
}

/// Emits the thirteen-orphans decompositions exactly when the hand
/// allows them: no declared melds, no simple tiles, and either all
/// thirteen orphan kinds with one duplicate (waiting on the absent or
/// duplicated kind) or all thirteen singles (waiting on any orphan).
#[verifier::loop_isolation(false)]
fn finish_kokushi(hand: &Hand, result: &mut Vec<FinishHand>) -> (r: Result<(), MjError>)
    requires
        spec_hand_wf(*hand),
    ensures
        r is Ok,
        spec_results_extended(old(result)@, final(result)@, *hand),
        final(result)@.len() == old(result)@.len() + spec_kokushi_emit_count(*hand),
        forall|i: int|
            old(result)@.len() <= i < final(result)@.len() ==> spec_kokushi_emission(
                #[trigger] final(result)@[i],
                *hand,
            ),
        spec_kokushi_open_wait(*hand) ==> forall|y: u8|
            y < 34 && crate::tile::spec_is_yao(y) ==> exists|i: int|
                old(result)@.len() <= i < final(result)@.len()
                    && (#[trigger] final(result)@[i]).finish_pai == y
                    && final(result)@[i].head == Some(y),
{
    let ghost r0 = result@;
    proof {
        lemma_extended_refl(r0, *hand);
    }
    if hand.mianzi_list.len() != 0 {
        return Ok(());
    }
    if let Some(fin) = hand.finish_pai {
        if !(fin >= 27 || fin % 9 == 0 || fin % 9 == 8) {
            return Ok(());
        }
    }

    let mut wait: Option<u8> = None;
    let mut have2: Option<u8> = None;
    let mut pai: usize = 0;
    while pai < 34
        invariant
            pai <= 34,
            result@ == r0,
            forall|j: int|
                0 <= j < pai ==> (!crate::tile::spec_is_yao(j as u8) ==> #[trigger] hand.bucket@[j]
                    == 0),
            forall|j: int|
                0 <= j < pai ==> (crate::tile::spec_is_yao(j as u8) ==> #[trigger] hand.bucket@[j]
                    <= 2),
            (match wait {
                Some(w) => w < pai && crate::tile::spec_is_yao(w) && hand.bucket@[w as int] == 0
                    && spec_yao_zeros(hand.bucket@, pai as int) == 1,
                None => spec_yao_zeros(hand.bucket@, pai as int) == 0,
            }),
            (match have2 {
                Some(h2) => h2 < pai && crate::tile::spec_is_yao(h2) && hand.bucket@[h2 as int]
                    == 2 && spec_yao_twos(hand.bucket@, pai as int) == 1,
                None => spec_yao_twos(hand.bucket@, pai as int) == 0,
            }),
        decreases 34 - pai,
    {
        let u8pai = pai as u8;
        let count = hand.bucket[pai];
        if !(u8pai >= 27 || u8pai % 9 == 0 || u8pai % 9 == 8) {
            // a simple tile forbids the shape
            if count > 0 {
                return Ok(());
            }
        } else if count == 0 {
            if let Some(w) = wait {
                proof {
                    lemma_yao_zeros_unique(hand.bucket@, 34, w as int, pai as int);
                }
                return Ok(());
            }
            wait = Some(u8pai);
        } else if count == 2 {
            if let Some(h2) = have2 {
                proof {
                    lemma_yao_twos_unique(hand.bucket@, 34, h2 as int, pai as int);
                }
                return Ok(());
            }
            have2 = Some(u8pai);
        } else if count != 1 {
            return Ok(());
        }
        pai += 1;
    }

    if let Some(h2) = have2 {
        if let Some(w) = wait {
            // twelve kinds plus one duplicate: the absent kind is the wait
            match hand.finish_pai {
                Option::Some(fin) => {
                    if fin == w {
                        result.push(FinishHand {
                            finish_type: FinishType::Kokushi,
                            mianzi_list: Vec::new(),
                            head: Some(h2),
                            finish_pai: fin,
                            tumo: hand.tumo,
                        });
                        proof {
                            assert(result@.take(r0.len() as int) =~= r0);
                            assert(spec_kokushi_emission(result@.last(), *hand));
                        }
                    } else {
                        proof {
                            if fin < 34 && crate::tile::spec_is_yao(fin) && hand.bucket@[fin as int]
                                == 0 {
                                lemma_yao_zeros_unique(hand.bucket@, 34, w as int, fin as int);
                            }
                        }
                    }
                }
                Option::None => {
                    result.push(FinishHand {
                        finish_type: FinishType::Kokushi,
                        mianzi_list: Vec::new(),
                        head: Some(h2),
                        finish_pai: w,
                        tumo: hand.tumo,
                    });
                    proof {
                        assert(result@.take(r0.len() as int) =~= r0);
                        assert(spec_kokushi_emission(result@.last(), *hand));
                    }
                }
            }
        }
    } else if wait.is_none() {
        // all thirteen kinds held once: a thirteen-sided wait
        match hand.finish_pai {
            Option::Some(fin) => {
                proof {
                    if hand.bucket@[fin as int] == 0 {
                        lemma_yao_zeros_at(hand.bucket@, 34, fin as int);
                    }
                    if hand.bucket@[fin as int] == 2 {
                        lemma_yao_twos_at(hand.bucket@, 34, fin as int);
                    }
                    assert(hand.bucket@[fin as int] == 1);
                }
                result.push(FinishHand {
                    finish_type: FinishType::Kokushi,
                    mianzi_list: Vec::new(),
                    head: Some(fin),
                    finish_pai: fin,
                    tumo: hand.tumo,
                });
                proof {
                    assert(result@.take(r0.len() as int) =~= r0);
                    assert(spec_kokushi_emission(result@.last(), *hand));
                }
            }
            Option::None => {
                let mut pai2: usize = 0;
                while pai2 < 34
                    invariant
                        pai2 <= 34,
                        spec_results_extended(r0, result@, *hand),
                        result@.len() == r0.len() + spec_yao_count(pai2 as int),
                        hand.finish_pai is None,
                        spec_yao_zeros(hand.bucket@, 34) == 0,
                        spec_yao_twos(hand.bucket@, 34) == 0,
                        forall|j: int|
                            0 <= j < 34 ==> (crate::tile::spec_is_yao(j as u8)
                                ==> #[trigger] hand.bucket@[j] <= 2),
                        forall|i: int|
                            r0.len() <= i < result@.len() ==> spec_kokushi_emission(
                                #[trigger] result@[i],
                                *hand,
                            ),
                        forall|y: u8|
                            y < pai2 && crate::tile::spec_is_yao(y) ==> exists|i: int|
                                r0.len() <= i < result@.len() && (#[trigger] result@[i]).finish_pai
                                    == y && result@[i].head == Some(y),
                    decreases 34 - pai2,
                {
                    let u8pai = pai2 as u8;
                    if u8pai >= 27 || u8pai % 9 == 0 || u8pai % 9 == 8 {
                        proof {
                            if hand.bucket@[pai2 as int] == 0 {
                                lemma_yao_zeros_at(hand.bucket@, 34, pai2 as int);
                            }
                            if hand.bucket@[pai2 as int] == 2 {
                                lemma_yao_twos_at(hand.bucket@, 34, pai2 as int);
                            }
                            assert(hand.bucket@[pai2 as int] == 1);
                        }
                        let ghost rb = result@;
                        result.push(FinishHand {
                            finish_type: FinishType::Kokushi,
                            mianzi_list: Vec::new(),
                            head: Some(u8pai),
                            finish_pai: u8pai,
                            tumo: hand.tumo,
                        });
                        proof {
                            assert(result@.take(rb.len() as int) =~= rb);
                            lemma_extended_trans(r0, rb, result@, *hand);
                            assert(spec_kokushi_emission(result@.last(), *hand));
                            assert forall|y: u8|
                                y < pai2 + 1 && crate::tile::spec_is_yao(y) implies exists|i: int|
                                    r0.len() <= i < result@.len() && (#[trigger] result@[i]).finish_pai
                                        == y && result@[i].head == Some(y) by {
                                if y < pai2 {
                                    let i = choose|i: int|
                                        r0.len() <= i < rb.len() && (#[trigger] rb[i]).finish_pai
                                            == y && rb[i].head == Some(y);
                                    assert(result@[i] == rb[i]);
                                } else {
                                    assert(result@[result@.len() - 1].finish_pai == y);
                                }
                            }
                        }
                    }
                    pai2 += 1;
                }
                proof {
                    reveal_with_fuel(spec_yao_count, 35);
                    assert(spec_yao_count(34) == 13);
                }
            }
        }
    }

    Ok(())
}

/// The index of the first tile held at or after `lo`.
fn next_nonzero(b: &Bucket, lo: usize) -> (r: usize)
    requires
        lo < 34,
        exists|j: int| lo <= j < 34 && b@[j] > 0,
    ensures
        lo <= r < 34,
        b@[r as int] > 0,
        forall|k: int| lo <= k < r ==> b@[k] == 0,
{
    let mut i: usize = lo;
    while i < 34
        invariant
            lo <= i <= 34,
            b@.len() == 34,
            exists|j: int| lo <= j < 34 && b@[j] > 0,
            forall|k: int| lo <= k < i ==> b@[k] == 0,
        decreases 34 - i,
    {
        if b[i] > 0 {
            return i;
        }
        i += 1;
    }
    proof {
        let j = choose|j: int| lo <= j < 34 && b@[j] > 0;
        assert(b@[j] == 0);
    }
    assert(false);
    0
}

/// The first held tile index at or after `i`; 34 when none remains.
pub open spec fn spec_first_pos(b: Seq<u8>, i: int) -> int
    decreases 34 - i,
{
    if i < 0 || i >= 34 {
        34
    } else if b[i] > 0 {
        i
    } else {
        spec_first_pos(b, i + 1)
    }
}

proof fn lemma_first_pos(b: Seq<u8>, lo: int, r: int)
    requires
        0 <= lo <= r < 34,
        forall|k: int| lo <= k < r ==> b[k] == 0,
        b[r] > 0,
    ensures
        spec_first_pos(b, lo) == r,
    decreases r - lo,
{
    if lo < r {
        lemma_first_pos(b, lo + 1, r);
    }
}

/// How many finishing tiles below `n` complete the two leftover tiles.
pub open spec fn spec_wait_cnt(p1: u8, p2: u8, n: int) -> int
    decreases n,
{
    if n <= 0 {
        0
    } else {
        spec_wait_cnt(p1, p2, n - 1) + if spec_pair_completes(p1, p2, (n - 1) as u8) {
            1int
        } else {
            0int
        }
    }
}

/// How many decompositions one search state emits before trying more
/// melds: in pair-wait mode with four melds, one for the last tile when
/// it matches the finishing tile; in pair-first mode with three melds,
/// one per finishing tile that completes the two leftover tiles.
pub open spec fn spec_emit_cnt(tanki: bool, b: Seq<u8>, n: int, fin: Option<u8>) -> int {
    if b.len() != 34 {
        0
    } else if tanki {
        if n == 4 {
            let p = spec_first_pos(b, 0);
            if p < 34 {
                match fin {
                    None => 1,
                    Some(fp) => if fp as int == p {
                        1int
                    } else {
                        0int
                    },
                }
            } else {
                0
            }
        } else {
            0
        }
    } else {
        if n == 3 {
            let p1 = spec_first_pos(b, 0);
            if p1 < 34 {
                let p2 = if b[p1] >= 2 {
                    p1
                } else {
                    spec_first_pos(b, p1 + 1)
                };
                if p2 < 34 {
                    match fin {
                        Some(fp) => if spec_pair_completes(p1 as u8, p2 as u8, fp) {
                            1int
                        } else {
                            0int
                        },
                        None => spec_wait_cnt(p1 as u8, p2 as u8, 34),
                    }
                } else {
                    0
                }
            } else {
                0
            }
        } else {
            0
        }
    }
}

/// How many decompositions the search emits from a state: a state still
/// to choose its pair sums over every pair choice; any other state
/// emits its completed decompositions and sums over every removable
/// triple or run at each index from `start` up.
pub open spec fn spec_search_cnt(
    tanki: bool,
    b: Seq<u8>,
    n: int,
    head_set: bool,
    fin: Option<u8>,
    start: int,
) -> int
    decreases bucket_total(b), 35int,
        via spec_search_cnt_decreases
{
    if b.len() != 34 || start < 0 || start > 34 {
        0
    } else if !tanki && !head_set {
        spec_head_cnt(b, n, fin, start, 0)
    } else {
        spec_emit_cnt(tanki, b, n, fin) + spec_loop_cnt(tanki, b, n, head_set, fin, start)
    }
}

#[via_fn]
proof fn spec_search_cnt_decreases(
    tanki: bool,
    b: Seq<u8>,
    n: int,
    head_set: bool,
    fin: Option<u8>,
    start: int,
) {
    if b.len() == 34 {
        lemma_sum_prefix_bounds(b, 34);
    }
}

/// The emissions summed over every pair choice at index `pai` or above.
pub open spec fn spec_head_cnt(b: Seq<u8>, n: int, fin: Option<u8>, start: int, pai: int) -> int
    decreases bucket_total(b), 34 - pai,
        via spec_head_cnt_decreases
{
    if b.len() != 34 || pai < 0 || pai >= 34 || start < 0 {
        0
    } else {
        (if b[pai] >= 2 {
            spec_search_cnt(false, b.update(pai, (b[pai] - 2) as u8), n, true, fin, start)
        } else {
            0int
        }) + spec_head_cnt(b, n, fin, start, pai + 1)
    }
}

#[via_fn]
proof fn spec_head_cnt_decreases(b: Seq<u8>, n: int, fin: Option<u8>, start: int, pai: int) {
    if b.len() == 34 && 0 <= pai < 34 && start >= 0 {
        lemma_sum_prefix_bounds(b, 34);
        if b[pai] >= 2 {
            lemma_sum_update(b, pai, (b[pai] - 2) as u8);
            lemma_sum_prefix_bounds(b.update(pai, (b[pai] - 2) as u8), 34);
        }
    }
}

/// The emissions summed over every triple or run removal at index `pai`
/// or above.
pub open spec fn spec_loop_cnt(
    tanki: bool,
    b: Seq<u8>,
    n: int,
    head_set: bool,
    fin: Option<u8>,
    pai: int,
) -> int
    decreases bucket_total(b), 34 - pai,
        via spec_loop_cnt_decreases
{
    if b.len() != 34 || pai < 0 || pai >= 34 {
        0
    } else {
        let c = b[pai];
        let t = if c >= 3 {
            spec_search_cnt(tanki, b.update(pai, (c - 3) as u8), n + 1, head_set, fin, pai)
        } else {
            0int
        };
        let r = if pai < 27 && pai % 9 <= 6 && c >= 1 && b[pai + 1] >= 1 && b[pai + 2] >= 1 {
            let b3 = b.update(pai, (c - 1) as u8).update(pai + 1, (b[pai + 1] - 1) as u8).update(
                pai + 2,
                (b[pai + 2] - 1) as u8,
            );
            spec_search_cnt(tanki, b3, n + 1, head_set, fin, pai)
        } else {
            0int
        };
        t + r + spec_loop_cnt(tanki, b, n, head_set, fin, pai + 1)
    }
}

#[via_fn]
proof fn spec_loop_cnt_decreases(
    tanki: bool,
    b: Seq<u8>,
    n: int,
    head_set: bool,
    fin: Option<u8>,
    pai: int,
) {
    if b.len() == 34 && 0 <= pai < 34 {
        lemma_sum_prefix_bounds(b, 34);
        let c = b[pai];
        if c >= 3 {
            lemma_sum_update(b, pai, (c - 3) as u8);
            lemma_sum_prefix_bounds(b.update(pai, (c - 3) as u8), 34);
        }
        if pai < 27 && pai % 9 <= 6 && c >= 1 && b[pai + 1] >= 1 && b[pai + 2] >= 1 {
            let b1 = b.update(pai, (c - 1) as u8);
            let b2 = b1.update(pai + 1, (b[pai + 1] - 1) as u8);
            let b3 = b2.update(pai + 2, (b[pai + 2] - 1) as u8);
            lemma_sum_update(b, pai, (c - 1) as u8);
            lemma_sum_update(b1, pai + 1, (b[pai + 1] - 1) as u8);
            lemma_sum_update(b2, pai + 2, (b[pai + 2] - 1) as u8);
            lemma_sum_prefix_bounds(b3, 34);
        }
    }
}

/// Depth-first backtracking over the hand's bucket.  With a pair
/// already chosen (or, in pair-wait mode, none), repeatedly removes a
/// triple or run anchored at the lowest remaining tile index; at four
/// melds a pair-wait hand's last tile is the wait, and at three melds
/// the two leftover tiles are tested against each finishing tile.  The
/// hand comes back exactly as it went in, the search never fails, and
/// every emitted decomposition is sound for the hand.
#[verifier::rlimit(100)]
#[verifier::loop_isolation(false)]
fn finish_patterns(tanki: bool, hand: &mut Hand, start: usize, result: &mut Vec<FinishHand>) -> (r:
    Result<(), MjError>)
    requires
        start <= 34,
        spec_hand_wf(*old(hand)),
        bucket_total(old(hand).bucket@) + 3 * old(hand).mianzi_list@.len() + (if old(
            hand,
        ).head is Some {
            2int
        } else {
            0int
        }) == 13,
        tanki ==> old(hand).head is None,
    ensures
        r is Ok,
        spec_hand_eq(*final(hand), *old(hand)),
        spec_results_extended(old(result)@, final(result)@, *old(hand)),
        final(result)@.len() == old(result)@.len() + spec_search_cnt(
            tanki,
            old(hand).bucket@,
            old(hand).mianzi_list@.len() as int,
            old(hand).head is Some,
            old(hand).finish_pai,
            start as int,
        ),
    decreases bucket_total(old(hand).bucket@),
{
    let ghost h0 = *hand;
    let ghost r0 = result@;
    let ghost n0 = h0.mianzi_list@.len() as int;
    let ghost fin0 = h0.finish_pai;
    let ghost hs0 = h0.head is Some;
    proof {
        lemma_extended_refl(r0, h0);
        lemma_sum_prefix_bounds(h0.bucket@, 34);
    }

    // choose the pair first
    if !tanki && hand.head.is_none() {
        let mut pai: usize = 0;
        while pai < 34
            invariant
                pai <= 34,
                spec_hand_eq(*hand, h0),
                spec_hand_wf(h0),
                h0.head is None,
                bucket_total(h0.bucket@) + 3 * h0.mianzi_list@.len() == 13,
                spec_results_extended(r0, result@, h0),
                result@.len() == r0.len() + spec_head_cnt(h0.bucket@, n0, fin0, start as int, 0)
                    - spec_head_cnt(h0.bucket@, n0, fin0, start as int, pai as int),
            decreases 34 - pai,
        {
            let c = hand.bucket[pai];
            if c >= 2 {
                hand.bucket.set(pai, c - 2);
                hand.head = Some(pai as u8);
                proof {
                    lemma_sum_update(h0.bucket@, pai as int, (c - 2) as u8);
                    lemma_sum_prefix_bounds(hand.bucket@, 34);
                    lemma_sum_prefix_bounds(h0.bucket@, 34);
                }
                let ghost h1 = *hand;
                let ghost r1 = result@;
                finish_patterns(false, hand, start, result)?;
                hand.head = None;
                let c2 = hand.bucket[pai];
                hand.bucket.set(pai, c2 + 2);
                proof {
                    assert(hand.bucket@ =~= h0.bucket@);
                    lemma_extended_same_melds(r1, result@, h1, h0);
                    lemma_extended_trans(r0, r1, result@, h0);
                    assert(spec_head_cnt(h0.bucket@, n0, fin0, start as int, pai as int)
                        == spec_search_cnt(
                        false,
                        h0.bucket@.update(pai as int, (c - 2) as u8),
                        n0,
                        true,
                        fin0,
                        start as int,
                    ) + spec_head_cnt(h0.bucket@, n0, fin0, start as int, pai + 1));
                }
            } else {
                proof {
                    assert(spec_head_cnt(h0.bucket@, n0, fin0, start as int, pai as int)
                        == spec_head_cnt(h0.bucket@, n0, fin0, start as int, pai + 1));
                }
            }
            pai += 1;
        }
        proof {
            assert(spec_head_cnt(h0.bucket@, n0, fin0, start as int, 34) == 0);
            assert(spec_search_cnt(tanki, h0.bucket@, n0, hs0, fin0, start as int)
                == spec_head_cnt(h0.bucket@, n0, fin0, start as int, 0));
        }
        return Ok(());
    }

    // emit the completed decompositions of this branch
    if tanki {
        if hand.mianzi_list.len() == 4 {
            // twelve tiles sit in melds, so exactly one remains
            let pai = first_nonzero(&hand.bucket);
            proof {
                lemma_first_pos(h0.bucket@, 0, pai as int);
            }
            let emit = match hand.finish_pai {
                Option::Some(fp) => fp == pai as u8,
                Option::None => true,
            };
            if emit {
                let ml = clone_melds(&hand.mianzi_list);
                let ghost rb = result@;
                result.push(FinishHand {
                    finish_type: FinishType::Tanki,
                    mianzi_list: ml,
                    head: Some(pai as u8),
                    finish_pai: pai as u8,
                    tumo: hand.tumo,
                });
                proof {
                    assert(result@.take(rb.len() as int) =~= rb);
                    assert(result@.last().mianzi_list@.take(h0.mianzi_list@.len() as int)
                        =~= h0.mianzi_list@);
                }
            }
            proof {
                assert(result@.len() == r0.len() + spec_emit_cnt(tanki, h0.bucket@, n0, fin0));
            }
        } else {
            proof {
                assert(result@.len() == r0.len() + spec_emit_cnt(tanki, h0.bucket@, n0, fin0));
            }
        }
    } else {
        if hand.mianzi_list.len() == 3 {
            // nine tiles sit in melds and two in the pair, leaving two
            let pai1 = first_nonzero(&hand.bucket);
            proof {
                lemma_first_pos(h0.bucket@, 0, pai1 as int);
            }
            let count = hand.bucket[pai1];
            let pai2: usize = if count >= 2 {
                pai1
            } else {
                proof {
                    if forall|k: int| pai1 < k < 34 ==> hand.bucket@[k] == 0 {
                        let bz = hand.bucket@.update(pai1 as int, 0u8);
                        assert(forall|k: int| 0 <= k < 34 ==> bz[k] == 0);
                        lemma_sum_all_zero(bz, 34);
                        lemma_sum_update(hand.bucket@, pai1 as int, 0u8);
                        assert(false);
                    }
                }
                next_nonzero(&hand.bucket, pai1 + 1)
            };
            proof {
                if count < 2 {
                    lemma_first_pos(h0.bucket@, pai1 + 1, pai2 as int);
                }
            }
            match hand.finish_pai {
                Option::Some(fp) => {
                    let fin = check_finish(pai1 as u8, pai2 as u8, fp, hand);
                    if let Some(f) = fin {
                        let ghost rb = result@;
                        result.push(f);
                        proof {
                            assert(result@.take(rb.len() as int) =~= rb);
                        }
                    }
                    proof {
                        assert(result@.len() == r0.len() + spec_emit_cnt(
                            tanki,
                            h0.bucket@,
                            n0,
                            fin0,
                        ));
                    }
                }
                Option::None => {
                    let mut fp: usize = 0;
                    while fp < 34
                        invariant
                            fp <= 34,
                            spec_hand_eq(*hand, h0),
                            spec_hand_wf(h0),
                            hand.head matches Some(hd) && hd < 34,
                            hand.finish_pai is None,
                            hand.mianzi_list@.len() == 3,
                            pai1 <= pai2 < 34,
                            spec_results_extended(r0, result@, h0),
                            result@.len() == r0.len() + spec_wait_cnt(
                                pai1 as u8,
                                pai2 as u8,
                                fp as int,
                            ),
                        decreases 34 - fp,
                    {
                        let fin = check_finish(pai1 as u8, pai2 as u8, fp as u8, hand);
                        if let Some(f) = fin {
                            let ghost rb = result@;
                            result.push(f);
                            proof {
                                assert(result@.take(rb.len() as int) =~= rb);
                                lemma_extended_trans(r0, rb, result@, h0);
                            }
                        }
                        fp += 1;
                    }
                    proof {
                        assert(result@.len() == r0.len() + spec_emit_cnt(
                            tanki,
                            h0.bucket@,
                            n0,
                            fin0,
                        ));
                    }
                }
            }
        } else {
            proof {
                assert(result@.len() == r0.len() + spec_emit_cnt(tanki, h0.bucket@, n0, fin0));
            }
        }
    }

    // try removing a triple or run anchored at each tile from `start` up
    let ghost r1 = result@;
    proof {
        lemma_extended_refl(r1, h0);
        assert(r1.len() == r0.len() + spec_emit_cnt(tanki, h0.bucket@, n0, fin0));
    }
    let mut pai: usize = start;
    while pai < 34
        invariant
            start <= pai <= 34,
            spec_hand_eq(*hand, h0),
            spec_hand_wf(h0),
            tanki ==> h0.head is None,
            bucket_total(h0.bucket@) + 3 * h0.mianzi_list@.len() + (if h0.head is Some {
                2int
            } else {
                0int
            }) == 13,
            spec_results_extended(r1, result@, h0),
            result@.len() == r1.len() + spec_loop_cnt(tanki, h0.bucket@, n0, hs0, fin0, start as int)
                - spec_loop_cnt(tanki, h0.bucket@, n0, hs0, fin0, pai as int),
        decreases 34 - pai,
    {
        let c = hand.bucket[pai];
        if c == 0 {
            proof {
                assert(spec_loop_cnt(tanki, h0.bucket@, n0, hs0, fin0, pai as int)
                    == spec_loop_cnt(tanki, h0.bucket@, n0, hs0, fin0, pai + 1));
            }
            pai += 1;
            continue;
        }

        let u8pai = pai as u8;
        let kind = u8pai / 9;
        let num = u8pai % 9 + 1;

        let ghost rloop = result@;
        let ghost triple_cnt: int = if c >= 3 {
            spec_search_cnt(
                tanki,
                h0.bucket@.update(pai as int, (c - 3) as u8),
                n0 + 1,
                hs0,
                fin0,
                pai as int,
            )
        } else {
            0int
        };
        if c >= 3 {
            hand.bucket.set(pai, c - 3);
            hand.mianzi_list.push(Mianzi { mtype: MianziType::Same, pai: u8pai });
            proof {
                lemma_sum_update(h0.bucket@, pai as int, (c - 3) as u8);
                lemma_sum_prefix_bounds(hand.bucket@, 34);
            }
            let ghost h1 = *hand;
            let ghost r2 = result@;
            finish_patterns(tanki, hand, pai, result)?;
            hand.mianzi_list.pop();
            let c2 = hand.bucket[pai];
            hand.bucket.set(pai, c2 + 3);
            proof {
                assert(hand.mianzi_list@ =~= h0.mianzi_list@);
                assert(hand.bucket@ =~= h0.bucket@);
                assert(h1.mianzi_list@.take(h0.mianzi_list@.len() as int) =~= h0.mianzi_list@);
                lemma_extended_push(r2, result@, h1, h0);
                lemma_extended_trans(r1, r2, result@, h0);
                assert(result@.len() == rloop.len() + triple_cnt);
            }
        }
        let ca = hand.bucket[pai];
        if kind < 3 && num <= 7 && ca >= 1 && hand.bucket[pai + 1] >= 1 && hand.bucket[pai + 2]
            >= 1 {
            let cb = hand.bucket[pai + 1];
            let cc = hand.bucket[pai + 2];
            proof {
                let b0 = h0.bucket@;
                let b1 = b0.update(pai as int, (ca - 1) as u8);
                let b2 = b1.update(pai + 1, (cb - 1) as u8);
                lemma_sum_update(b0, pai as int, (ca - 1) as u8);
                lemma_sum_update(b1, pai + 1, (cb - 1) as u8);
                lemma_sum_update(b2, pai + 2, (cc - 1) as u8);
            }
            hand.bucket.set(pai, ca - 1);
            hand.bucket.set(pai + 1, cb - 1);
            hand.bucket.set(pai + 2, cc - 1);
            hand.mianzi_list.push(Mianzi { mtype: MianziType::Ordered, pai: u8pai });
            proof {
                lemma_sum_prefix_bounds(hand.bucket@, 34);
            }
            let ghost h1 = *hand;
            let ghost r2 = result@;
            finish_patterns(tanki, hand, pai, result)?;
            hand.mianzi_list.pop();
            let cc2 = hand.bucket[pai + 2];
            hand.bucket.set(pai + 2, cc2 + 1);
            let cb2 = hand.bucket[pai + 1];
            hand.bucket.set(pai + 1, cb2 + 1);
            let ca2 = hand.bucket[pai];
            hand.bucket.set(pai, ca2 + 1);
            proof {
                assert(hand.mianzi_list@ =~= h0.mianzi_list@);
                assert(hand.bucket@ =~= h0.bucket@);
                assert(h1.mianzi_list@.take(h0.mianzi_list@.len() as int) =~= h0.mianzi_list@);
                lemma_extended_push(r2, result@, h1, h0);
                lemma_extended_trans(r1, r2, result@, h0);
                assert(result@.len() == r2.len() + spec_search_cnt(
                    tanki,
                    h1.bucket@,
                    n0 + 1,
                    hs0,
                    fin0,
                    pai as int,
                ));
            }
        }
        proof {
            assert(spec_loop_cnt(tanki, h0.bucket@, n0, hs0, fin0, pai as int) == triple_cnt + (
            if pai < 27 && pai as int % 9 <= 6 && h0.bucket@[pai as int] >= 1 && h0.bucket@[pai
                + 1] >= 1 && h0.bucket@[pai + 2] >= 1 {
                spec_search_cnt(
                    tanki,
                    h0.bucket@.update(pai as int, (h0.bucket@[pai as int] - 1) as u8).update(
                        pai + 1,
                        (h0.bucket@[pai + 1] - 1) as u8,
                    ).update(pai + 2, (h0.bucket@[pai + 2] - 1) as u8),
                    n0 + 1,
                    hs0,
                    fin0,
                    pai as int,
                )
            } else {
                0int
            }) + spec_loop_cnt(tanki, h0.bucket@, n0, hs0, fin0, pai + 1));
        }
        pai += 1;
    }

    proof {
        lemma_extended_trans(r0, r1, result@, h0);
        assert(spec_loop_cnt(tanki, h0.bucket@, n0, hs0, fin0, 34) == 0);
        assert(spec_search_cnt(tanki, h0.bucket@, n0, hs0, fin0, start as int) == spec_emit_cnt(
            tanki,
            h0.bucket@,
            n0,
            fin0,
        ) + spec_loop_cnt(tanki, h0.bucket@, n0, hs0, fin0, start as int));
    }
    Ok(())
}

/// Enumerates every decomposition of the hand: seven pairs, thirteen
/// orphans, then the standard shapes with the pair chosen first and
/// with the pair as the wait.  The hand comes back unchanged, the
/// search cannot fail, and every appended decomposition is well formed,
/// extends the hand's declared melds, copies its draw flag, and
/// finishes on its finishing tile when one is set.
pub fn all_finish_patterns(hand: &mut Hand, result: &mut Vec<FinishHand>) -> (r: Result<
    (),
    MjError,
>)
    requires
        spec_hand_wf(*old(hand)),
        spec_hand_13(*old(hand)),
    ensures
        r is Ok,
        spec_hand_eq(*final(hand), *old(hand)),
        spec_results_extended(old(result)@, final(result)@, *old(hand)),
        spec_chitoi_ready(*old(hand)) ==> final(result)@.len() > old(result)@.len()
            && (final(result)@[old(result)@.len() as int]).finish_type is Chitoi,
        final(result)@.len() == old(result)@.len() + (if spec_chitoi_ready(*old(hand)) {
            1int
        } else {
            0int
        }) + spec_kokushi_emit_count(*old(hand)) + spec_search_cnt(
            false,
            old(hand).bucket@,
            old(hand).mianzi_list@.len() as int,
            false,
            old(hand).finish_pai,
            0,
        ) + spec_search_cnt(
            true,
            old(hand).bucket@,
            old(hand).mianzi_list@.len() as int,
            false,
            old(hand).finish_pai,
            0,
        ),
{
    let ghost h0 = *hand;
    let ghost r0 = result@;
    finish_chitoi(hand, result)?;
    let ghost r1 = result@;
    finish_kokushi(hand, result)?;
    let ghost r2 = result@;
    finish_patterns(false, hand, 0, result)?;
    let ghost r3 = result@;
    finish_patterns(true, hand, 0, result)?;
    proof {
        lemma_extended_trans(r0, r1, r2, h0);
        lemma_extended_same_melds(r2, r3, h0, h0);
        lemma_extended_trans(r0, r2, r3, h0);
        lemma_extended_same_melds(r3, result@, h0, h0);
        lemma_extended_trans(r0, r3, result@, h0);
        if spec_chitoi_ready(h0) {
            let i = r0.len() as int;
            assert(result@.take(r1.len() as int)[i] == result@[i]);
            assert(r2.take(r1.len() as int)[i] == r2[i]);
            assert(r3.take(r2.len() as int)[i] == r3[i]);
            assert(result@.take(r3.len() as int)[i] == result@[i]);
        }
    }
    Ok(())
}

} // verus!
