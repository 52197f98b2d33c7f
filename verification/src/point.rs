//! Fu and point calculation.

use vstd::prelude::*;

use crate::hand::{
    count_matches, spec_fhand_wf, spec_finish_fu, spec_ft_special, spec_pai_list, spec_param_wf,
    spec_tiles_of_melds, FinishHand, Mianzi, MianziType, PointParam,
};
use crate::tile::{spec_is_sangen, spec_is_yao};
use crate::yaku::{
    all_menzen, check_yaku, check_yakuman, spec_add_bit, spec_all_menzen, spec_check_yaku,
    spec_check_yakuman, spec_fan_sum, spec_yakuman_count, Yaku, Yakuman,
};

verus! {

/// The score of one decomposition.  The field order is the sort order
/// used to pick the best decomposition: limit count first, then base
/// point, fan, and fu.
#[derive(Debug, Clone, PartialEq, Eq, PartialOrd, Ord, Structural)]
pub struct Point {
    pub yakuman_count: u32,
    /// Capped at the mangan ceiling of 2000.
    pub base_point: u32,
    pub fan: u32,
    pub fu: u32,
    /// Set bits of [`Yaku`].
    pub yaku: u64,
    /// Set bits of [`Yakuman`].
    pub yakuman: u32,
}

/// A point value that the calculator can produce: the base point is
/// capped and the limit count is at most twelve.
pub open spec fn spec_point_wf(p: Point) -> bool {
    p.base_point <= 2000 && p.yakuman_count <= 12
}

/// The next multiple of 100 at or above `x`.
pub open spec fn spec_roundup100(x: u32) -> int {
    (x + 99) / 100 * 100
}

pub(crate) fn roundup100(x: u32) -> (r: u32)
    requires
        x <= 0xFFFF_0000,
    ensures
        r == spec_roundup100(x),
{
    (x + 99) / 100 * 100
}

/// The dealer's gain on self-draw: each opponent pays this.
pub open spec fn spec_point_p_tumo(p: Point) -> int {
    if p.yakuman_count > 0 {
        16000 * p.yakuman_count
    } else if p.fan <= 4 {
        spec_roundup100((p.base_point * 2) as u32)
    } else if p.fan == 5 {
        4000
    } else if p.fan <= 7 {
        6000
    } else if p.fan <= 10 {
        8000
    } else if p.fan <= 12 {
        12000
    } else {
        16000
    }
}

/// The dealer's gain on a win by discard.
pub open spec fn spec_point_p_ron(p: Point) -> int {
    if p.yakuman_count > 0 {
        48000 * p.yakuman_count
    } else if p.fan <= 4 {
        spec_roundup100((p.base_point * 6) as u32)
    } else if p.fan == 5 {
        12000
    } else if p.fan <= 7 {
        18000
    } else if p.fan <= 10 {
        24000
    } else if p.fan <= 12 {
        36000
    } else {
        48000
    }
}

/// A non-dealer's gain on self-draw, as (each non-dealer pays, the
/// dealer pays).
pub open spec fn spec_point_c_tumo(p: Point) -> (int, int) {
    if p.yakuman_count > 0 {
        (8000 * p.yakuman_count as int, 16000 * p.yakuman_count as int)
    } else if p.fan <= 4 {
        (spec_roundup100(p.base_point), spec_roundup100((p.base_point * 2) as u32))
    } else if p.fan == 5 {
        (2000, 4000)
    } else if p.fan <= 7 {
        (3000, 6000)
    } else if p.fan <= 10 {
        (4000, 8000)
    } else if p.fan <= 12 {
        (6000, 12000)
    } else {
        (8000, 16000)
    }
}

/// A non-dealer's gain on a win by discard.
pub open spec fn spec_point_c_ron(p: Point) -> int {
    if p.yakuman_count > 0 {
        32000 * p.yakuman_count
    } else if p.fan <= 4 {
        spec_roundup100((p.base_point * 4) as u32)
    } else if p.fan == 5 {
        8000
    } else if p.fan <= 7 {
        12000
    } else if p.fan <= 10 {
        16000
    } else if p.fan <= 12 {
        24000
    } else {
        32000
    }
}

impl Point {
    /// Dealer self-draw: the amount each of the three opponents pays.
    pub fn calc_point_p_tumo(&self) -> (r: u32)
        requires
            spec_point_wf(*self),
        ensures
            r == spec_point_p_tumo(*self),
    {
        if self.yakuman_count > 0 {
            16000 * self.yakuman_count
        } else if self.fan <= 4 {
            roundup100(self.base_point * 2)
        } else if self.fan == 5 {
            4000
        } else if self.fan <= 7 {
            6000
        } else if self.fan <= 10 {
            8000
        } else if self.fan <= 12 {
            12000
        } else {
            16000
        }
    }

    /// Dealer win by discard: the amount the discarder pays.
    pub fn calc_point_p_ron(&self) -> (r: u32)
        requires
            spec_point_wf(*self),
        ensures
            r == spec_point_p_ron(*self),
    {
        if self.yakuman_count > 0 {
            48000 * self.yakuman_count
        } else if self.fan <= 4 {
            roundup100(self.base_point * 6)
        } else if self.fan == 5 {
            12000
        } else if self.fan <= 7 {
            18000
        } else if self.fan <= 10 {
            24000
        } else if self.fan <= 12 {
            36000
        } else {
            48000
        }
    }

    /// Non-dealer self-draw: (each non-dealer pays, the dealer pays).
    pub fn calc_point_c_tumo(&self) -> (r: (u32, u32))
        requires
            spec_point_wf(*self),
        ensures
            (r.0 as int, r.1 as int) == spec_point_c_tumo(*self),
    {
        if self.yakuman_count > 0 {
            (8000 * self.yakuman_count, 16000 * self.yakuman_count)
        } else if self.fan <= 4 {
            (roundup100(self.base_point), roundup100(self.base_point * 2))
        } else if self.fan == 5 {
            (2000, 4000)
        } else if self.fan <= 7 {
            (3000, 6000)
        } else if self.fan <= 10 {
            (4000, 8000)
        } else if self.fan <= 12 {
            (6000, 12000)
        } else {
            (8000, 16000)
        }
    }

    /// Non-dealer win by discard: the amount the discarder pays.
    pub fn calc_point_c_ron(&self) -> (r: u32)
        requires
            spec_point_wf(*self),
        ensures
            r == spec_point_c_ron(*self),
    {
        if self.yakuman_count > 0 {
            32000 * self.yakuman_count
        } else if self.fan <= 4 {
            roundup100(self.base_point * 4)
        } else if self.fan == 5 {
            8000
        } else if self.fan <= 7 {
            12000
        } else if self.fan <= 10 {
            16000
        } else if self.fan <= 12 {
            24000
        } else {
            32000
        }
    }
}

/// The base point of a (fan, fu) score: fu shifted left by fan plus
/// two, capped at the mangan ceiling of 2000 once fan reaches five.
pub open spec fn spec_base_point(fan: u32, fu: u32) -> u32 {
    let raw: u32 = if fan < 5 {
        fu << (fan + 2) as u32
    } else {
        2000
    };
    if raw > 2000 {
        2000
    } else {
        raw
    }
}

/// Assembles a point value from its parts, capping the base point.
pub fn calc_base_point_direct(yakuman_count: u32, fan: u32, fu: u32, yaku: u64, yakuman: u32) -> (r:
    Point)
    requires
        yakuman_count <= 12,
    ensures
        r == (Point {
            yakuman_count,
            base_point: spec_base_point(fan, fu),
            fan,
            fu,
            yaku,
            yakuman,
        }),
        spec_point_wf(r),
{
    let raw: u32 = if fan < 5 {
        fu << (fan + 2)
    } else {
        2000
    };
    let base_point = if raw > 2000 {
        2000
    } else {
        raw
    };

    Point { yakuman_count, base_point, fan, fu, yaku, yakuman }
}


/// The fu of one meld: nothing for a run; 4 for a concealed triple,
/// 2 for a claimed one, 16 for a closed kan, 8 for an open kan; doubled
/// when the meld's tile is a terminal or honor.
pub open spec fn spec_meld_fu(m: Mianzi) -> int {
    let base: int = match m.mtype {
        MianziType::Ordered | MianziType::OrderedChi => 0,
        MianziType::Same => 4,
        MianziType::SamePon | MianziType::SameRon => 2,
        MianziType::SameKanBlind => 16,
        MianziType::SameKanOpen => 8,
        MianziType::Chitoi => 0,
    };
    if spec_is_yao(m.pai) {
        base * 2
    } else {
        base
    }
}

pub open spec fn spec_melds_fu(ms: Seq<Mianzi>) -> int
    decreases ms.len(),
{
    if ms.len() == 0 {
        0
    } else {
        spec_melds_fu(ms.drop_last()) + spec_meld_fu(ms.last())
    }
}

/// The fu of the pair: 2 for a dragon, 2 for the seat wind, and 2 more
/// for the round wind; the two wind checks are independent, so a pair
/// that is both seat and round wind earns 4.
pub open spec fn spec_head_fu(hd: u8, p: PointParam) -> int {
    (if spec_is_sangen(hd) || hd == 27 + p.self_wind {
        2int
    } else {
        0int
    }) + (if hd == 27 + p.field_wind {
        2int
    } else {
        0int
    })
}

/// The fu of a decomposition: 20 base plus the wait-shape fu; special
/// shapes stop there (25 for seven pairs, 20 for thirteen orphans).
/// Standard shapes add per-meld fu, pair fu, 2 for self-draw or 10 for
/// a concealed win by discard, reduce an all-run 22 to 20, force an
/// open 20 to 30, and round up to the next ten.
pub open spec fn spec_calc_fu(h: FinishHand, p: PointParam, menzen: bool) -> int {
    let fu = 20 + spec_finish_fu(h.finish_type);
    if spec_ft_special(h.finish_type) {
        fu
    } else {
        let head_fu = match h.head {
            Some(hd) => spec_head_fu(hd, p),
            None => 0,
        };
        let fu = fu + spec_melds_fu(h.mianzi_list@) + head_fu + (if h.tumo {
            2int
        } else if menzen {
            10int
        } else {
            0int
        });
        let fu = if fu == 22 {
            20int
        } else {
            fu
        };
        let fu = if !menzen && fu == 20 {
            30int
        } else {
            fu
        };
        (fu + 9) / 10 * 10
    }
}

fn meld_fu(m: &Mianzi) -> (r: u32)
    ensures
        r == spec_meld_fu(*m),
        r <= 32,
{
    let base: u32 = match m.mtype {
        MianziType::Ordered | MianziType::OrderedChi => 0,
        MianziType::Same => 4,
        MianziType::SamePon | MianziType::SameRon => 2,
        MianziType::SameKanBlind => 16,
        MianziType::SameKanOpen => 8,
        MianziType::Chitoi => 0,
    };
    if m.pai >= 27 || m.pai % 9 == 0 || m.pai % 9 == 8 {
        base * 2
    } else {
        base
    }
}

fn calc_fu(hand: &FinishHand, param: &PointParam, menzen: bool) -> (r: u32)
    requires
        spec_fhand_wf(*hand),
        spec_param_wf(*param),
    ensures
        r == spec_calc_fu(*hand, *param, menzen),
{
    let mut fu: u32 = 20;

    fu += hand.finish_type.fu();
    if hand.finish_type.is_special() {
        return fu;
    }

    let ms = &hand.mianzi_list;
    let mut sum: u32 = 0;
    let mut i: usize = 0;
    while i < ms.len()
        invariant
            i <= ms@.len(),
            ms@.len() <= 7,
            sum == spec_melds_fu(ms@.take(i as int)),
            sum <= 32 * i,
        decreases ms@.len() - i,
    {
        proof {
            assert(ms@.take(i + 1).drop_last() =~= ms@.take(i as int));
        }
        let m = ms[i];
        sum += meld_fu(&m);
        i += 1;
    }
    proof {
        assert(ms@.take(ms@.len() as int) =~= ms@);
        assert(ms@.len() <= 7);
    }
    fu += sum;

    if let Some(hd) = hand.head {
        let mut tmp: u32 = 0;
        if (31 <= hd && hd <= 33) || hd == param.self_wind_pi() {
            tmp += 2;
        }
        if hd == param.field_wind_pi() {
            tmp += 2;
        }
        fu += tmp;
    }

    if hand.tumo {
        fu += 2;
    } else if menzen {
        fu += 10;
    }

    if fu == 22 {
        fu = 20;
    }
    if !menzen && fu == 20 {
        fu = 30;
    }

    (fu + 9) / 10 * 10
}

/// The fan a hand's tiles earn from the dora list: one per tile
/// matching any entry.
pub open spec fn spec_dora_fan(tiles: Seq<u8>, dora: Seq<u8>) -> int
    decreases tiles.len(),
{
    if tiles.len() == 0 {
        0
    } else {
        spec_dora_fan(tiles.drop_last(), dora) + count_matches(dora, tiles.last())
    }
}

proof fn lemma_dora_fan_bound(tiles: Seq<u8>, dora: Seq<u8>)
    ensures
        0 <= spec_dora_fan(tiles, dora) <= tiles.len() * dora.len(),
    decreases tiles.len(),
{
    if tiles.len() > 0 {
        lemma_dora_fan_bound(tiles.drop_last(), dora);
        crate::hand::lemma_count_nonneg(dora, tiles.last());
        assert((tiles.len() - 1) * dora.len() == tiles.len() * dora.len() - dora.len())
            by (nonlinear_arith);
    }
}

fn dora_fan(tiles: &Vec<u8>, dora: &Vec<u8>) -> (r: u32)
    requires
        tiles@.len() <= 30,
        dora@.len() <= 136,
    ensures
        r == spec_dora_fan(tiles@, dora@),
{
    let mut fan2: u32 = 0;
    let mut i: usize = 0;
    while i < tiles.len()
        invariant
            i <= tiles@.len(),
            tiles@.len() <= 30,
            dora@.len() <= 136,
            fan2 == spec_dora_fan(tiles@.take(i as int), dora@),
            fan2 <= i * 136,
        decreases tiles@.len() - i,
    {
        proof {
            assert(tiles@.take(i + 1).drop_last() =~= tiles@.take(i as int));
        }
        let pai = tiles[i];
        let mut j: usize = 0;
        let mut cnt: u32 = 0;
        while j < dora.len()
            invariant
                j <= dora@.len(),
                dora@.len() <= 136,
                cnt == count_matches(dora@.take(j as int), pai),
                cnt <= j,
            decreases dora@.len() - j,
        {
            proof {
                assert(dora@.take(j + 1) =~= dora@.take(j as int).push(dora@[j as int]));
                crate::hand::lemma_count_push(dora@.take(j as int), pai, dora@[j as int]);
            }
            if dora[j] == pai {
                cnt += 1;
            }
            j += 1;
        }
        proof {
            assert(dora@.take(dora@.len() as int) =~= dora@);
        }
        fan2 += cnt;
        i += 1;
    }
    proof {
        assert(tiles@.take(tiles@.len() as int) =~= tiles@);
    }
    fan2
}

proof fn lemma_tiles_len(ms: Seq<Mianzi>)
    ensures
        spec_tiles_of_melds(ms).len() <= 4 * ms.len(),
    decreases ms.len(),
{
    if ms.len() > 0 {
        lemma_tiles_len(ms.drop_last());
    }
}

/// The full score of one decomposition under a context: patterns,
/// fu, fan with dora, and the capped base point.
pub open spec fn spec_calc_base_point(h: FinishHand, p: PointParam) -> Point {
    let menzen = spec_all_menzen(h.mianzi_list@);
    let yaku0 = spec_check_yaku(h, p, menzen);
    let yakuman = spec_check_yakuman(h, p, menzen);
    let fu = spec_calc_fu(h, p, menzen);
    let pinfu = menzen && !spec_ft_special(h.finish_type) && ((h.tumo && fu == 20) || (!h.tumo
        && fu == 30));
    let yaku = spec_add_bit(yaku0, Yaku::PINHU, pinfu);
    let fan = (spec_fan_sum(yaku) + spec_dora_fan(spec_pai_list(h), p.dora@)) as u32;
    Point {
        yakuman_count: spec_yakuman_count(yakuman) as u32,
        base_point: spec_base_point(fan, fu as u32),
        fan,
        fu: fu as u32,
        yaku,
        yakuman,
    }
}

/// Scores one decomposition: detects its patterns, computes fu and fan
/// (dora included), and caps the base point.  A set limit-pattern bit
/// is scored by the payment functions instead of fan and fu.
pub fn calc_base_point(hand: &FinishHand, param: &PointParam) -> (r: Point)
    requires
        spec_fhand_wf(*hand),
        spec_param_wf(*param),
    ensures
        r == spec_calc_base_point(*hand, *param),
        spec_point_wf(r),
{
    let menzen = all_menzen(&hand.mianzi_list);

    let yaku0 = check_yaku(hand, param, menzen);
    let yakuman = check_yakuman(hand, param, menzen);
    let yakuman_count = Yakuman::count_all(yakuman);
    let fu = calc_fu(hand, param, menzen);
    let pinfu = menzen && hand.finish_type.is_normal() && ((hand.tumo && fu == 20) || (!hand.tumo
        && fu == 30));
    let yaku = crate::yaku::add_bit(yaku0, Yaku::PINHU, pinfu);

    let fan1 = Yaku::fan_sum(yaku);
    let tiles = hand.to_pai_list();
    proof {
        lemma_tiles_len(hand.mianzi_list@);
        lemma_dora_fan_bound(tiles@, param.dora@);
    }
    let fan2 = dora_fan(&tiles, &param.dora);
    proof {
        assert(tiles@.len() * param.dora@.len() <= 30 * 136) by (nonlinear_arith)
            requires
                tiles@.len() <= 30,
                param.dora@.len() <= 136,
        ;
    }
    let fan = fan1 + fan2;

    calc_base_point_direct(yakuman_count, fan, fu, yaku, yakuman)
}

/// Scoring is a function of the decomposition and context alone:
/// evaluating the same decomposition twice under an identical context
/// yields bit-identical point values.
pub proof fn lemma_evaluate_deterministic(h: FinishHand, p: PointParam, r1: Point, r2: Point)
    requires
        r1 == spec_calc_base_point(h, p),
        r2 == spec_calc_base_point(h, p),
    ensures
        r1 == r2,
{
}

} // verus!
