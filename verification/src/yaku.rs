//! Named scoring patterns: ordinary yaku and limit-hand yakuman.
//!
//! Each pattern is one bit of a fixed-width set; the closed list below
//! enumerates every defined bit.  Open-hand variants of a pattern carry
//! their own bit with a lower fan value.

use vstd::prelude::*;
use crate::hand::{
    spec_fhand_wf, spec_meld_added, spec_melds_wf, spec_mianzi_green, spec_mianzi_junchan,
    spec_mianzi_tanyao, spec_mianzi_wf, spec_mt_blind, spec_mt_kan, spec_mt_menzen,
    spec_mt_ordered, spec_mt_same, spec_param_wf, Bucket, FinishHand, FinishType, Mianzi,
    PointParam, Reach,
};
use crate::tile::{spec_is_green, spec_is_jun, spec_is_yao};
use vstd::array::ArrayAdditionalExecFns;

verus! {

/// A set of ordinary scoring patterns, one bit each.
#[derive(Debug, Clone, Copy, PartialEq, Eq, PartialOrd, Ord, Structural)]
pub struct Yaku(pub u64);

/// A set of limit patterns, one bit each.
#[derive(Debug, Clone, Copy, PartialEq, Eq, PartialOrd, Ord, Structural)]
pub struct Yakuman(pub u32);

impl Yaku {
    pub const REACH: u64 = 1u64 << 0;
    pub const IPPATSU: u64 = 1u64 << 1;
    pub const TSUMO: u64 = 1u64 << 2;
    pub const TANYAO: u64 = 1u64 << 3;
    pub const PINHU: u64 = 1u64 << 4;
    pub const IPEKO: u64 = 1u64 << 5;
    pub const FIELD_E: u64 = 1u64 << 6;
    pub const FIELD_S: u64 = 1u64 << 7;
    pub const FIELD_W: u64 = 1u64 << 8;
    pub const FIELD_N: u64 = 1u64 << 9;
    pub const SELF_E: u64 = 1u64 << 10;
    pub const SELF_S: u64 = 1u64 << 11;
    pub const SELF_W: u64 = 1u64 << 12;
    pub const SELF_N: u64 = 1u64 << 13;
    pub const YAKU_HAKU: u64 = 1u64 << 14;
    pub const YAKU_HATSU: u64 = 1u64 << 15;
    pub const YAKU_CHUN: u64 = 1u64 << 16;
    pub const RINSHAN: u64 = 1u64 << 17;
    pub const CHANKAN: u64 = 1u64 << 18;
    pub const HAITEI: u64 = 1u64 << 19;
    pub const HOTEI: u64 = 1u64 << 20;
    pub const DOJUN: u64 = 1u64 << 21;
    pub const DOJUN_N: u64 = 1u64 << 22;
    pub const ITTSU: u64 = 1u64 << 23;
    pub const ITTSU_N: u64 = 1u64 << 24;
    pub const CHANTA: u64 = 1u64 << 25;
    pub const CHANTA_N: u64 = 1u64 << 26;
    pub const CHITOI: u64 = 1u64 << 27;
    pub const TOITOI: u64 = 1u64 << 28;
    pub const SANANKO: u64 = 1u64 << 29;
    pub const HONROTO: u64 = 1u64 << 30;
    pub const DOKO: u64 = 1u64 << 31;
    pub const SANKAN: u64 = 1u64 << 32;
    pub const SHOSANGEN: u64 = 1u64 << 33;
    pub const DBLREACH: u64 = 1u64 << 34;
    pub const HONISO: u64 = 1u64 << 35;
    pub const HONISO_N: u64 = 1u64 << 36;
    pub const JUNCHAN: u64 = 1u64 << 37;
    pub const JUNCHAN_N: u64 = 1u64 << 38;
    pub const LIANGPEKO: u64 = 1u64 << 39;
    pub const CHINISO: u64 = 1u64 << 40;
    pub const CHINISO_N: u64 = 1u64 << 41;
    pub const END: u64 = 1u64 << 41;
}

impl Yakuman {
    pub const KOKUSHI: u32 = 1u32 << 0;
    pub const SUANKO: u32 = 1u32 << 1;
    pub const DAISANGEN: u32 = 1u32 << 2;
    pub const TUISO: u32 = 1u32 << 3;
    pub const SHOSUSHI: u32 = 1u32 << 4;
    pub const DAISUSHI: u32 = 1u32 << 5;
    pub const RYUISO: u32 = 1u32 << 6;
    pub const CHINROTO: u32 = 1u32 << 7;
    pub const SUKAN: u32 = 1u32 << 8;
    pub const CHUREN: u32 = 1u32 << 9;
    pub const TENHO: u32 = 1u32 << 10;
    pub const CHIHO: u32 = 1u32 << 11;
    pub const END: u32 = 1u32 << 11;
}

/// `bit` names exactly one defined ordinary pattern.
pub open spec fn spec_single_yaku(bit: u64) -> bool {
    ||| bit == Yaku::REACH
    ||| bit == Yaku::IPPATSU
    ||| bit == Yaku::TSUMO
    ||| bit == Yaku::TANYAO
    ||| bit == Yaku::PINHU
    ||| bit == Yaku::IPEKO
    ||| bit == Yaku::FIELD_E
    ||| bit == Yaku::FIELD_S
    ||| bit == Yaku::FIELD_W
    ||| bit == Yaku::FIELD_N
    ||| bit == Yaku::SELF_E
    ||| bit == Yaku::SELF_S
    ||| bit == Yaku::SELF_W
    ||| bit == Yaku::SELF_N
    ||| bit == Yaku::YAKU_HAKU
    ||| bit == Yaku::YAKU_HATSU
    ||| bit == Yaku::YAKU_CHUN
    ||| bit == Yaku::RINSHAN
    ||| bit == Yaku::CHANKAN
    ||| bit == Yaku::HAITEI
    ||| bit == Yaku::HOTEI
    ||| bit == Yaku::DOJUN
    ||| bit == Yaku::DOJUN_N
    ||| bit == Yaku::ITTSU
    ||| bit == Yaku::ITTSU_N
    ||| bit == Yaku::CHANTA
    ||| bit == Yaku::CHANTA_N
    ||| bit == Yaku::CHITOI
    ||| bit == Yaku::TOITOI
    ||| bit == Yaku::SANANKO
    ||| bit == Yaku::HONROTO
    ||| bit == Yaku::DOKO
    ||| bit == Yaku::SANKAN
    ||| bit == Yaku::SHOSANGEN
    ||| bit == Yaku::DBLREACH
    ||| bit == Yaku::HONISO
    ||| bit == Yaku::HONISO_N
    ||| bit == Yaku::JUNCHAN
    ||| bit == Yaku::JUNCHAN_N
    ||| bit == Yaku::LIANGPEKO
    ||| bit == Yaku::CHINISO
    ||| bit == Yaku::CHINISO_N
}

/// `bit` names exactly one defined limit pattern.
pub open spec fn spec_single_yakuman(bit: u32) -> bool {
    ||| bit == Yakuman::KOKUSHI
    ||| bit == Yakuman::SUANKO
    ||| bit == Yakuman::DAISANGEN
    ||| bit == Yakuman::TUISO
    ||| bit == Yakuman::SHOSUSHI
    ||| bit == Yakuman::DAISUSHI
    ||| bit == Yakuman::RYUISO
    ||| bit == Yakuman::CHINROTO
    ||| bit == Yakuman::SUKAN
    ||| bit == Yakuman::CHUREN
    ||| bit == Yakuman::TENHO
    ||| bit == Yakuman::CHIHO
}

/// The fan value of one ordinary pattern bit.
pub open spec fn spec_yaku_fan(bit: u64) -> u32 {
    if bit == Yaku::DOJUN || bit == Yaku::ITTSU || bit == Yaku::CHANTA || bit == Yaku::CHITOI
        || bit == Yaku::TOITOI || bit == Yaku::SANANKO || bit == Yaku::HONROTO || bit == Yaku::DOKO
        || bit == Yaku::SANKAN || bit == Yaku::SHOSANGEN || bit == Yaku::DBLREACH
        || bit == Yaku::HONISO_N || bit == Yaku::JUNCHAN_N {
        2
    } else if bit == Yaku::HONISO || bit == Yaku::JUNCHAN || bit == Yaku::LIANGPEKO {
        3
    } else if bit == Yaku::CHINISO {
        6
    } else if bit == Yaku::CHINISO_N {
        5
    } else {
        1
    }
}

/// Bit `i` of a pattern set.
#[verifier::opaque]
pub open spec fn spec_bit_at(bits: u64, i: u64) -> bool {
    bits & (1u64 << i) != 0
}

fn bit_at(bits: u64, i: u64) -> (b: bool)
    requires
        i < 64,
    ensures
        b == spec_bit_at(bits, i),
{
    proof {
        reveal(spec_bit_at);
    }
    bits & (1u64 << i) != 0
}

/// The fan value of the pattern at bit position `i`, zero past the
/// defined range.
pub open spec fn spec_fan_at(i: u64) -> u32 {
    if 42 <= i {
        0
    } else if i <= 20 {
        1
    } else if i == 22 || i == 24 || i == 26 {
        1
    } else if i == 35 || i == 37 || i == 39 {
        3
    } else if i == 40 {
        6
    } else if i == 41 {
        5
    } else {
        2
    }
}

fn fan_at(i: u64) -> (r: u32)
    ensures
        r == spec_fan_at(i),
{
    if 42 <= i {
        0
    } else if i <= 20 {
        1
    } else if i == 22 || i == 24 || i == 26 {
        1
    } else if i == 35 || i == 37 || i == 39 {
        3
    } else if i == 40 {
        6
    } else if i == 41 {
        5
    } else {
        2
    }
}

/// The total fan of the pattern bits below position `k`.
pub open spec fn spec_fan_sum_upto(bits: u64, k: int) -> int
    decreases k,
{
    if k <= 0 {
        0
    } else {
        spec_fan_sum_upto(bits, k - 1) + if spec_bit_at(bits, (k - 1) as u64) {
            spec_fan_at((k - 1) as u64) as int
        } else {
            0int
        }
    }
}

/// The total fan of a pattern set: the sum of the fan values of its
/// set bits.
pub open spec fn spec_fan_sum(bits: u64) -> int {
    spec_fan_sum_upto(bits, 42)
}

impl Yaku {
    /// Sums the fan values of every set bit.
    pub fn fan_sum(bits: u64) -> (r: u32)
        ensures
            r == spec_fan_sum(bits),
            r <= 252,
    {
        let mut sum: u32 = 0;
        let mut i: u64 = 0;
        while i < 42
            invariant
                i <= 42,
                sum == spec_fan_sum_upto(bits, i as int),
                sum <= 6 * i,
            decreases 42 - i,
        {
            if bit_at(bits, i) {
                sum += fan_at(i);
            }
            i += 1;
        }
        sum
    }

    /// The fan value of a single pattern bit.
    pub fn fan(&self) -> (r: u32)
        requires
            spec_single_yaku(self.0),
        ensures
            r == spec_yaku_fan(self.0),
            1 <= r <= 6,
    {
        let bit = self.0;
        if bit == Yaku::DOJUN || bit == Yaku::ITTSU || bit == Yaku::CHANTA || bit == Yaku::CHITOI
            || bit == Yaku::TOITOI || bit == Yaku::SANANKO || bit == Yaku::HONROTO
            || bit == Yaku::DOKO || bit == Yaku::SANKAN || bit == Yaku::SHOSANGEN
            || bit == Yaku::DBLREACH || bit == Yaku::HONISO_N || bit == Yaku::JUNCHAN_N {
            2
        } else if bit == Yaku::HONISO || bit == Yaku::JUNCHAN || bit == Yaku::LIANGPEKO {
            3
        } else if bit == Yaku::CHINISO {
            6
        } else if bit == Yaku::CHINISO_N {
            5
        } else {
            1
        }
    }
}

/// Bit `i` of a limit pattern set.
#[verifier::opaque]
pub open spec fn spec_ym_bit_at(bits: u32, i: u32) -> bool {
    bits & (1u32 << i) != 0
}

fn ym_bit_at(bits: u32, i: u32) -> (b: bool)
    requires
        i < 32,
    ensures
        b == spec_ym_bit_at(bits, i),
{
    proof {
        reveal(spec_ym_bit_at);
    }
    bits & (1u32 << i) != 0
}

/// The number of set bits below position `k`; each limit pattern
/// counts one.
pub open spec fn spec_yakuman_count_upto(bits: u32, k: int) -> int
    decreases k,
{
    if k <= 0 {
        0
    } else {
        spec_yakuman_count_upto(bits, k - 1) + if spec_ym_bit_at(bits, (k - 1) as u32) {
            1int
        } else {
            0int
        }
    }
}

/// The number of set bits among the twelve defined limit patterns.
pub open spec fn spec_yakuman_count(bits: u32) -> int {
    spec_yakuman_count_upto(bits, 12)
}

impl Yakuman {
    /// The total limit count of a pattern set.
    pub fn count_all(bits: u32) -> (r: u32)
        ensures
            r == spec_yakuman_count(bits),
            r <= 12,
    {
        let mut sum: u32 = 0;
        let mut i: u32 = 0;
        while i < 12
            invariant
                i <= 12,
                sum == spec_yakuman_count_upto(bits, i as int),
                sum <= i,
            decreases 12 - i,
        {
            if ym_bit_at(bits, i) {
                sum += 1;
            }
            i += 1;
        }
        sum
    }

    /// The limit count of one pattern bit: always one.
    pub fn count(&self) -> (r: u32)
        requires
            spec_single_yakuman(self.0),
        ensures
            r == 1,
    {
        1
    }
}

/// Bits that a dominating pattern removes before fan summation: a pure
/// flush hides the half flush, two identical runs hide one, a pure
/// terminal run hides the half-terminal run, and all-terminals-and-honors
/// hides the half-terminal run.
pub open spec fn spec_normalize_yaku(org: u64) -> u64 {
    let v1 = if org & Yaku::CHINISO != 0 || org & Yaku::CHINISO_N != 0 {
        org & !Yaku::HONISO & !Yaku::HONISO_N
    } else {
        org
    };
    let v2 = if v1 & Yaku::LIANGPEKO != 0 {
        v1 & !Yaku::IPEKO
    } else {
        v1
    };
    let v3 = if v2 & Yaku::JUNCHAN != 0 || v2 & Yaku::JUNCHAN_N != 0 {
        v2 & !Yaku::CHANTA & !Yaku::CHANTA_N
    } else {
        v2
    };
    if v3 & Yaku::HONROTO != 0 {
        v3 & !Yaku::CHANTA & !Yaku::CHANTA_N
    } else {
        v3
    }
}

/// Removes dominated bits in fixed priority order.
pub fn normalize_yaku(org: u64) -> (r: u64)
    ensures
        r == spec_normalize_yaku(org),
{
    let mut val = org;

    if val & Yaku::CHINISO != 0 || val & Yaku::CHINISO_N != 0 {
        val = val & !Yaku::HONISO & !Yaku::HONISO_N;
    }
    if val & Yaku::LIANGPEKO != 0 {
        val = val & !Yaku::IPEKO;
    }
    if val & Yaku::JUNCHAN != 0 || val & Yaku::JUNCHAN_N != 0 {
        val = val & !Yaku::CHANTA & !Yaku::CHANTA_N;
    }
    if val & Yaku::HONROTO != 0 {
        val = val & !Yaku::CHANTA & !Yaku::CHANTA_N;
    }

    val
}

/// Limit patterns never dominate each other; their set is already
/// normal.
pub fn normalize_yakuman(org: u32) -> (r: u32)
    ensures
        r == org,
{
    org
}

/// Normalizing an already-normalized pattern set changes nothing.
pub proof fn lemma_normalize_yaku_idempotent(org: u64)
    ensures
        spec_normalize_yaku(spec_normalize_yaku(org)) == spec_normalize_yaku(org),
{
    // The flush mask keeps every bit the conditions test and leaves
    // nothing of itself to clear twice.
    assert(forall|x: u64|
        #![auto]
        (x & !Yaku::HONISO & !Yaku::HONISO_N) & Yaku::CHINISO == x & Yaku::CHINISO
        && (x & !Yaku::HONISO & !Yaku::HONISO_N) & Yaku::CHINISO_N == x & Yaku::CHINISO_N
        && (x & !Yaku::HONISO & !Yaku::HONISO_N) & Yaku::LIANGPEKO == x & Yaku::LIANGPEKO
        && (x & !Yaku::HONISO & !Yaku::HONISO_N) & Yaku::JUNCHAN == x & Yaku::JUNCHAN
        && (x & !Yaku::HONISO & !Yaku::HONISO_N) & Yaku::JUNCHAN_N == x & Yaku::JUNCHAN_N
        && (x & !Yaku::HONISO & !Yaku::HONISO_N) & Yaku::HONROTO == x & Yaku::HONROTO
        && (x & !Yaku::HONISO & !Yaku::HONISO_N) & Yaku::HONISO == 0
        && (x & !Yaku::HONISO & !Yaku::HONISO_N) & Yaku::HONISO_N == 0) by (bit_vector);
    // The same for the one-run mask.
    assert(forall|x: u64|
        #![auto]
        (x & !Yaku::IPEKO) & Yaku::CHINISO == x & Yaku::CHINISO
        && (x & !Yaku::IPEKO) & Yaku::CHINISO_N == x & Yaku::CHINISO_N
        && (x & !Yaku::IPEKO) & Yaku::LIANGPEKO == x & Yaku::LIANGPEKO
        && (x & !Yaku::IPEKO) & Yaku::JUNCHAN == x & Yaku::JUNCHAN
        && (x & !Yaku::IPEKO) & Yaku::JUNCHAN_N == x & Yaku::JUNCHAN_N
        && (x & !Yaku::IPEKO) & Yaku::HONROTO == x & Yaku::HONROTO
        && (x & !Yaku::IPEKO) & Yaku::HONISO == x & Yaku::HONISO
        && (x & !Yaku::IPEKO) & Yaku::HONISO_N == x & Yaku::HONISO_N
        && (x & !Yaku::IPEKO) & Yaku::IPEKO == 0) by (bit_vector);
    // The same for the half-terminal mask.
    assert(forall|x: u64|
        #![auto]
        (x & !Yaku::CHANTA & !Yaku::CHANTA_N) & Yaku::CHINISO == x & Yaku::CHINISO
        && (x & !Yaku::CHANTA & !Yaku::CHANTA_N) & Yaku::CHINISO_N == x & Yaku::CHINISO_N
        && (x & !Yaku::CHANTA & !Yaku::CHANTA_N) & Yaku::LIANGPEKO == x & Yaku::LIANGPEKO
        && (x & !Yaku::CHANTA & !Yaku::CHANTA_N) & Yaku::JUNCHAN == x & Yaku::JUNCHAN
        && (x & !Yaku::CHANTA & !Yaku::CHANTA_N) & Yaku::JUNCHAN_N == x & Yaku::JUNCHAN_N
        && (x & !Yaku::CHANTA & !Yaku::CHANTA_N) & Yaku::HONROTO == x & Yaku::HONROTO
        && (x & !Yaku::CHANTA & !Yaku::CHANTA_N) & Yaku::HONISO == x & Yaku::HONISO
        && (x & !Yaku::CHANTA & !Yaku::CHANTA_N) & Yaku::HONISO_N == x & Yaku::HONISO_N
        && (x & !Yaku::CHANTA & !Yaku::CHANTA_N) & Yaku::IPEKO == x & Yaku::IPEKO
        && (x & !Yaku::CHANTA & !Yaku::CHANTA_N) & Yaku::CHANTA == 0
        && (x & !Yaku::CHANTA & !Yaku::CHANTA_N) & Yaku::CHANTA_N == 0) by (bit_vector);
    // A mask with nothing left to clear does nothing.
    assert(forall|x: u64|
        #![auto]
        (x & Yaku::HONISO == 0 && x & Yaku::HONISO_N == 0 ==> x & !Yaku::HONISO & !Yaku::HONISO_N
            == x)
        && (x & Yaku::IPEKO == 0 ==> x & !Yaku::IPEKO == x)
        && (x & Yaku::CHANTA == 0 && x & Yaku::CHANTA_N == 0 ==> x & !Yaku::CHANTA
            & !Yaku::CHANTA_N == x)) by (bit_vector);
}

/// The display name of the ordinary pattern at bit position `i`.
pub open spec fn spec_yaku_name_at(i: int) -> Seq<char> {
    if i == 0 {
        ("立直")@
    } else if i == 1 {
        ("一発")@
    } else if i == 2 {
        ("門前清自摸和")@
    } else if i == 3 {
        ("断么九")@
    } else if i == 4 {
        ("平和")@
    } else if i == 5 {
        ("一盃口")@
    } else if i == 6 {
        ("場風牌・東")@
    } else if i == 7 {
        ("場風牌・南")@
    } else if i == 8 {
        ("場風牌・西")@
    } else if i == 9 {
        ("場風牌・北")@
    } else if i == 10 {
        ("自風牌・東")@
    } else if i == 11 {
        ("自風牌・南")@
    } else if i == 12 {
        ("自風牌・西")@
    } else if i == 13 {
        ("自風牌・北")@
    } else if i == 14 {
        ("役牌・白")@
    } else if i == 15 {
        ("役牌・發")@
    } else if i == 16 {
        ("役牌・中")@
    } else if i == 17 {
        ("嶺上開花")@
    } else if i == 18 {
        ("搶槓")@
    } else if i == 19 {
        ("海底摸月")@
    } else if i == 20 {
        ("河底撈魚")@
    } else if i == 21 {
        ("三色同順")@
    } else if i == 22 {
        ("三色同順↓")@
    } else if i == 23 {
        ("一気通貫")@
    } else if i == 24 {
        ("一気通貫↓")@
    } else if i == 25 {
        ("混全帯么九")@
    } else if i == 26 {
        ("混全帯么九↓")@
    } else if i == 27 {
        ("七対子")@
    } else if i == 28 {
        ("対々和")@
    } else if i == 29 {
        ("三暗刻")@
    } else if i == 30 {
        ("混老頭")@
    } else if i == 31 {
        ("三色同刻")@
    } else if i == 32 {
        ("三槓子")@
    } else if i == 33 {
        ("小三元")@
    } else if i == 34 {
        ("ダブル立直")@
    } else if i == 35 {
        ("混一色")@
    } else if i == 36 {
        ("混一色↓")@
    } else if i == 37 {
        ("純全帯么九")@
    } else if i == 38 {
        ("純全帯么九↓")@
    } else if i == 39 {
        ("二盃口")@
    } else if i == 40 {
        ("清一色")@
    } else {
        ("清一色↓")@
    }
}

/// Distinct pattern bits display distinct names.
#[verifier::rlimit(100)]
pub proof fn lemma_yaku_names_distinct(i: int, j: int)
    requires
        0 <= i < 42,
        0 <= j < 42,
        i != j,
    ensures
        spec_yaku_name_at(i) != spec_yaku_name_at(j),
{
    reveal_strlit("立直");
    reveal_strlit("一発");
    reveal_strlit("門前清自摸和");
    reveal_strlit("断么九");
    reveal_strlit("平和");
    reveal_strlit("一盃口");
    reveal_strlit("場風牌・東");
    reveal_strlit("場風牌・南");
    reveal_strlit("場風牌・西");
    reveal_strlit("場風牌・北");
    reveal_strlit("自風牌・東");
    reveal_strlit("自風牌・南");
    reveal_strlit("自風牌・西");
    reveal_strlit("自風牌・北");
    reveal_strlit("役牌・白");
    reveal_strlit("役牌・發");
    reveal_strlit("役牌・中");
    reveal_strlit("嶺上開花");
    reveal_strlit("搶槓");
    reveal_strlit("海底摸月");
    reveal_strlit("河底撈魚");
    reveal_strlit("三色同順");
    reveal_strlit("三色同順↓");
    reveal_strlit("一気通貫");
    reveal_strlit("一気通貫↓");
    reveal_strlit("混全帯么九");
    reveal_strlit("混全帯么九↓");
    reveal_strlit("七対子");
    reveal_strlit("対々和");
    reveal_strlit("三暗刻");
    reveal_strlit("混老頭");
    reveal_strlit("三色同刻");
    reveal_strlit("三槓子");
    reveal_strlit("小三元");
    reveal_strlit("ダブル立直");
    reveal_strlit("混一色");
    reveal_strlit("混一色↓");
    reveal_strlit("純全帯么九");
    reveal_strlit("純全帯么九↓");
    reveal_strlit("二盃口");
    reveal_strlit("清一色");
    reveal_strlit("清一色↓");
    if spec_yaku_name_at(i).len() == spec_yaku_name_at(j).len() {
        // names of one length differ in their first character, or in
        // the character after a shared stem
        assert(spec_yaku_name_at(i)[0] != spec_yaku_name_at(j)[0] || spec_yaku_name_at(i)[1]
            != spec_yaku_name_at(j)[1] || spec_yaku_name_at(i)[3] != spec_yaku_name_at(j)[3]
            || spec_yaku_name_at(i)[4] != spec_yaku_name_at(j)[4]);
    }
}

/// The bit position of a single pattern bit of [`Yaku`].
pub open spec fn spec_yaku_index(bit: u64) -> int {
    if bit == Yaku::REACH {
        0
    } else if bit == Yaku::IPPATSU {
        1
    } else if bit == Yaku::TSUMO {
        2
    } else if bit == Yaku::TANYAO {
        3
    } else if bit == Yaku::PINHU {
        4
    } else if bit == Yaku::IPEKO {
        5
    } else if bit == Yaku::FIELD_E {
        6
    } else if bit == Yaku::FIELD_S {
        7
    } else if bit == Yaku::FIELD_W {
        8
    } else if bit == Yaku::FIELD_N {
        9
    } else if bit == Yaku::SELF_E {
        10
    } else if bit == Yaku::SELF_S {
        11
    } else if bit == Yaku::SELF_W {
        12
    } else if bit == Yaku::SELF_N {
        13
    } else if bit == Yaku::YAKU_HAKU {
        14
    } else if bit == Yaku::YAKU_HATSU {
        15
    } else if bit == Yaku::YAKU_CHUN {
        16
    } else if bit == Yaku::RINSHAN {
        17
    } else if bit == Yaku::CHANKAN {
        18
    } else if bit == Yaku::HAITEI {
        19
    } else if bit == Yaku::HOTEI {
        20
    } else if bit == Yaku::DOJUN {
        21
    } else if bit == Yaku::DOJUN_N {
        22
    } else if bit == Yaku::ITTSU {
        23
    } else if bit == Yaku::ITTSU_N {
        24
    } else if bit == Yaku::CHANTA {
        25
    } else if bit == Yaku::CHANTA_N {
        26
    } else if bit == Yaku::CHITOI {
        27
    } else if bit == Yaku::TOITOI {
        28
    } else if bit == Yaku::SANANKO {
        29
    } else if bit == Yaku::HONROTO {
        30
    } else if bit == Yaku::DOKO {
        31
    } else if bit == Yaku::SANKAN {
        32
    } else if bit == Yaku::SHOSANGEN {
        33
    } else if bit == Yaku::DBLREACH {
        34
    } else if bit == Yaku::HONISO {
        35
    } else if bit == Yaku::HONISO_N {
        36
    } else if bit == Yaku::JUNCHAN {
        37
    } else if bit == Yaku::JUNCHAN_N {
        38
    } else if bit == Yaku::LIANGPEKO {
        39
    } else if bit == Yaku::CHINISO {
        40
    } else {
        41
    }
}

fn japanese_yaku_at(i: u32) -> (r: &'static str)
    ensures
        r@ == spec_yaku_name_at(i as int),
        r@.len() > 0,
{
    if i == 0 {
        proof { reveal_strlit("立直"); }
        "立直"
    } else if i == 1 {
        proof { reveal_strlit("一発"); }
        "一発"
    } else if i == 2 {
        proof { reveal_strlit("門前清自摸和"); }
        "門前清自摸和"
    } else if i == 3 {
        proof { reveal_strlit("断么九"); }
        "断么九"
    } else if i == 4 {
        proof { reveal_strlit("平和"); }
        "平和"
    } else if i == 5 {
        proof { reveal_strlit("一盃口"); }
        "一盃口"
    } else if i == 6 {
        proof { reveal_strlit("場風牌・東"); }
        "場風牌・東"
    } else if i == 7 {
        proof { reveal_strlit("場風牌・南"); }
        "場風牌・南"
    } else if i == 8 {
        proof { reveal_strlit("場風牌・西"); }
        "場風牌・西"
    } else if i == 9 {
        proof { reveal_strlit("場風牌・北"); }
        "場風牌・北"
    } else if i == 10 {
        proof { reveal_strlit("自風牌・東"); }
        "自風牌・東"
    } else if i == 11 {
        proof { reveal_strlit("自風牌・南"); }
        "自風牌・南"
    } else if i == 12 {
        proof { reveal_strlit("自風牌・西"); }
        "自風牌・西"
    } else if i == 13 {
        proof { reveal_strlit("自風牌・北"); }
        "自風牌・北"
    } else if i == 14 {
        proof { reveal_strlit("役牌・白"); }
        "役牌・白"
    } else if i == 15 {
        proof { reveal_strlit("役牌・發"); }
        "役牌・發"
    } else if i == 16 {
        proof { reveal_strlit("役牌・中"); }
        "役牌・中"
    } else if i == 17 {
        proof { reveal_strlit("嶺上開花"); }
        "嶺上開花"
    } else if i == 18 {
        proof { reveal_strlit("搶槓"); }
        "搶槓"
    } else if i == 19 {
        proof { reveal_strlit("海底摸月"); }
        "海底摸月"
    } else if i == 20 {
        proof { reveal_strlit("河底撈魚"); }
        "河底撈魚"
    } else if i == 21 {
        proof { reveal_strlit("三色同順"); }
        "三色同順"
    } else if i == 22 {
        proof { reveal_strlit("三色同順↓"); }
        "三色同順↓"
    } else if i == 23 {
        proof { reveal_strlit("一気通貫"); }
        "一気通貫"
    } else if i == 24 {
        proof { reveal_strlit("一気通貫↓"); }
        "一気通貫↓"
    } else if i == 25 {
        proof { reveal_strlit("混全帯么九"); }
        "混全帯么九"
    } else if i == 26 {
        proof { reveal_strlit("混全帯么九↓"); }
        "混全帯么九↓"
    } else if i == 27 {
        proof { reveal_strlit("七対子"); }
        "七対子"
    } else if i == 28 {
        proof { reveal_strlit("対々和"); }
        "対々和"
    } else if i == 29 {
        proof { reveal_strlit("三暗刻"); }
        "三暗刻"
    } else if i == 30 {
        proof { reveal_strlit("混老頭"); }
        "混老頭"
    } else if i == 31 {
        proof { reveal_strlit("三色同刻"); }
        "三色同刻"
    } else if i == 32 {
        proof { reveal_strlit("三槓子"); }
        "三槓子"
    } else if i == 33 {
        proof { reveal_strlit("小三元"); }
        "小三元"
    } else if i == 34 {
        proof { reveal_strlit("ダブル立直"); }
        "ダブル立直"
    } else if i == 35 {
        proof { reveal_strlit("混一色"); }
        "混一色"
    } else if i == 36 {
        proof { reveal_strlit("混一色↓"); }
        "混一色↓"
    } else if i == 37 {
        proof { reveal_strlit("純全帯么九"); }
        "純全帯么九"
    } else if i == 38 {
        proof { reveal_strlit("純全帯么九↓"); }
        "純全帯么九↓"
    } else if i == 39 {
        proof { reveal_strlit("二盃口"); }
        "二盃口"
    } else if i == 40 {
        proof { reveal_strlit("清一色"); }
        "清一色"
    } else {
        proof { reveal_strlit("清一色↓"); }
        "清一色↓"
    }
}

/// The display name of the limit pattern at bit position `i`.
pub open spec fn spec_yakuman_name_at(i: int) -> Seq<char> {
    if i == 0 {
        ("国士無双")@
    } else if i == 1 {
        ("四暗刻")@
    } else if i == 2 {
        ("大三元")@
    } else if i == 3 {
        ("字一色")@
    } else if i == 4 {
        ("小四喜")@
    } else if i == 5 {
        ("大四喜")@
    } else if i == 6 {
        ("緑一色")@
    } else if i == 7 {
        ("清老頭")@
    } else if i == 8 {
        ("四槓子")@
    } else if i == 9 {
        ("九蓮宝燈")@
    } else if i == 10 {
        ("天和")@
    } else {
        ("地和")@
    }
}

/// Distinct limit pattern bits display distinct names.
pub proof fn lemma_yakuman_names_distinct(i: int, j: int)
    requires
        0 <= i < 12,
        0 <= j < 12,
        i != j,
    ensures
        spec_yakuman_name_at(i) != spec_yakuman_name_at(j),
{
    reveal_strlit("国士無双");
    reveal_strlit("四暗刻");
    reveal_strlit("大三元");
    reveal_strlit("字一色");
    reveal_strlit("小四喜");
    reveal_strlit("大四喜");
    reveal_strlit("緑一色");
    reveal_strlit("清老頭");
    reveal_strlit("四槓子");
    reveal_strlit("九蓮宝燈");
    reveal_strlit("天和");
    reveal_strlit("地和");
    if spec_yakuman_name_at(i).len() == spec_yakuman_name_at(j).len() {
        assert(spec_yakuman_name_at(i)[0] != spec_yakuman_name_at(j)[0] || spec_yakuman_name_at(
            i,
        )[1] != spec_yakuman_name_at(j)[1]);
    }
}

/// The bit position of a single pattern bit of [`Yakuman`].
pub open spec fn spec_yakuman_index(bit: u32) -> int {
    if bit == Yakuman::KOKUSHI {
        0
    } else if bit == Yakuman::SUANKO {
        1
    } else if bit == Yakuman::DAISANGEN {
        2
    } else if bit == Yakuman::TUISO {
        3
    } else if bit == Yakuman::SHOSUSHI {
        4
    } else if bit == Yakuman::DAISUSHI {
        5
    } else if bit == Yakuman::RYUISO {
        6
    } else if bit == Yakuman::CHINROTO {
        7
    } else if bit == Yakuman::SUKAN {
        8
    } else if bit == Yakuman::CHUREN {
        9
    } else if bit == Yakuman::TENHO {
        10
    } else {
        11
    }
}

fn japanese_yakuman_at(i: u32) -> (r: &'static str)
    ensures
        r@ == spec_yakuman_name_at(i as int),
        r@.len() > 0,
{
    if i == 0 {
        proof { reveal_strlit("国士無双"); }
        "国士無双"
    } else if i == 1 {
        proof { reveal_strlit("四暗刻"); }
        "四暗刻"
    } else if i == 2 {
        proof { reveal_strlit("大三元"); }
        "大三元"
    } else if i == 3 {
        proof { reveal_strlit("字一色"); }
        "字一色"
    } else if i == 4 {
        proof { reveal_strlit("小四喜"); }
        "小四喜"
    } else if i == 5 {
        proof { reveal_strlit("大四喜"); }
        "大四喜"
    } else if i == 6 {
        proof { reveal_strlit("緑一色"); }
        "緑一色"
    } else if i == 7 {
        proof { reveal_strlit("清老頭"); }
        "清老頭"
    } else if i == 8 {
        proof { reveal_strlit("四槓子"); }
        "四槓子"
    } else if i == 9 {
        proof { reveal_strlit("九蓮宝燈"); }
        "九蓮宝燈"
    } else if i == 10 {
        proof { reveal_strlit("天和"); }
        "天和"
    } else {
        proof { reveal_strlit("地和"); }
        "地和"
    }
}

/// The display names of the set bits of an ordinary pattern set below
/// position `n`, lowest bit first.
pub open spec fn spec_yaku_name_list(bits: u64, n: int) -> Seq<Seq<char>>
    decreases n,
{
    if n <= 0 {
        seq![]
    } else if spec_bit_at(bits, (n - 1) as u64) {
        spec_yaku_name_list(bits, n - 1).push(spec_yaku_name_at(n - 1))
    } else {
        spec_yaku_name_list(bits, n - 1)
    }
}

/// The display names of the set bits of a limit pattern set below
/// position `n`, lowest bit first.
pub open spec fn spec_yakuman_name_list(bits: u32, n: int) -> Seq<Seq<char>>
    decreases n,
{
    if n <= 0 {
        seq![]
    } else if spec_ym_bit_at(bits, (n - 1) as u32) {
        spec_yakuman_name_list(bits, n - 1).push(spec_yakuman_name_at(n - 1))
    } else {
        spec_yakuman_name_list(bits, n - 1)
    }
}

impl Yaku {
    /// The display name of one ordinary pattern bit.
    pub fn to_japanese_str(self) -> (r: &'static str)
        requires
            spec_single_yaku(self.0),
        ensures
            r@ == spec_yaku_name_at(spec_yaku_index(self.0)),
            r@.len() > 0,
    {
        let bit = self.0;
        let i: u32 = if bit == Yaku::REACH {
            0
        } else if bit == Yaku::IPPATSU {
            1
        } else if bit == Yaku::TSUMO {
            2
        } else if bit == Yaku::TANYAO {
            3
        } else if bit == Yaku::PINHU {
            4
        } else if bit == Yaku::IPEKO {
            5
        } else if bit == Yaku::FIELD_E {
            6
        } else if bit == Yaku::FIELD_S {
            7
        } else if bit == Yaku::FIELD_W {
            8
        } else if bit == Yaku::FIELD_N {
            9
        } else if bit == Yaku::SELF_E {
            10
        } else if bit == Yaku::SELF_S {
            11
        } else if bit == Yaku::SELF_W {
            12
        } else if bit == Yaku::SELF_N {
            13
        } else if bit == Yaku::YAKU_HAKU {
            14
        } else if bit == Yaku::YAKU_HATSU {
            15
        } else if bit == Yaku::YAKU_CHUN {
            16
        } else if bit == Yaku::RINSHAN {
            17
        } else if bit == Yaku::CHANKAN {
            18
        } else if bit == Yaku::HAITEI {
            19
        } else if bit == Yaku::HOTEI {
            20
        } else if bit == Yaku::DOJUN {
            21
        } else if bit == Yaku::DOJUN_N {
            22
        } else if bit == Yaku::ITTSU {
            23
        } else if bit == Yaku::ITTSU_N {
            24
        } else if bit == Yaku::CHANTA {
            25
        } else if bit == Yaku::CHANTA_N {
            26
        } else if bit == Yaku::CHITOI {
            27
        } else if bit == Yaku::TOITOI {
            28
        } else if bit == Yaku::SANANKO {
            29
        } else if bit == Yaku::HONROTO {
            30
        } else if bit == Yaku::DOKO {
            31
        } else if bit == Yaku::SANKAN {
            32
        } else if bit == Yaku::SHOSANGEN {
            33
        } else if bit == Yaku::DBLREACH {
            34
        } else if bit == Yaku::HONISO {
            35
        } else if bit == Yaku::HONISO_N {
            36
        } else if bit == Yaku::JUNCHAN {
            37
        } else if bit == Yaku::JUNCHAN_N {
            38
        } else if bit == Yaku::LIANGPEKO {
            39
        } else if bit == Yaku::CHINISO {
            40
                } else {
            41
        };
        japanese_yaku_at(i)
    }

    /// The display names of every set bit, lowest bit first.
    pub fn to_japanese_list(bits: u64) -> (r: Vec<&'static str>)
        ensures
            r@.len() == spec_yaku_name_list(bits, 42).len(),
            forall|k: int|
                0 <= k < r@.len() ==> #[trigger] r@[k]@ == spec_yaku_name_list(bits, 42)[k],
    {
        let mut result: Vec<&'static str> = Vec::new();
        let mut i: u64 = 0;
        while i < 42
            invariant
                i <= 42,
                result@.len() == spec_yaku_name_list(bits, i as int).len(),
                forall|k: int|
                    0 <= k < result@.len() ==> #[trigger] result@[k]@ == spec_yaku_name_list(
                        bits,
                        i as int,
                    )[k],
            decreases 42 - i,
        {
            if bit_at(bits, i) {
                result.push(japanese_yaku_at(i as u32));
            }
            i += 1;
        }
        result
    }
}

impl Yakuman {
    /// The display name of one limit pattern bit.
    pub fn to_japanese_str(self) -> (r: &'static str)
        requires
            spec_single_yakuman(self.0),
        ensures
            r@ == spec_yakuman_name_at(spec_yakuman_index(self.0)),
            r@.len() > 0,
    {
        let bit = self.0;
        let i: u32 = if bit == Yakuman::KOKUSHI {
            0
        } else if bit == Yakuman::SUANKO {
            1
        } else if bit == Yakuman::DAISANGEN {
            2
        } else if bit == Yakuman::TUISO {
            3
        } else if bit == Yakuman::SHOSUSHI {
            4
        } else if bit == Yakuman::DAISUSHI {
            5
        } else if bit == Yakuman::RYUISO {
            6
        } else if bit == Yakuman::CHINROTO {
            7
        } else if bit == Yakuman::SUKAN {
            8
        } else if bit == Yakuman::CHUREN {
            9
        } else if bit == Yakuman::TENHO {
            10
                } else {
            11
        };
        japanese_yakuman_at(i)
    }

    /// The display names of every set bit, lowest bit first.
    pub fn to_japanese_list(bits: u32) -> (r: Vec<&'static str>)
        ensures
            r@.len() == spec_yakuman_name_list(bits, 12).len(),
            forall|k: int|
                0 <= k < r@.len() ==> #[trigger] r@[k]@ == spec_yakuman_name_list(bits, 12)[k],
    {
        let mut result: Vec<&'static str> = Vec::new();
        let mut i: u32 = 0;
        while i < 12
            invariant
                i <= 12,
                result@.len() == spec_yakuman_name_list(bits, i as int).len(),
                forall|k: int|
                    0 <= k < result@.len() ==> #[trigger] result@[k]@ == spec_yakuman_name_list(
                        bits,
                        i as int,
                    )[k],
            decreases 12 - i,
        {
            if ym_bit_at(bits, i) {
                result.push(japanese_yakuman_at(i));
            }
            i += 1;
        }
        result
    }
}


/// Sets `mask` in `acc` when `cond` holds.
#[verifier::opaque]
pub open spec fn spec_add_bit(acc: u64, mask: u64, cond: bool) -> u64 {
    if cond {
        acc | mask
    } else {
        acc
    }
}

pub(crate) fn add_bit(acc: u64, mask: u64, cond: bool) -> (r: u64)
    ensures
        r == spec_add_bit(acc, mask, cond),
{
    proof {
        reveal(spec_add_bit);
    }
    if cond {
        acc | mask
    } else {
        acc
    }
}

/// Sets `mask` in `acc` when `cond` holds (limit pattern sets).
#[verifier::opaque]
pub open spec fn spec_add_bit32(acc: u32, mask: u32, cond: bool) -> u32 {
    if cond {
        acc | mask
    } else {
        acc
    }
}

fn add_bit32(acc: u32, mask: u32, cond: bool) -> (r: u32)
    ensures
        r == spec_add_bit32(acc, mask, cond),
{
    proof {
        reveal(spec_add_bit32);
    }
    if cond {
        acc | mask
    } else {
        acc
    }
}

/// No meld touches a terminal or honor.
pub open spec fn spec_all_tanyao(ms: Seq<Mianzi>) -> bool {
    forall|i: int| #![trigger ms[i]] 0 <= i < ms.len() ==> spec_mianzi_tanyao(ms[i])
}

fn all_tanyao(ms: &Vec<Mianzi>) -> (b: bool)
    requires
        spec_melds_wf(ms@),
    ensures
        b == spec_all_tanyao(ms@),
{
    let mut ok = true;
    let mut i: usize = 0;
    while i < ms.len()
        invariant
            i <= ms@.len(),
            spec_melds_wf(ms@),
            ok == (forall|j: int| #![trigger ms@[j]] 0 <= j < i ==> spec_mianzi_tanyao(ms@[j])),
        decreases ms@.len() - i,
    {
        let keep = ms[i].is_tanyao();
        ok = ok && keep;
        i += 1;
    }
    ok
}

/// Every meld touches a terminal or honor.
pub open spec fn spec_all_chanta(ms: Seq<Mianzi>) -> bool {
    forall|i: int| #![trigger ms[i]] 0 <= i < ms.len() ==> !spec_mianzi_tanyao(ms[i])
}

fn all_chanta(ms: &Vec<Mianzi>) -> (b: bool)
    requires
        spec_melds_wf(ms@),
    ensures
        b == spec_all_chanta(ms@),
{
    let mut ok = true;
    let mut i: usize = 0;
    while i < ms.len()
        invariant
            i <= ms@.len(),
            spec_melds_wf(ms@),
            ok == (forall|j: int| #![trigger ms@[j]] 0 <= j < i ==> !spec_mianzi_tanyao(ms@[j])),
        decreases ms@.len() - i,
    {
        let keep = ms[i].is_chanta();
        ok = ok && keep;
        i += 1;
    }
    ok
}

/// Every meld touches a numeric terminal and no honor.
pub open spec fn spec_all_junchan(ms: Seq<Mianzi>) -> bool {
    forall|i: int| #![trigger ms[i]] 0 <= i < ms.len() ==> spec_mianzi_junchan(ms[i])
}

fn all_junchan(ms: &Vec<Mianzi>) -> (b: bool)
    requires
        spec_melds_wf(ms@),
    ensures
        b == spec_all_junchan(ms@),
{
    let mut ok = true;
    let mut i: usize = 0;
    while i < ms.len()
        invariant
            i <= ms@.len(),
            spec_melds_wf(ms@),
            ok == (forall|j: int| #![trigger ms@[j]] 0 <= j < i ==> spec_mianzi_junchan(ms@[j])),
        decreases ms@.len() - i,
    {
        let keep = ms[i].is_junchan();
        ok = ok && keep;
        i += 1;
    }
    ok
}

/// Every meld is an identical-tile group.
pub open spec fn spec_all_same(ms: Seq<Mianzi>) -> bool {
    forall|i: int| #![trigger ms[i]] 0 <= i < ms.len() ==> spec_mt_same(ms[i].mtype)
}

fn all_same(ms: &Vec<Mianzi>) -> (b: bool)
    requires
        spec_melds_wf(ms@),
    ensures
        b == spec_all_same(ms@),
{
    let mut ok = true;
    let mut i: usize = 0;
    while i < ms.len()
        invariant
            i <= ms@.len(),
            spec_melds_wf(ms@),
            ok == (forall|j: int| #![trigger ms@[j]] 0 <= j < i ==> spec_mt_same(ms@[j].mtype)),
        decreases ms@.len() - i,
    {
        let keep = ms[i].mtype.is_same();
        ok = ok && keep;
        i += 1;
    }
    ok
}

/// Every meld keeps the hand concealed.
pub open spec fn spec_all_menzen(ms: Seq<Mianzi>) -> bool {
    forall|i: int| #![trigger ms[i]] 0 <= i < ms.len() ==> spec_mt_menzen(ms[i].mtype)
}

pub(crate) fn all_menzen(ms: &Vec<Mianzi>) -> (b: bool)
    requires
        spec_melds_wf(ms@),
    ensures
        b == spec_all_menzen(ms@),
{
    let mut ok = true;
    let mut i: usize = 0;
    while i < ms.len()
        invariant
            i <= ms@.len(),
            spec_melds_wf(ms@),
            ok == (forall|j: int| #![trigger ms@[j]] 0 <= j < i ==> spec_mt_menzen(ms@[j].mtype)),
        decreases ms@.len() - i,
    {
        let keep = ms[i].mtype.is_menzen();
        ok = ok && keep;
        i += 1;
    }
    ok
}

/// Every meld is a group or pair of terminals or honors.
pub open spec fn spec_all_honro(ms: Seq<Mianzi>) -> bool {
    forall|i: int| #![trigger ms[i]] 0 <= i < ms.len() ==> ((spec_mt_same(ms[i].mtype) || ms[i].mtype is Chitoi) && !spec_mianzi_tanyao(ms[i]))
}

fn all_honro(ms: &Vec<Mianzi>) -> (b: bool)
    requires
        spec_melds_wf(ms@),
    ensures
        b == spec_all_honro(ms@),
{
    let mut ok = true;
    let mut i: usize = 0;
    while i < ms.len()
        invariant
            i <= ms@.len(),
            spec_melds_wf(ms@),
            ok == (forall|j: int| #![trigger ms@[j]] 0 <= j < i ==> ((spec_mt_same(ms@[j].mtype) || ms@[j].mtype is Chitoi) && !spec_mianzi_tanyao(ms@[j]))),
        decreases ms@.len() - i,
    {
        let keep = (ms[i].mtype.is_same() || ms[i].mtype.is_chitoi()) && ms[i].is_chanta();
        ok = ok && keep;
        i += 1;
    }
    ok
}

/// Every meld holds only green tiles.
pub open spec fn spec_all_green(ms: Seq<Mianzi>) -> bool {
    forall|i: int| #![trigger ms[i]] 0 <= i < ms.len() ==> spec_mianzi_green(ms[i])
}

fn all_green(ms: &Vec<Mianzi>) -> (b: bool)
    requires
        spec_melds_wf(ms@),
    ensures
        b == spec_all_green(ms@),
{
    let mut ok = true;
    let mut i: usize = 0;
    while i < ms.len()
        invariant
            i <= ms@.len(),
            spec_melds_wf(ms@),
            ok == (forall|j: int| #![trigger ms@[j]] 0 <= j < i ==> spec_mianzi_green(ms@[j])),
        decreases ms@.len() - i,
    {
        let keep = ms[i].is_green();
        ok = ok && keep;
        i += 1;
    }
    ok
}

/// Every meld is a triple of numeric terminals.
pub open spec fn spec_all_chinro(ms: Seq<Mianzi>) -> bool {
    forall|i: int| #![trigger ms[i]] 0 <= i < ms.len() ==> (spec_mt_same(ms[i].mtype) && spec_is_jun(ms[i].pai))
}

fn all_chinro(ms: &Vec<Mianzi>) -> (b: bool)
    requires
        spec_melds_wf(ms@),
    ensures
        b == spec_all_chinro(ms@),
{
    let mut ok = true;
    let mut i: usize = 0;
    while i < ms.len()
        invariant
            i <= ms@.len(),
            spec_melds_wf(ms@),
            ok == (forall|j: int| #![trigger ms@[j]] 0 <= j < i ==> (spec_mt_same(ms@[j].mtype) && spec_is_jun(ms@[j].pai))),
        decreases ms@.len() - i,
    {
        let keep = ms[i].is_chinro();
        ok = ok && keep;
        i += 1;
    }
    ok
}

/// Every meld is of honor tiles.
pub open spec fn spec_all_ji(ms: Seq<Mianzi>) -> bool {
    forall|i: int| #![trigger ms[i]] 0 <= i < ms.len() ==> ms[i].pai >= 27
}

fn all_ji(ms: &Vec<Mianzi>) -> (b: bool)
    requires
        spec_melds_wf(ms@),
    ensures
        b == spec_all_ji(ms@),
{
    let mut ok = true;
    let mut i: usize = 0;
    while i < ms.len()
        invariant
            i <= ms@.len(),
            spec_melds_wf(ms@),
            ok == (forall|j: int| #![trigger ms@[j]] 0 <= j < i ==> ms@[j].pai >= 27),
        decreases ms@.len() - i,
    {
        let keep = ms[i].pai >= 27;
        ok = ok && keep;
        i += 1;
    }
    ok
}

/// How many melds are concealed identical-tile groups.
pub open spec fn spec_count_blind_same(ms: Seq<Mianzi>) -> int
    decreases ms.len(),
{
    if ms.len() == 0 {
        0
    } else {
        spec_count_blind_same(ms.drop_last()) + if spec_mt_same(ms.last().mtype) && spec_mt_blind(
            ms.last().mtype,
        ) {
            1int
        } else {
            0int
        }
    }
}

fn count_blind_same(ms: &Vec<Mianzi>) -> (r: usize)
    ensures
        r == spec_count_blind_same(ms@),
        r <= ms@.len(),
{
    let mut cnt: usize = 0;
    let mut i: usize = 0;
    while i < ms.len()
        invariant
            i <= ms@.len(),
            cnt == spec_count_blind_same(ms@.take(i as int)),
            cnt <= i,
        decreases ms@.len() - i,
    {
        proof {
            assert(ms@.take(i + 1).drop_last() =~= ms@.take(i as int));
        }
        if ms[i].mtype.is_same() && ms[i].mtype.is_blind() {
            cnt += 1;
        }
        i += 1;
    }
    proof {
        assert(ms@.take(ms@.len() as int) =~= ms@);
    }
    cnt
}

/// How many melds are kans.
pub open spec fn spec_count_kan(ms: Seq<Mianzi>) -> int
    decreases ms.len(),
{
    if ms.len() == 0 {
        0
    } else {
        spec_count_kan(ms.drop_last()) + if spec_mt_kan(ms.last().mtype) {
            1int
        } else {
            0int
        }
    }
}

fn count_kan(ms: &Vec<Mianzi>) -> (r: usize)
    ensures
        r == spec_count_kan(ms@),
        r <= ms@.len(),
{
    let mut cnt: usize = 0;
    let mut i: usize = 0;
    while i < ms.len()
        invariant
            i <= ms@.len(),
            cnt == spec_count_kan(ms@.take(i as int)),
            cnt <= i,
        decreases ms@.len() - i,
    {
        proof {
            assert(ms@.take(i + 1).drop_last() =~= ms@.take(i as int));
        }
        if ms[i].mtype.is_kan() {
            cnt += 1;
        }
        i += 1;
    }
    proof {
        assert(ms@.take(ms@.len() as int) =~= ms@);
    }
    cnt
}

/// Some identical-tile meld is of tile `pai`.
pub open spec fn spec_has_same_at(ms: Seq<Mianzi>, pai: u8) -> bool {
    exists|i: int| #![trigger ms[i]] 0 <= i < ms.len() && spec_mt_same(ms[i].mtype) && ms[i].pai == pai
}

fn has_same_at(ms: &Vec<Mianzi>, pai: u8) -> (b: bool)
    ensures
        b == spec_has_same_at(ms@, pai),
{
    let mut i: usize = 0;
    while i < ms.len()
        invariant
            i <= ms@.len(),
            forall|j: int| #![trigger ms@[j]] 0 <= j < i ==> !(spec_mt_same(ms@[j].mtype) && ms@[j].pai == pai),
        decreases ms@.len() - i,
    {
        if ms[i].mtype.is_same() && ms[i].pai == pai {
            return true;
        }
        i += 1;
    }
    false
}

/// Some run meld is anchored at tile `pai`.
pub open spec fn spec_has_ordered_at(ms: Seq<Mianzi>, pai: u8) -> bool {
    exists|i: int| #![trigger ms[i]] 0 <= i < ms.len() && spec_mt_ordered(ms[i].mtype) && ms[i].pai == pai
}

fn has_ordered_at(ms: &Vec<Mianzi>, pai: u8) -> (b: bool)
    ensures
        b == spec_has_ordered_at(ms@, pai),
{
    let mut i: usize = 0;
    while i < ms.len()
        invariant
            i <= ms@.len(),
            forall|j: int| #![trigger ms@[j]] 0 <= j < i ==> !(spec_mt_ordered(ms@[j].mtype) && ms@[j].pai == pai),
        decreases ms@.len() - i,
    {
        if ms[i].mtype.is_ordered() && ms[i].pai == pai {
            return true;
        }
        i += 1;
    }
    false
}

/// Two distinct melds are identical runs.
pub open spec fn spec_ipeko(ms: Seq<Mianzi>) -> bool {
    exists|i: int, j: int|
        #![trigger ms[i], ms[j]]
        0 <= i < ms.len() && 0 <= j < ms.len() && i != j && spec_mt_ordered(ms[i].mtype)
            && spec_mt_ordered(ms[j].mtype) && ms[i].pai == ms[j].pai
}

fn has_ipeko(ms: &Vec<Mianzi>) -> (b: bool)
    ensures
        b == spec_ipeko(ms@),
{
    let mut i: usize = 0;
    while i < ms.len()
        invariant
            i <= ms@.len(),
            forall|a: int, b2: int|
                #![trigger ms@[a], ms@[b2]]
                0 <= a < i && 0 <= b2 < ms@.len() && a != b2 ==> !(spec_mt_ordered(ms@[a].mtype)
                    && spec_mt_ordered(ms@[b2].mtype) && ms@[a].pai == ms@[b2].pai),
        decreases ms@.len() - i,
    {
        let mut j: usize = 0;
        while j < ms.len()
            invariant
                i < ms@.len(),
                j <= ms@.len(),
                forall|a: int, b2: int|
                    #![trigger ms@[a], ms@[b2]]
                    0 <= a < i && 0 <= b2 < ms@.len() && a != b2 ==> !(spec_mt_ordered(ms@[a].mtype)
                        && spec_mt_ordered(ms@[b2].mtype) && ms@[a].pai == ms@[b2].pai),
                forall|b2: int|
                    #![trigger ms@[b2]]
                    0 <= b2 < j && b2 != i ==> !(spec_mt_ordered(ms@[i as int].mtype)
                        && spec_mt_ordered(ms@[b2].mtype) && ms@[i as int].pai == ms@[b2].pai),
            decreases ms@.len() - j,
        {
            if i != j && ms[i].mtype.is_ordered() && ms[j].mtype.is_ordered() && ms[i].pai
                == ms[j].pai {
                return true;
            }
            j += 1;
        }
        i += 1;
    }
    false
}

/// The same run appears in all three numeric suits.
pub open spec fn spec_dojun(ms: Seq<Mianzi>) -> bool {
    exists|n: u8|
        n < 7 && spec_has_ordered_at(ms, n) && #[trigger] spec_has_ordered_at(ms, (n + 9) as u8)
            && spec_has_ordered_at(ms, (n + 18) as u8)
}

fn has_dojun(ms: &Vec<Mianzi>) -> (b: bool)
    ensures
        b == spec_dojun(ms@),
{
    let mut n: u8 = 0;
    while n < 7
        invariant
            n <= 7,
            forall|m: u8|
                m < n ==> !(spec_has_ordered_at(ms@, m) && #[trigger] spec_has_ordered_at(
                    ms@,
                    (m + 9) as u8,
                ) && spec_has_ordered_at(ms@, (m + 18) as u8)),
        decreases 7 - n,
    {
        if has_ordered_at(ms, n) && has_ordered_at(ms, n + 9) && has_ordered_at(ms, n + 18) {
            return true;
        }
        n += 1;
    }
    false
}

/// One suit holds the runs 1-2-3, 4-5-6 and 7-8-9.
pub open spec fn spec_ittsu(ms: Seq<Mianzi>) -> bool {
    exists|k: u8|
        k < 3 && spec_has_ordered_at(ms, (k * 9) as u8) && #[trigger] spec_has_ordered_at(
            ms,
            (k * 9 + 3) as u8,
        ) && spec_has_ordered_at(ms, (k * 9 + 6) as u8)
}

fn has_ittsu(ms: &Vec<Mianzi>) -> (b: bool)
    ensures
        b == spec_ittsu(ms@),
{
    let mut k: u8 = 0;
    while k < 3
        invariant
            k <= 3,
            forall|m: u8|
                m < k ==> !(spec_has_ordered_at(ms@, (m * 9) as u8) && #[trigger] spec_has_ordered_at(
                    ms@,
                    (m * 9 + 3) as u8,
                ) && spec_has_ordered_at(ms@, (m * 9 + 6) as u8)),
        decreases 3 - k,
    {
        if has_ordered_at(ms, k * 9) && has_ordered_at(ms, k * 9 + 3) && has_ordered_at(
            ms,
            k * 9 + 6,
        ) {
            return true;
        }
        k += 1;
    }
    false
}

/// The same triple appears in all three numeric suits.
pub open spec fn spec_doko(ms: Seq<Mianzi>) -> bool {
    exists|n: u8|
        n < 9 && spec_has_same_at(ms, n) && #[trigger] spec_has_same_at(ms, (n + 9) as u8)
            && spec_has_same_at(ms, (n + 18) as u8)
}

fn has_doko(ms: &Vec<Mianzi>) -> (b: bool)
    ensures
        b == spec_doko(ms@),
{
    let mut n: u8 = 0;
    while n < 9
        invariant
            n <= 9,
            forall|m: u8|
                m < n ==> !(spec_has_same_at(ms@, m) && #[trigger] spec_has_same_at(
                    ms@,
                    (m + 9) as u8,
                ) && spec_has_same_at(ms@, (m + 18) as u8)),
        decreases 9 - n,
    {
        if has_same_at(ms, n) && has_same_at(ms, n + 9) && has_same_at(ms, n + 18) {
            return true;
        }
        n += 1;
    }
    false
}

/// Two disjoint pairs of identical runs among the first four melds.
pub open spec fn spec_liangpeko_pat(ms: Seq<Mianzi>, a: int, b: int, c: int, d: int) -> bool {
    spec_mt_ordered(ms[a].mtype) && spec_mt_ordered(ms[b].mtype) && ms[a].pai == ms[b].pai
        && spec_mt_ordered(ms[c].mtype) && spec_mt_ordered(ms[d].mtype) && ms[c].pai == ms[d].pai
}

pub open spec fn spec_liangpeko(ms: Seq<Mianzi>) -> bool {
    ms.len() >= 4 && (spec_liangpeko_pat(ms, 0, 1, 2, 3) || spec_liangpeko_pat(ms, 0, 2, 1, 3)
        || spec_liangpeko_pat(ms, 0, 3, 1, 2) || spec_liangpeko_pat(ms, 1, 2, 0, 3)
        || spec_liangpeko_pat(ms, 1, 3, 0, 2) || spec_liangpeko_pat(ms, 2, 3, 0, 1))
}

fn liangpeko_pat(ms: &Vec<Mianzi>, a: usize, b: usize, c: usize, d: usize) -> (r: bool)
    requires
        a < ms@.len(),
        b < ms@.len(),
        c < ms@.len(),
        d < ms@.len(),
    ensures
        r == spec_liangpeko_pat(ms@, a as int, b as int, c as int, d as int),
{
    ms[a].mtype.is_ordered() && ms[b].mtype.is_ordered() && ms[a].pai == ms[b].pai
        && ms[c].mtype.is_ordered() && ms[d].mtype.is_ordered() && ms[c].pai == ms[d].pai
}

fn has_liangpeko(ms: &Vec<Mianzi>) -> (b: bool)
    ensures
        b == spec_liangpeko(ms@),
{
    if ms.len() < 4 {
        return false;
    }
    liangpeko_pat(ms, 0, 1, 2, 3) || liangpeko_pat(ms, 0, 2, 1, 3) || liangpeko_pat(ms, 0, 3, 1, 2)
        || liangpeko_pat(ms, 1, 2, 0, 3) || liangpeko_pat(ms, 1, 3, 0, 2) || liangpeko_pat(
        ms,
        2,
        3,
        0,
        1,
    )
}

/// All non-honor melds share one suit, and a non-honor pair requires
/// such a meld of its own suit.
pub open spec fn spec_honiso(ms: Seq<Mianzi>, head: Option<u8>) -> bool {
    &&& forall|i: int, j: int|
        #![trigger ms[i], ms[j]]
        0 <= i < ms.len() && 0 <= j < ms.len() && ms[i].pai < 27 && ms[j].pai < 27 ==> ms[i].pai / 9
            == ms[j].pai / 9
    &&& match head {
        Some(hd) => hd < 27 ==> (exists|i: int| 0 <= i < ms.len() && #[trigger] ms[i].pai < 27)
            && (forall|i: int|
            #![trigger ms[i]]
            0 <= i < ms.len() && ms[i].pai < 27 ==> ms[i].pai / 9 == hd / 9),
        None => true,
    }
}

fn is_honiso(ms: &Vec<Mianzi>, head: Option<u8>) -> (b: bool)
    ensures
        b == spec_honiso(ms@, head),
{
    let mut yes = true;
    let mut color: Option<u8> = None;
    let mut i: usize = 0;
    while i < ms.len()
        invariant
            i <= ms@.len(),
            color is None <==> (forall|j: int| #![trigger ms@[j]] 0 <= j < i ==> ms@[j].pai >= 27),
            color matches Some(c) ==> (exists|j: int|
                0 <= j < i && #[trigger] ms@[j].pai < 27 && ms@[j].pai / 9 == c),
            yes ==> (forall|a: int, b2: int|
                #![trigger ms@[a], ms@[b2]]
                0 <= a < i && 0 <= b2 < i && ms@[a].pai < 27 && ms@[b2].pai < 27 ==> ms@[a].pai / 9
                    == ms@[b2].pai / 9),
            match color {
                Some(c) => yes ==> (forall|j: int|
                    #![trigger ms@[j]]
                    0 <= j < i && ms@[j].pai < 27 ==> ms@[j].pai / 9 == c),
                None => true,
            },
            !yes ==> (exists|a: int, b2: int|
                #![trigger ms@[a], ms@[b2]]
                0 <= a < i && 0 <= b2 < i && ms@[a].pai < 27 && ms@[b2].pai < 27 && ms@[a].pai / 9
                    != ms@[b2].pai / 9),
        decreases ms@.len() - i,
    {
        let pai = ms[i].pai;
        if pai < 27 {
            let k = pai / 9;
            match color {
                Option::None => {
                    color = Some(k);
                }
                Option::Some(c) => {
                    if c != k {
                        yes = false;
                    }
                }
            }
        }
        i += 1;
    }
    if let Some(hd) = head {
        if hd < 27 {
            match color {
                Option::None => {
                    yes = false;
                }
                Option::Some(c) => {
                    if c != hd / 9 {
                        yes = false;
                    }
                }
            }
        }
    }
    yes
}

/// Every meld lies in one suit, numeric, and the pair lies in it too.
pub open spec fn spec_chiniso(ms: Seq<Mianzi>, head: Option<u8>) -> bool {
    &&& ms.len() > 0
    &&& ms[0].pai / 9 != 3
    &&& forall|i: int| #![trigger ms[i]] 0 <= i < ms.len() ==> ms[i].pai / 9 == ms[0].pai / 9
    &&& (head matches Some(hd) ==> hd / 9 == ms[0].pai / 9)
}

fn is_chiniso(ms: &Vec<Mianzi>, head: Option<u8>) -> (b: bool)
    requires
        ms@.len() > 0,
    ensures
        b == spec_chiniso(ms@, head),
{
    let color = ms[0].pai / 9;
    if color == 3 {
        return false;
    }
    let mut yes = true;
    let mut i: usize = 0;
    while i < ms.len()
        invariant
            i <= ms@.len(),
            ms@.len() > 0,
            color == ms@[0].pai / 9,
            yes == (forall|j: int| #![trigger ms@[j]] 0 <= j < i ==> ms@[j].pai / 9 == color),
        decreases ms@.len() - i,
    {
        let keep = ms[i].pai / 9 == color;
        yes = yes && keep;
        i += 1;
    }
    if let Some(hd) = head {
        if hd / 9 != color {
            yes = false;
        }
    }
    yes
}

/// Two dragon triples and the dragon pair.
pub open spec fn spec_shosangen(ms: Seq<Mianzi>, head: Option<u8>) -> bool {
    head matches Some(hd) && ((spec_has_same_at(ms, 31) && spec_has_same_at(ms, 32) && hd == 33) || (
    spec_has_same_at(ms, 32) && spec_has_same_at(ms, 33) && hd == 31) || (spec_has_same_at(ms, 33)
        && spec_has_same_at(ms, 31) && hd == 32))
}

/// The pattern bit of the round wind.
pub open spec fn spec_field_wind_bit(w: u8) -> u64 {
    if w == 0 {
        Yaku::FIELD_E
    } else if w == 1 {
        Yaku::FIELD_S
    } else if w == 2 {
        Yaku::FIELD_W
    } else {
        Yaku::FIELD_N
    }
}

fn field_wind_bit(w: u8) -> (r: u64)
    ensures
        r == spec_field_wind_bit(w),
{
    if w == 0 {
        Yaku::FIELD_E
    } else if w == 1 {
        Yaku::FIELD_S
    } else if w == 2 {
        Yaku::FIELD_W
    } else {
        Yaku::FIELD_N
    }
}

/// The pattern bit of the seat wind.
pub open spec fn spec_self_wind_bit(w: u8) -> u64 {
    if w == 0 {
        Yaku::SELF_E
    } else if w == 1 {
        Yaku::SELF_S
    } else if w == 2 {
        Yaku::SELF_W
    } else {
        Yaku::SELF_N
    }
}

fn self_wind_bit(w: u8) -> (r: u64)
    ensures
        r == spec_self_wind_bit(w),
{
    if w == 0 {
        Yaku::SELF_E
    } else if w == 1 {
        Yaku::SELF_S
    } else if w == 2 {
        Yaku::SELF_W
    } else {
        Yaku::SELF_N
    }
}

/// The pair is free of terminals and honors, or there is no pair.
pub open spec fn spec_head_tanyao(head: Option<u8>) -> bool {
    match head {
        Some(hd) => !spec_is_yao(hd),
        None => true,
    }
}

/// The pair is a terminal or honor, or there is no pair.
pub open spec fn spec_head_yao(head: Option<u8>) -> bool {
    match head {
        Some(hd) => spec_is_yao(hd),
        None => true,
    }
}

/// The pair is of honor tiles, or there is no pair.
pub open spec fn spec_head_ji(head: Option<u8>) -> bool {
    match head {
        Some(hd) => hd >= 27,
        None => true,
    }
}

/// All four wind triples.
pub open spec fn spec_daisushi(ms: Seq<Mianzi>) -> bool {
    spec_has_same_at(ms, 27) && spec_has_same_at(ms, 28) && spec_has_same_at(ms, 29)
        && spec_has_same_at(ms, 30)
}

/// Three wind triples and the fourth wind as the pair.
pub open spec fn spec_shosushi(ms: Seq<Mianzi>, head: Option<u8>) -> bool {
    head matches Some(hd) && ((hd == 27 && spec_has_same_at(ms, 28) && spec_has_same_at(ms, 29)
        && spec_has_same_at(ms, 30)) || (spec_has_same_at(ms, 27) && hd == 28 && spec_has_same_at(
        ms,
        29,
    ) && spec_has_same_at(ms, 30)) || (spec_has_same_at(ms, 27) && spec_has_same_at(ms, 28) && hd
        == 29 && spec_has_same_at(ms, 30)) || (spec_has_same_at(ms, 27) && spec_has_same_at(ms, 28)
        && spec_has_same_at(ms, 29) && hd == 30))
}

/// The tile counts the nine-gates template demands of each rank: three
/// of the terminals, one of everything else.
pub open spec fn spec_churen_req(n: int) -> int {
    if n == 1 || n == 9 {
        3
    } else {
        1
    }
}

/// How many of the first `n` ranks of suit `k` hold one tile more than
/// the template.
pub open spec fn spec_churen_extras(b: Seq<u8>, k: int, n: int) -> int
    decreases n,
{
    if n <= 0 {
        0
    } else {
        spec_churen_extras(b, k, n - 1) + if b[k * 9 + n - 1] == spec_churen_req(n) + 1 {
            1int
        } else {
            0int
        }
    }
}

/// Suit `k` of the bucket matches the nine-gates template with at most
/// one extra tile.
pub open spec fn spec_churen_kind(b: Seq<u8>, k: int) -> bool {
    &&& forall|m: int|
        1 <= m <= 9 ==> (#[trigger] b[k * 9 + m - 1] == spec_churen_req(m) || b[k * 9 + m - 1]
            == spec_churen_req(m) + 1)
    &&& spec_churen_extras(b, k, 9) <= 1
}

fn churen_kind(b: &Bucket, k: u8) -> (r: bool)
    requires
        k < 3,
    ensures
        r == spec_churen_kind(b@, k as int),
{
    let mut yes = true;
    let mut one_more = false;
    let mut n: u8 = 1;
    while n <= 9
        invariant
            1 <= n <= 10,
            b@.len() == 34,
            k < 3,
            yes == ((forall|m: int|
                1 <= m < n ==> (#[trigger] b@[k * 9 + m - 1] == spec_churen_req(m) || b@[k * 9 + m
                    - 1] == spec_churen_req(m) + 1)) && spec_churen_extras(b@, k as int, n - 1)
                <= 1),
            yes ==> (one_more <==> spec_churen_extras(b@, k as int, n - 1) == 1),
        decreases 10 - n,
    {
        proof {
            lemma_churen_extras_nonneg(b@, k as int, n - 1);
        }
        let pos = (k as usize) * 9 + (n as usize) - 1;
        let has = b[pos];
        let req: u8 = if n == 1 || n == 9 {
            3
        } else {
            1
        };
        if has == req + 1 {
            if one_more {
                yes = false;
            } else {
                one_more = true;
            }
        } else if has != req {
            yes = false;
        }
        n += 1;
    }
    yes
}

proof fn lemma_churen_extras_nonneg(b: Seq<u8>, k: int, n: int)
    ensures
        0 <= spec_churen_extras(b, k, n),
        n >= 1 ==> spec_churen_extras(b, k, n - 1) <= spec_churen_extras(b, k, n),
    decreases n,
{
    if n > 0 {
        lemma_churen_extras_nonneg(b, k, n - 1);
    }
}

/// The tile counts of the pair and melds of a finished hand, laid over
/// an empty bucket.
pub open spec fn spec_churen_base(head: u8) -> Seq<u8> {
    Seq::new(34, |i: int| if i == head as int { 2u8 } else { 0u8 })
}

pub open spec fn spec_bucket_after(base: Seq<u8>, ms: Seq<Mianzi>) -> Seq<u8>
    decreases ms.len(),
{
    if ms.len() == 0 {
        base
    } else {
        spec_meld_added(spec_bucket_after(base, ms.drop_last()), ms.last())
    }
}

proof fn lemma_meld_added_bound(b: Seq<u8>, m: Mianzi)
    requires
        b.len() == 34,
        spec_mianzi_wf(m),
        forall|v: int| 0 <= v < 34 ==> #[trigger] b[v] <= 251,
    ensures
        spec_meld_added(b, m).len() == 34,
        forall|v: int| 0 <= v < 34 ==> #[trigger] spec_meld_added(b, m)[v] <= b[v] + 4,
{
}

/// A concealed pure-suit hand matching the nine-gates count template
/// with exactly one tile in surplus; kans disqualify it.
pub open spec fn spec_churen_at(hd: u8, ms: Seq<Mianzi>) -> bool {
    spec_count_kan(ms) == 0 && exists|k: int|
        0 <= k < 3 && #[trigger] spec_churen_kind(
            spec_bucket_after(spec_churen_base(hd), ms),
            k,
        )
}

pub open spec fn spec_churen(h: FinishHand) -> bool {
    match h.head {
        Some(hd) => spec_churen_at(hd, h.mianzi_list@),
        None => false,
    }
}

fn is_churen(h: &FinishHand) -> (b: bool)
    requires
        spec_fhand_wf(*h),
    ensures
        b == spec_churen(*h),
{
    let hd = match h.head {
        Option::Some(hd) => hd,
        Option::None => {
            return false;
        }
    };
    if count_kan(&h.mianzi_list) != 0 {
        return false;
    }
    let mut bucket: Bucket = [0u8; 34];
    bucket.set(hd as usize, 2);
    let ghost base = spec_churen_base(hd);
    proof {
        assert(bucket@ =~= base);
    }
    let ms = &h.mianzi_list;
    let mut i: usize = 0;
    while i < ms.len()
        invariant
            i <= ms@.len(),
            ms@.len() <= 7,
            spec_melds_wf(ms@),
            bucket@.len() == 34,
            bucket@ == spec_bucket_after(base, ms@.take(i as int)),
            forall|v: int| 0 <= v < 34 ==> #[trigger] bucket@[v] <= 2 + 4 * i,
        decreases ms@.len() - i,
    {
        proof {
            assert(ms@.take(i + 1).drop_last() =~= ms@.take(i as int));
            lemma_meld_added_bound(bucket@, ms@[i as int]);
        }
        let m = ms[i];
        m.to_bucket(&mut bucket);
        i += 1;
    }
    proof {
        assert(ms@.take(ms@.len() as int) =~= ms@);
    }
    let mut k: u8 = 0;
    while k < 3
        invariant
            k <= 3,
            h.head == Some(hd),
            spec_count_kan(h.mianzi_list@) == 0,
            bucket@ == spec_bucket_after(spec_churen_base(hd), h.mianzi_list@),
            forall|k2: int| 0 <= k2 < k ==> !spec_churen_kind(bucket@, k2),
        decreases 3 - k,
    {
        if churen_kind(&bucket, k) {
            proof {
                assert(spec_churen_at(hd, h.mianzi_list@)) by {
                    assert(spec_churen_kind(
                        spec_bucket_after(spec_churen_base(hd), h.mianzi_list@),
                        k as int,
                    ));
                }
            }
            return true;
        }
        k += 1;
    }
    false
}

/// Stage one of the raw pattern set: the one-fan context and tile
/// patterns.
pub open spec fn spec_yaku_raw_a(h: FinishHand, p: PointParam, menzen: bool) -> u64 {
    let ms = h.mianzi_list@;
    let y = spec_add_bit(0, Yaku::REACH, p.reach is Single);
    let y = spec_add_bit(y, Yaku::IPPATSU, p.reach is Single && p.reach_first);
    let y = spec_add_bit(y, Yaku::TSUMO, menzen && h.tumo);
    let y = spec_add_bit(y, Yaku::TANYAO, spec_all_tanyao(ms) && spec_head_tanyao(h.head));
    let y = spec_add_bit(y, Yaku::IPEKO, menzen && spec_ipeko(ms));
    let y = spec_add_bit(
        y,
        spec_field_wind_bit(p.field_wind),
        spec_has_same_at(ms, (27 + p.field_wind) as u8),
    );
    let y = spec_add_bit(
        y,
        spec_self_wind_bit(p.self_wind),
        spec_has_same_at(ms, (27 + p.self_wind) as u8),
    );
    let y = spec_add_bit(y, Yaku::YAKU_HAKU, spec_has_same_at(ms, 31));
    let y = spec_add_bit(y, Yaku::YAKU_HATSU, spec_has_same_at(ms, 32));
    let y = spec_add_bit(y, Yaku::YAKU_CHUN, spec_has_same_at(ms, 33));
    let y = spec_add_bit(y, Yaku::RINSHAN, p.lingshang);
    let y = spec_add_bit(y, Yaku::CHANKAN, p.chankan);
    let y = spec_add_bit(y, Yaku::HAITEI, p.haitei);
    spec_add_bit(y, Yaku::HOTEI, p.houtei)
}

/// Stage two: the two-fan shape patterns.
pub open spec fn spec_yaku_raw_b(y0: u64, h: FinishHand, p: PointParam, menzen: bool) -> u64 {
    let ms = h.mianzi_list@;
    let y = spec_add_bit(y0, Yaku::DOJUN, menzen && spec_dojun(ms));
    let y = spec_add_bit(y, Yaku::DOJUN_N, !menzen && spec_dojun(ms));
    let y = spec_add_bit(y, Yaku::ITTSU, menzen && spec_ittsu(ms));
    let y = spec_add_bit(y, Yaku::ITTSU_N, !menzen && spec_ittsu(ms));
    let y = spec_add_bit(y, Yaku::CHANTA, menzen && spec_all_chanta(ms) && spec_head_yao(h.head));
    let y = spec_add_bit(
        y,
        Yaku::CHANTA_N,
        !menzen && spec_all_chanta(ms) && spec_head_yao(h.head),
    );
    let y = spec_add_bit(y, Yaku::CHITOI, h.finish_type is Chitoi);
    let y = spec_add_bit(y, Yaku::TOITOI, spec_all_same(ms));
    let y = spec_add_bit(y, Yaku::SANANKO, spec_count_blind_same(ms) >= 3);
    let y = spec_add_bit(y, Yaku::HONROTO, spec_all_honro(ms) && spec_head_yao(h.head));
    let y = spec_add_bit(y, Yaku::DOKO, spec_doko(ms));
    let y = spec_add_bit(y, Yaku::SANKAN, spec_count_kan(ms) >= 3);
    let y = spec_add_bit(y, Yaku::SHOSANGEN, spec_shosangen(ms, h.head));
    spec_add_bit(y, Yaku::DBLREACH, p.reach is Double)
}

/// Stage three: the flush and pure-run patterns.
pub open spec fn spec_yaku_raw_c(y0: u64, h: FinishHand, p: PointParam, menzen: bool) -> u64 {
    let ms = h.mianzi_list@;
    let y = spec_add_bit(y0, Yaku::HONISO, menzen && spec_honiso(ms, h.head));
    let y = spec_add_bit(y, Yaku::HONISO_N, !menzen && spec_honiso(ms, h.head));
    let y = spec_add_bit(y, Yaku::JUNCHAN, menzen && spec_all_junchan(ms) && spec_head_yao(h.head));
    let y = spec_add_bit(
        y,
        Yaku::JUNCHAN_N,
        !menzen && spec_all_junchan(ms) && spec_head_yao(h.head),
    );
    let y = spec_add_bit(y, Yaku::LIANGPEKO, menzen && spec_liangpeko(ms));
    let y = spec_add_bit(y, Yaku::CHINISO, menzen && spec_chiniso(ms, h.head));
    spec_add_bit(y, Yaku::CHINISO_N, !menzen && spec_chiniso(ms, h.head))
}

/// The raw ordinary-pattern set of a standard or seven-pairs
/// decomposition, before normalization: each bit is set exactly when
/// its rule holds of the melds, pair, wait and context.
pub open spec fn spec_yaku_raw(h: FinishHand, p: PointParam, menzen: bool) -> u64 {
    spec_yaku_raw_c(spec_yaku_raw_b(spec_yaku_raw_a(h, p, menzen), h, p, menzen), h, p, menzen)
}

/// The ordinary-pattern set of a decomposition: empty for thirteen
/// orphans, otherwise the raw set with dominated bits removed.
pub open spec fn spec_check_yaku(h: FinishHand, p: PointParam, menzen: bool) -> u64 {
    if h.finish_type is Kokushi {
        0
    } else {
        spec_normalize_yaku(spec_yaku_raw(h, p, menzen))
    }
}

fn head_tanyao(head: Option<u8>) -> (b: bool)
    ensures
        b == spec_head_tanyao(head),
{
    match head {
        Option::Some(hd) => !(hd >= 27 || hd % 9 == 0 || hd % 9 == 8),
        Option::None => true,
    }
}

fn head_yao(head: Option<u8>) -> (b: bool)
    ensures
        b == spec_head_yao(head),
{
    match head {
        Option::Some(hd) => hd >= 27 || hd % 9 == 0 || hd % 9 == 8,
        Option::None => true,
    }
}

fn yaku_bits_a(hand: &FinishHand, param: &PointParam, menzen: bool) -> (r: u64)
    requires
        spec_fhand_wf(*hand),
        spec_param_wf(*param),
    ensures
        r == spec_yaku_raw_a(*hand, *param, menzen),
{
    let ms = &hand.mianzi_list;
    let head = hand.head;

    let reach_single = matches!(param.reach, Reach::Single);
    let c_tanyao = all_tanyao(ms) && head_tanyao(head);
    let c_ipeko = has_ipeko(ms);
    let c_field = has_same_at(ms, param.field_wind_pi());
    let c_self = has_same_at(ms, param.self_wind_pi());
    let c_haku = has_same_at(ms, 31);
    let c_hatsu = has_same_at(ms, 32);
    let c_chun = has_same_at(ms, 33);

    let mut y: u64 = 0;
    y = add_bit(y, Yaku::REACH, reach_single);
    y = add_bit(y, Yaku::IPPATSU, reach_single && param.reach_first);
    y = add_bit(y, Yaku::TSUMO, menzen && hand.tumo);
    y = add_bit(y, Yaku::TANYAO, c_tanyao);
    y = add_bit(y, Yaku::IPEKO, menzen && c_ipeko);
    y = add_bit(y, field_wind_bit(param.field_wind), c_field);
    y = add_bit(y, self_wind_bit(param.self_wind), c_self);
    y = add_bit(y, Yaku::YAKU_HAKU, c_haku);
    y = add_bit(y, Yaku::YAKU_HATSU, c_hatsu);
    y = add_bit(y, Yaku::YAKU_CHUN, c_chun);
    y = add_bit(y, Yaku::RINSHAN, param.lingshang);
    y = add_bit(y, Yaku::CHANKAN, param.chankan);
    y = add_bit(y, Yaku::HAITEI, param.haitei);
    y = add_bit(y, Yaku::HOTEI, param.houtei);
    y
}

fn yaku_bits_b(y0: u64, hand: &FinishHand, param: &PointParam, menzen: bool) -> (r: u64)
    requires
        spec_fhand_wf(*hand),
        spec_param_wf(*param),
    ensures
        r == spec_yaku_raw_b(y0, *hand, *param, menzen),
{
    let ms = &hand.mianzi_list;
    let head = hand.head;

    let c_dojun = has_dojun(ms);
    let c_ittsu = has_ittsu(ms);
    let c_chanta = all_chanta(ms) && head_yao(head);
    let c_toitoi = all_same(ms);
    let c_sananko = count_blind_same(ms) >= 3;
    let c_honroto = all_honro(ms) && head_yao(head);
    let c_doko = has_doko(ms);
    let c_sankan = count_kan(ms) >= 3;
    let c_shosangen = match head {
        Option::Some(hd) => {
            let s1 = has_same_at(ms, 31);
            let s2 = has_same_at(ms, 32);
            let s3 = has_same_at(ms, 33);
            (s1 && s2 && hd == 33) || (s2 && s3 && hd == 31) || (s3 && s1 && hd == 32)
        }
        Option::None => false,
    };

    let mut y: u64 = y0;
    y = add_bit(y, Yaku::DOJUN, menzen && c_dojun);
    y = add_bit(y, Yaku::DOJUN_N, !menzen && c_dojun);
    y = add_bit(y, Yaku::ITTSU, menzen && c_ittsu);
    y = add_bit(y, Yaku::ITTSU_N, !menzen && c_ittsu);
    y = add_bit(y, Yaku::CHANTA, menzen && c_chanta);
    y = add_bit(y, Yaku::CHANTA_N, !menzen && c_chanta);
    y = add_bit(y, Yaku::CHITOI, matches!(hand.finish_type, FinishType::Chitoi));
    y = add_bit(y, Yaku::TOITOI, c_toitoi);
    y = add_bit(y, Yaku::SANANKO, c_sananko);
    y = add_bit(y, Yaku::HONROTO, c_honroto);
    y = add_bit(y, Yaku::DOKO, c_doko);
    y = add_bit(y, Yaku::SANKAN, c_sankan);
    y = add_bit(y, Yaku::SHOSANGEN, c_shosangen);
    y = add_bit(y, Yaku::DBLREACH, matches!(param.reach, Reach::Double));
    y
}

fn yaku_bits_c(y0: u64, hand: &FinishHand, param: &PointParam, menzen: bool) -> (r: u64)
    requires
        spec_fhand_wf(*hand),
        spec_param_wf(*param),
        !(hand.finish_type is Kokushi),
    ensures
        r == spec_yaku_raw_c(y0, *hand, *param, menzen),
{
    let ms = &hand.mianzi_list;
    let head = hand.head;

    let c_honiso = is_honiso(ms, head);
    let c_junchan = all_junchan(ms) && head_yao(head);
    let c_liangpeko = has_liangpeko(ms);
    assert(ms@.len() > 0);
    let c_chiniso = is_chiniso(ms, head);

    let mut y: u64 = y0;
    y = add_bit(y, Yaku::HONISO, menzen && c_honiso);
    y = add_bit(y, Yaku::HONISO_N, !menzen && c_honiso);
    y = add_bit(y, Yaku::JUNCHAN, menzen && c_junchan);
    y = add_bit(y, Yaku::JUNCHAN_N, !menzen && c_junchan);
    y = add_bit(y, Yaku::LIANGPEKO, menzen && c_liangpeko);
    y = add_bit(y, Yaku::CHINISO, menzen && c_chiniso);
    y = add_bit(y, Yaku::CHINISO_N, !menzen && c_chiniso);
    y
}

/// Detects every ordinary pattern of one decomposition under the given
/// context, and removes dominated bits.
pub fn check_yaku(hand: &FinishHand, param: &PointParam, menzen: bool) -> (r: u64)
    requires
        spec_fhand_wf(*hand),
        spec_param_wf(*param),
    ensures
        r == spec_check_yaku(*hand, *param, menzen),
{
    if matches!(hand.finish_type, FinishType::Kokushi) {
        return 0;
    }
    let y = yaku_bits_a(hand, param, menzen);
    let y = yaku_bits_b(y, hand, param, menzen);
    let y = yaku_bits_c(y, hand, param, menzen);
    normalize_yaku(y)
}

/// The raw limit-pattern set of a standard or seven-pairs
/// decomposition.
pub open spec fn spec_yakuman_raw(h: FinishHand, p: PointParam, menzen: bool) -> u32 {
    let ms = h.mianzi_list@;
    let y = spec_add_bit32(0, Yakuman::SUANKO, spec_count_blind_same(ms) >= 4);
    let y = spec_add_bit32(
        y,
        Yakuman::DAISANGEN,
        spec_has_same_at(ms, 31) && spec_has_same_at(ms, 32) && spec_has_same_at(ms, 33),
    );
    let y = spec_add_bit32(y, Yakuman::TUISO, spec_all_ji(ms) && spec_head_ji(h.head));
    let y = spec_add_bit32(y, Yakuman::DAISUSHI, spec_daisushi(ms));
    let y = spec_add_bit32(y, Yakuman::SHOSUSHI, !spec_daisushi(ms) && spec_shosushi(ms, h.head));
    let y = spec_add_bit32(
        y,
        Yakuman::RYUISO,
        (h.head matches Some(hd) && spec_is_green(hd)) && spec_all_green(ms),
    );
    let y = spec_add_bit32(
        y,
        Yakuman::CHINROTO,
        (h.head matches Some(hd) && spec_is_yao(hd)) && spec_all_chinro(ms),
    );
    let y = spec_add_bit32(y, Yakuman::SUKAN, spec_count_kan(ms) >= 4);
    let y = spec_add_bit32(y, Yakuman::CHUREN, menzen && spec_churen(h));
    let y = spec_add_bit32(y, Yakuman::TENHO, p.tenchi && p.self_wind == 0);
    spec_add_bit32(y, Yakuman::CHIHO, p.tenchi && p.self_wind != 0)
}

/// The limit-pattern set of a decomposition: thirteen orphans alone for
/// that shape, otherwise every matching limit pattern.
pub open spec fn spec_check_yakuman(h: FinishHand, p: PointParam, menzen: bool) -> u32 {
    if h.finish_type is Kokushi {
        Yakuman::KOKUSHI
    } else {
        spec_yakuman_raw(h, p, menzen)
    }
}

/// Detects every limit pattern of one decomposition under the given
/// context.
pub fn check_yakuman(hand: &FinishHand, param: &PointParam, menzen: bool) -> (r: u32)
    requires
        spec_fhand_wf(*hand),
        spec_param_wf(*param),
    ensures
        r == spec_check_yakuman(*hand, *param, menzen),
{
    if matches!(hand.finish_type, FinishType::Kokushi) {
        return Yakuman::KOKUSHI;
    }
    let ms = &hand.mianzi_list;
    let head = hand.head;

    let c_suanko = count_blind_same(ms) >= 4;
    let c_daisangen = has_same_at(ms, 31) && has_same_at(ms, 32) && has_same_at(ms, 33);
    let c_tuiso = all_ji(ms) && match head {
        Option::Some(hd) => hd >= 27,
        Option::None => true,
    };
    let s27 = has_same_at(ms, 27);
    let s28 = has_same_at(ms, 28);
    let s29 = has_same_at(ms, 29);
    let s30 = has_same_at(ms, 30);
    let c_daisushi = s27 && s28 && s29 && s30;
    let c_shosushi = match head {
        Option::Some(hd) => (hd == 27 && s28 && s29 && s30) || (s27 && hd == 28 && s29 && s30) || (
        s27 && s28 && hd == 29 && s30) || (s27 && s28 && s29 && hd == 30),
        Option::None => false,
    };
    let c_ryuiso = match head {
        Option::Some(hd) => {
            let g = hd == 19 || hd == 20 || hd == 21 || hd == 23 || hd == 25 || hd == 32;
            g && all_green(ms)
        }
        Option::None => false,
    };
    let c_chinroto = match head {
        Option::Some(hd) => (hd >= 27 || hd % 9 == 0 || hd % 9 == 8) && all_chinro(ms),
        Option::None => false,
    };
    let c_sukan = count_kan(ms) >= 4;
    let c_churen = menzen && is_churen(hand);

    let mut y: u32 = 0;
    y = add_bit32(y, Yakuman::SUANKO, c_suanko);
    y = add_bit32(y, Yakuman::DAISANGEN, c_daisangen);
    y = add_bit32(y, Yakuman::TUISO, c_tuiso);
    y = add_bit32(y, Yakuman::DAISUSHI, c_daisushi);
    y = add_bit32(y, Yakuman::SHOSUSHI, !c_daisushi && c_shosushi);
    y = add_bit32(y, Yakuman::RYUISO, c_ryuiso);
    y = add_bit32(y, Yakuman::CHINROTO, c_chinroto);
    y = add_bit32(y, Yakuman::SUKAN, c_sukan);
    y = add_bit32(y, Yakuman::CHUREN, c_churen);
    y = add_bit32(y, Yakuman::TENHO, param.tenchi && param.self_wind == 0);
    y = add_bit32(y, Yakuman::CHIHO, param.tenchi && param.self_wind != 0);

    normalize_yakuman(y)
}

} // verus!
