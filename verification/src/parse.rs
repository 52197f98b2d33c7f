//! Parser for the human-readable hand notation.
//!
//! The notation is a sequence of digit runs each closed by a suit
//! letter in `m`, `p`, `s`, `z`; a meld marker (`P` pon, `C` chi, `A`
//! closed kan, `M` open kan) before a group turns that group's first
//! tile into a declared meld; whitespace separates groups.  Fourteen
//! tiles in all make the last free tile the finishing tile; thirteen
//! leave the finishing tile open; any other total is rejected.

use vstd::prelude::*;
use vstd::string::is_ascii;

use crate::err::MjError;
use crate::hand::{
    count_matches, lemma_bucket_counts_total, lemma_count_nonneg, spec_hand_13, spec_hand_wf,
    spec_melds_wf, to_bucket, Hand, Mianzi, MianziType,
};
use crate::tile::{
    char_to_kind, spec_char_kind, spec_digit, spec_encoded, spec_nums_ok, spec_space,
    spec_valid_kind_num,
};
use crate::hand::spec_mt_ordered;
use vstd::string::StringSliceAdditionalSpecFns;

verus! {

/// The meld marker a byte declares: `P` claims a triple, `C` a run,
/// `A` a closed kan, `M` an open kan.
pub open spec fn spec_marker(b: u8) -> Option<MianziType> {
    if b == 80 {
        Some(MianziType::SamePon)
    } else if b == 67 {
        Some(MianziType::OrderedChi)
    } else if b == 65 {
        Some(MianziType::SameKanBlind)
    } else if b == 77 {
        Some(MianziType::SameKanOpen)
    } else {
        None
    }
}

/// The hand-notation grammar, one byte at a time from position `i` with
/// the free tiles, pending digits, pending meld marker and declared
/// melds read so far: whitespace skips, a marker letter arms the next
/// group, digits gather, a suit letter closes a group into free tiles
/// (or, when a marker is armed, into one declared meld anchored at the
/// group's first tile), and anything else fails.  At the end a dangling
/// digit run, a dangling marker or an empty tile list fails.  A run
/// meld anchored outside its suit fails.
pub open spec fn spec_scan_hand(
    bytes: Seq<u8>,
    i: int,
    pais: Seq<u8>,
    nums: Seq<u8>,
    fulou: Option<MianziType>,
    melds: Seq<Mianzi>,
) -> Option<(Seq<u8>, Seq<Mianzi>)>
    decreases bytes.len() - i,
{
    if i < 0 || i >= bytes.len() {
        if nums.len() == 0 && fulou is None && pais.len() > 0 {
            Some((pais, melds))
        } else {
            None
        }
    } else {
        let b = bytes[i];
        if spec_space(b) {
            spec_scan_hand(bytes, i + 1, pais, nums, fulou, melds)
        } else if spec_marker(b) is Some {
            spec_scan_hand(bytes, i + 1, pais, nums, spec_marker(b), melds)
        } else if spec_digit(b) {
            spec_scan_hand(bytes, i + 1, pais, nums.push((b - 48) as u8), fulou, melds)
        } else {
            match spec_char_kind(b as char) {
                None => None,
                Some(kind) => match fulou {
                    None => if spec_nums_ok(nums, kind) {
                        spec_scan_hand(
                            bytes,
                            i + 1,
                            pais + spec_encoded(nums, kind),
                            seq![],
                            Option::None,
                            melds,
                        )
                    } else {
                        None
                    },
                    Some(mt) => if nums.len() == 0 || !spec_valid_kind_num(kind, nums[0]) {
                        None
                    } else if spec_mt_ordered(mt) && (kind == 3 || nums[0] > 7) {
                        None
                    } else {
                        spec_scan_hand(
                            bytes,
                            i + 1,
                            pais,
                            seq![],
                            Option::None,
                            melds.push(
                                Mianzi { mtype: mt, pai: crate::tile::spec_encode(kind, nums[0]) },
                            ),
                        )
                    },
                },
            }
        }
    }
}

/// The free tiles and declared melds a notation string denotes, when
/// its groups are well formed.
pub open spec fn spec_parse(bytes: Seq<u8>) -> Option<(Seq<u8>, Seq<Mianzi>)> {
    spec_scan_hand(bytes, 0, seq![], seq![], Option::None, seq![])
}

/// The free tiles the hand keeps: with fourteen tiles in all, the last
/// free tile leaves the bucket and becomes the finishing tile.
pub open spec fn spec_kept_tiles(pais: Seq<u8>, melds: Seq<Mianzi>) -> Seq<u8> {
    if 3 * melds.len() + pais.len() == 14 {
        pais.drop_last()
    } else {
        pais
    }
}

/// The notation denotes a hand: its groups are well formed, the total
/// tile count (each declared meld counting three) is thirteen or
/// fourteen, and no kept tile appears more than four times.
pub open spec fn spec_parse_ok(bytes: Seq<u8>) -> bool {
    match spec_parse(bytes) {
        Some(pm) => {
            let total = 3 * pm.1.len() + pm.0.len();
            &&& (total == 13 || total == 14)
            &&& forall|v: u8| v < 34 ==> count_matches(spec_kept_tiles(pm.0, pm.1), v) <= 4
        },
        None => false,
    }
}

/// Parses hand notation.  The parse succeeds exactly on ASCII strings
/// that denote a hand; the parsed hand holds the denoted melds in
/// source order, its bucket counts exactly the kept free tiles, the
/// finishing tile is the last free tile when the total is fourteen and
/// absent when it is thirteen, no pair is chosen, and the hand is
/// marked self-drawn.
#[verifier::loop_isolation(false)]
pub fn from_human_readable_string(src: &str) -> (r: Result<Hand, MjError>)
    ensures
        r is Ok <==> vstd::string::is_ascii(src) && spec_parse_ok(src.spec_bytes()),
        r matches Ok(h) ==> spec_parse(src.spec_bytes()) matches Some(pm) && {
            &&& h.mianzi_list@ == pm.1
            &&& (3 * pm.1.len() + pm.0.len() == 14 ==> h.finish_pai == Some(pm.0.last()))
            &&& (3 * pm.1.len() + pm.0.len() == 13 ==> h.finish_pai is None)
            &&& forall|v: u8|
                v < 34 ==> h.bucket@[v as int] == count_matches(spec_kept_tiles(pm.0, pm.1), v)
            &&& h.head is None
            &&& h.tumo == true
        },
        r matches Ok(h) ==> spec_hand_wf(h) && spec_hand_13(h),
        !vstd::string::is_ascii(src) ==> r is Err,
{
    if !src.is_ascii() {
        return Err(MjError::ParseError);
    }

    let bytes = src.as_bytes();
    let ghost bs = bytes@;
    if bytes.len() == 0 {
        return Err(MjError::ParseError);
    }

    let mut hand: Hand = Default::default();
    let mut pai_list: Vec<u8> = Vec::new();
    let mut num_list: Vec<u8> = Vec::new();
    let mut fulou: Option<MianziType> = None;

    proof {
        assert(hand.mianzi_list@ =~= Seq::<Mianzi>::empty());
        assert(pai_list@ =~= Seq::<u8>::empty());
        assert(num_list@ =~= Seq::<u8>::empty());
    }
    let mut i: usize = 0;
    while i < bytes.len()
        invariant
            i <= bs.len(),
            spec_parse(bs) == spec_scan_hand(
                bs,
                i as int,
                pai_list@,
                num_list@,
                fulou,
                hand.mianzi_list@,
            ),
            forall|j: int| 0 <= j < pai_list@.len() ==> #[trigger] pai_list@[j] < 34,
            forall|j: int|
                0 <= j < num_list@.len() ==> 1 <= #[trigger] num_list@[j] && num_list@[j] <= 9,
            spec_melds_wf(hand.mianzi_list@),
            forall|j: int|
                0 <= j < hand.mianzi_list@.len() ==> !(#[trigger] hand.mianzi_list@[j].mtype
                    is Chitoi),
            hand.bucket@.len() == 34,
            forall|v: int| 0 <= v < 34 ==> #[trigger] hand.bucket@[v] == 0,
            hand.head is None,
            hand.finish_pai is None,
            hand.tumo == true,
            match fulou {
                Some(t) => !(t is Chitoi),
                None => true,
            },
        decreases bs.len() - i,
    {
        let b = bytes[i];
        if b == 32 || b == 9 || b == 10 || b == 13 || b == 12 {
            // whitespace
        } else if b == 80 {
            fulou = Some(MianziType::SamePon);
        } else if b == 67 {
            fulou = Some(MianziType::OrderedChi);
        } else if b == 65 {
            fulou = Some(MianziType::SameKanBlind);
        } else if b == 77 {
            fulou = Some(MianziType::SameKanOpen);
        } else if 49 <= b && b <= 57 {
            num_list.push(b - 48);
        } else {
            let kind = match char_to_kind(b as char) {
                Ok(k) => k,
                Err(_) => {
                    return Err(MjError::ParseError);
                }
            };
            match fulou {
                Option::None => {
                    let ghost pais0 = pai_list@;
                    let ghost nums0 = num_list@;
                    let mut k: usize = 0;
                    while k < num_list.len()
                        invariant
                            k <= num_list@.len(),
                            kind <= 3,
                            num_list@ == nums0,
                            forall|j: int|
                                0 <= j < k ==> spec_valid_kind_num(kind, #[trigger] nums0[j]),
                            pai_list@ == pais0 + spec_encoded(nums0.take(k as int), kind),
                        decreases num_list@.len() - k,
                    {
                        let num = num_list[k];
                        let pai = match crate::tile::encode(kind, num) {
                            Ok(p) => p,
                            Err(_) => {
                                proof {
                                    assert(!spec_nums_ok(nums0, kind));
                                }
                                return Err(MjError::ParseError);
                            }
                        };
                        pai_list.push(pai);
                        proof {
                            assert(pai_list@ =~= pais0 + spec_encoded(nums0.take(k + 1), kind));
                        }
                        k += 1;
                    }
                    proof {
                        assert(nums0.take(nums0.len() as int) =~= nums0);
                        assert(spec_nums_ok(nums0, kind));
                        assert(forall|j: int|
                            0 <= j < pai_list@.len() ==> #[trigger] pai_list@[j] < 34) by {
                            assert(forall|j: int|
                                0 <= j < nums0.len() ==> #[trigger] spec_encoded(nums0, kind)[j]
                                    < 34);
                        }
                    }
                }
                Option::Some(mtype) => {
                    if num_list.len() == 0 {
                        return Err(MjError::ParseError);
                    }
                    let num = num_list[0];
                    let pai = match crate::tile::encode(kind, num) {
                        Ok(p) => p,
                        Err(_) => {
                            return Err(MjError::ParseError);
                        }
                    };
                    if mtype.is_ordered() && (kind == 3 || num > 7) {
                        return Err(MjError::ParseError);
                    }
                    hand.mianzi_list.push(Mianzi { mtype, pai });
                }
            }
            num_list.clear();
            fulou = None;
        }
        i += 1;
    }
    if num_list.len() != 0 {
        return Err(MjError::ParseError);
    }
    if fulou.is_some() {
        return Err(MjError::ParseError);
    }
    if pai_list.len() == 0 {
        return Err(MjError::ParseError);
    }
    let ghost pais_full = pai_list@;
    let ghost melds0 = hand.mianzi_list@;
    proof {
        assert(spec_parse(bs) == Some((pais_full, melds0)));
    }
    if hand.mianzi_list.len() > 4 || pai_list.len() > 14 {
        proof {
            assert(3 * melds0.len() + pais_full.len() >= 15);
            assert(!spec_parse_ok(bs));
        }
        return Err(MjError::ParseError);
    }

    let total = hand.mianzi_list.len() * 3 + pai_list.len();
    if total == 14 {
        // the rightmost free tile finishes the hand
        hand.finish_pai = pai_list.pop();
    } else if total == 13 {
        hand.finish_pai = None;
    } else {
        proof {
            assert(!spec_parse_ok(bs));
        }
        return Err(MjError::ParseError);
    }
    proof {
        assert(spec_kept_tiles(pais_full, melds0) == pai_list@);
    }

    proof {
        assert forall|v: u8| v < 34 implies hand.bucket@[v as int] + count_matches(pai_list@, v)
            <= 255 by {
            lemma_count_nonneg(pai_list@, v);
        }
    }
    to_bucket(&mut hand.bucket, pai_list.as_slice());

    let mut v: usize = 0;
    while v < 34
        invariant
            v <= 34,
            hand.bucket@.len() == 34,
            forall|w: int| 0 <= w < v ==> #[trigger] hand.bucket@[w] <= 4,
        decreases 34 - v,
    {
        if hand.bucket[v] > 4 {
            proof {
                assert(count_matches(spec_kept_tiles(pais_full, melds0), v as u8) > 4);
                assert(!spec_parse_ok(bs));
            }
            return Err(MjError::ParseError);
        }
        v += 1;
    }

    proof {
        lemma_bucket_counts_total(hand.bucket@, pai_list@);
        assert forall|w: u8| w < 34 implies count_matches(
            spec_kept_tiles(pais_full, melds0),
            w,
        ) <= 4 by {
            assert(hand.bucket@[w as int] == count_matches(pai_list@, w));
        }
        assert(spec_parse_ok(bs));
    }

    Ok(hand)
}

} // verus!
