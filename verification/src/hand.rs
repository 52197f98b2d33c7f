//! Hand data model: melds, the tile multiset ("bucket"), hands in
//! progress, finished decompositions, and the scoring context.

use vstd::prelude::*;

use crate::tile::{spec_is_green, spec_is_jun, spec_is_yao};

verus! {

/// The free (non-melded) tiles of a hand, counted per tile code.
pub type Bucket = [u8; 34];

/// Sum of the first `n` counts of a bucket.
pub open spec fn sum_prefix(b: Seq<u8>, n: int) -> int
    decreases n,
{
    if n <= 0 {
        0
    } else {
        sum_prefix(b, n - 1) + b[n - 1]
    }
}

/// Total number of tiles in a bucket.
pub open spec fn bucket_total(b: Seq<u8>) -> int {
    sum_prefix(b, b.len() as int)
}

pub proof fn lemma_sum_prefix_bounds(b: Seq<u8>, n: int)
    requires
        0 <= n <= b.len(),
    ensures
        0 <= sum_prefix(b, n) <= 255 * n,
    decreases n,
{
    if n > 0 {
        lemma_sum_prefix_bounds(b, n - 1);
    }
}

pub proof fn lemma_sum_prefix_update(b: Seq<u8>, i: int, v: u8, n: int)
    requires
        0 <= i < b.len(),
        0 <= n <= b.len(),
    ensures
        sum_prefix(b.update(i, v), n) == if i < n {
            sum_prefix(b, n) - b[i] + v
        } else {
            sum_prefix(b, n)
        },
    decreases n,
{
    if n > 0 {
        lemma_sum_prefix_update(b, i, v, n - 1);
    }
}

/// Changing one count changes the total by the same difference.
pub proof fn lemma_sum_update(b: Seq<u8>, i: int, v: u8)
    requires
        0 <= i < b.len(),
    ensures
        bucket_total(b.update(i, v)) == bucket_total(b) - b[i] + v,
{
    lemma_sum_prefix_update(b, i, v, b.len() as int);
}

/// How many entries of `s` equal `v`.
pub open spec fn count_matches(s: Seq<u8>, v: u8) -> int
    decreases s.len(),
{
    if s.len() == 0 {
        0
    } else {
        count_matches(s.drop_last(), v) + if s.last() == v {
            1int
        } else {
            0int
        }
    }
}

pub proof fn lemma_count_push(s: Seq<u8>, v: u8, x: u8)
    ensures
        count_matches(s.push(x), v) == count_matches(s, v) + if x == v {
            1int
        } else {
            0int
        },
{
    assert(s.push(x).drop_last() =~= s);
}

pub proof fn lemma_count_take_le(s: Seq<u8>, j: int, v: u8)
    requires
        0 <= j <= s.len(),
    ensures
        count_matches(s.take(j), v) <= count_matches(s, v),
    decreases s.len() - j,
{
    if j == s.len() {
        assert(s.take(j) =~= s);
    } else {
        assert(s.take(j + 1) =~= s.take(j).push(s[j]));
        lemma_count_push(s.take(j), v, s[j]);
        lemma_count_take_le(s, j + 1, v);
    }
}

/// Adds one count per tile of `src` into `dst`.
pub fn to_bucket(dst: &mut Bucket, src: &[u8])
    requires
        forall|j: int| 0 <= j < src@.len() ==> src@[j] < 34,
        forall|v: u8| v < 34 ==> old(dst)@[v as int] + count_matches(src@, v) <= 255,
    ensures
        forall|v: u8| v < 34 ==> final(dst)@[v as int] == old(dst)@[v as int] + count_matches(
            src@,
            v,
        ),
{
    let ghost orig = dst@;
    let mut j: usize = 0;
    while j < src.len()
        invariant
            j <= src@.len(),
            dst@.len() == 34,
            forall|k: int| 0 <= k < src@.len() ==> src@[k] < 34,
            forall|v: u8| v < 34 ==> orig[v as int] + count_matches(src@, v) <= 255,
            forall|v: u8| v < 34 ==> dst@[v as int] == orig[v as int] + count_matches(
                src@.take(j as int),
                v,
            ),
        decreases src@.len() - j,
    {
        let pai = src[j] as usize;
        proof {
            let v = src@[j as int];
            lemma_count_take_le(src@, j + 1, v);
            assert(src@.take(j + 1) =~= src@.take(j as int).push(v));
            lemma_count_push(src@.take(j as int), v, v);
            assert(count_matches(src@.take(j as int), v) >= 0) by {
                lemma_count_nonneg(src@.take(j as int), v);
            }
        }
        let c = dst[pai];
        dst.set(pai, c + 1);
        proof {
            let v = src@[j as int];
            assert forall|w: u8| w < 34 implies dst@[w as int] == orig[w as int] + count_matches(
                src@.take(j + 1),
                w,
            ) by {
                assert(src@.take(j + 1) =~= src@.take(j as int).push(v));
                lemma_count_push(src@.take(j as int), w, v);
            }
        }
        j += 1;
    }
    proof {
        assert(src@.take(src@.len() as int) =~= src@);
    }
}

pub proof fn lemma_count_nonneg(s: Seq<u8>, v: u8)
    ensures
        0 <= count_matches(s, v) <= s.len(),
    decreases s.len(),
{
    if s.len() > 0 {
        lemma_count_nonneg(s.drop_last(), v);
    }
}

pub proof fn lemma_sum_all_zero(b: Seq<u8>, n: int)
    requires
        0 <= n <= b.len(),
        forall|v: int| 0 <= v < n ==> b[v] == 0,
    ensures
        sum_prefix(b, n) == 0,
    decreases n,
{
    if n > 0 {
        lemma_sum_all_zero(b, n - 1);
    }
}

/// A bucket holding exactly the per-tile counts of a list holds as many
/// tiles as the list.
pub proof fn lemma_bucket_counts_total(b: Seq<u8>, s: Seq<u8>)
    requires
        b.len() == 34,
        forall|j: int| 0 <= j < s.len() ==> s[j] < 34,
        forall|v: u8| v < 34 ==> b[v as int] == count_matches(s, v),
    ensures
        bucket_total(b) == s.len(),
    decreases s.len(),
{
    if s.len() == 0 {
        assert forall|v: int| 0 <= v < 34 implies b[v] == 0 by {
            assert(b[v] == count_matches(s, v as u8));
        }
        lemma_sum_all_zero(b, 34);
    } else {
        let s0 = s.drop_last();
        let x = s.last();
        lemma_count_nonneg(s0, x);
        let b0 = b.update(x as int, (b[x as int] - 1) as u8);
        assert forall|v: u8| v < 34 implies b0[v as int] == count_matches(s0, v) by {
            assert(b[v as int] == count_matches(s, v));
        }
        lemma_bucket_counts_total(b0, s0);
        lemma_sum_update(b, x as int, (b[x as int] - 1) as u8);
    }
}

/// Counts the tiles held in a bucket.
pub fn bucket_count(b: &Bucket) -> (r: u32)
    ensures
        r == bucket_total(b@),
{
    let mut sum: u32 = 0;
    let mut i: usize = 0;
    while i < 34
        invariant
            i <= 34,
            b@.len() == 34,
            sum == sum_prefix(b@, i as int),
            sum <= 255 * i,
    decreases 34 - i,
    {
        proof {
            lemma_sum_prefix_bounds(b@, i as int);
        }
        sum += b[i] as u32;
        i += 1;
    }
    sum
}

/// The shape of one meld.
#[derive(Debug, Clone, Copy, PartialEq, Eq, Structural)]
pub enum MianziType {
    /// Concealed run.
    Ordered,
    /// Claimed (open) run.
    OrderedChi,
    /// Concealed triple.
    Same,
    /// Triple completed by a discard: stays concealed for hand status but
    /// counts fu and yaku as an open triple.
    SameRon,
    /// Claimed (open) triple.
    SamePon,
    /// Closed kan.
    SameKanBlind,
    /// Open kan.
    SameKanOpen,
    /// Pair marker used only by the seven-pairs shape.
    Chitoi,
}

pub open spec fn spec_mt_ordered(t: MianziType) -> bool {
    t is Ordered || t is OrderedChi
}

pub open spec fn spec_mt_same(t: MianziType) -> bool {
    t is Same || t is SameRon || t is SamePon || t is SameKanBlind || t is SameKanOpen
}

pub open spec fn spec_mt_menzen(t: MianziType) -> bool {
    t is Ordered || t is Same || t is SameRon || t is SameKanBlind || t is Chitoi
}

pub open spec fn spec_mt_blind(t: MianziType) -> bool {
    t is Ordered || t is Same || t is SameKanBlind || t is Chitoi
}

pub open spec fn spec_mt_kan(t: MianziType) -> bool {
    t is SameKanBlind || t is SameKanOpen
}

impl MianziType {
    pub fn is_ordered(&self) -> (r: bool)
        ensures
            r == spec_mt_ordered(*self),
    {
        matches!(self, Self::Ordered | Self::OrderedChi)
    }

    pub fn is_same(&self) -> (r: bool)
        ensures
            r == spec_mt_same(*self),
    {
        matches!(
            self,
            Self::Same | Self::SameRon | Self::SamePon | Self::SameKanBlind | Self::SameKanOpen
        )
    }

    pub fn is_chitoi(&self) -> (r: bool)
        ensures
            r == (*self is Chitoi),
    {
        matches!(self, Self::Chitoi)
    }

    pub fn is_menzen(&self) -> (r: bool)
        ensures
            r == spec_mt_menzen(*self),
    {
        matches!(
            self,
            Self::Ordered | Self::Same | Self::SameRon | Self::SameKanBlind | Self::Chitoi,
        )
    }

    pub fn is_blind(&self) -> (r: bool)
        ensures
            r == spec_mt_blind(*self),
    {
        matches!(
            self,
            Self::Ordered | Self::Same | Self::SameKanBlind | Self::Chitoi
        )
    }

    pub fn is_open(&self) -> (r: bool)
        ensures
            r == !spec_mt_blind(*self),
    {
        !self.is_blind()
    }

    pub fn is_kan(&self) -> (r: bool)
        ensures
            r == spec_mt_kan(*self),
    {
        matches!(self, Self::SameKanBlind | Self::SameKanOpen)
    }
}

/// One meld: its shape and its anchor tile (the lowest tile of a run).
#[derive(Debug, Clone, Copy, PartialEq, Eq, Structural)]
pub struct Mianzi {
    pub mtype: MianziType,
    pub pai: u8,
}

/// A meld names a valid tile, and a run anchor leaves room for its two
/// following tiles inside the same numeric suit.
pub open spec fn spec_mianzi_wf(m: Mianzi) -> bool {
    m.pai < 34 && (spec_mt_ordered(m.mtype) ==> m.pai < 27 && m.pai % 9 <= 6)
}

pub open spec fn spec_melds_wf(ms: Seq<Mianzi>) -> bool {
    forall|i: int| 0 <= i < ms.len() ==> spec_mianzi_wf(#[trigger] ms[i])
}

/// The bucket after adding the tiles of one meld.
pub open spec fn spec_meld_added(b: Seq<u8>, m: Mianzi) -> Seq<u8> {
    let p = m.pai as int;
    if spec_mt_ordered(m.mtype) {
        b.update(p, (b[p] + 1) as u8).update(p + 1, (b[p + 1] + 1) as u8).update(
            p + 2,
            (b[p + 2] + 1) as u8,
        )
    } else if spec_mt_kan(m.mtype) {
        b.update(p, (b[p] + 4) as u8)
    } else if m.mtype is Chitoi {
        b.update(p, (b[p] + 2) as u8)
    } else {
        b.update(p, (b[p] + 3) as u8)
    }
}

/// The tiles a meld contributes to the final hand: a run's three
/// tiles, a kan's four copies, a pair marker's two, a triple's three.
pub open spec fn spec_meld_tiles(m: Mianzi) -> Seq<u8> {
    if spec_mt_ordered(m.mtype) {
        seq![m.pai, (m.pai + 1) as u8, (m.pai + 2) as u8]
    } else if m.mtype is Chitoi {
        seq![m.pai, m.pai]
    } else if spec_mt_kan(m.mtype) {
        seq![m.pai, m.pai, m.pai, m.pai]
    } else {
        seq![m.pai, m.pai, m.pai]
    }
}

pub open spec fn spec_tiles_of_melds(ms: Seq<Mianzi>) -> Seq<u8>
    decreases ms.len(),
{
    if ms.len() == 0 {
        seq![]
    } else {
        spec_tiles_of_melds(ms.drop_last()) + spec_meld_tiles(ms.last())
    }
}

impl Mianzi {
    /// Adds this meld's tiles into a bucket.
    pub fn to_bucket(&self, dst: &mut Bucket)
        requires
            spec_mianzi_wf(*self),
            forall|i: int| 0 <= i < 34 ==> old(dst)@[i] <= 251,
        ensures
            final(dst)@ == spec_meld_added(old(dst)@, *self),
    {
        let p = self.pai as usize;
        match self.mtype {
            MianziType::Ordered | MianziType::OrderedChi => {
                let c0 = dst[p];
                dst.set(p, c0 + 1);
                let c1 = dst[p + 1];
                dst.set(p + 1, c1 + 1);
                let c2 = dst[p + 2];
                dst.set(p + 2, c2 + 1);
            }
            MianziType::Same | MianziType::SamePon | MianziType::SameRon => {
                let c = dst[p];
                dst.set(p, c + 3);
            }
            MianziType::SameKanBlind | MianziType::SameKanOpen => {
                let c = dst[p];
                dst.set(p, c + 4);
            }
            MianziType::Chitoi => {
                let c = dst[p];
                dst.set(p, c + 2);
            }
        }
    }

    /// The suit of this meld's anchor tile.
    pub fn color(&self) -> (r: u8)
        requires
            spec_mianzi_wf(*self),
        ensures
            r == self.pai / 9,
    {
        self.pai / 9
    }

    /// No terminal or honor touches this meld.
    pub fn is_tanyao(&self) -> (r: bool)
        requires
            spec_mianzi_wf(*self),
        ensures
            r == spec_mianzi_tanyao(*self),
    {
        if self.mtype.is_ordered() {
            let num = self.pai % 9 + 1;
            num != 1 && num != 7
        } else {
            !(self.pai >= 27 || self.pai % 9 == 0 || self.pai % 9 == 8)
        }
    }

    /// Some terminal or honor touches this meld.
    pub fn is_chanta(&self) -> (r: bool)
        requires
            spec_mianzi_wf(*self),
        ensures
            r == !spec_mianzi_tanyao(*self),
    {
        !self.is_tanyao()
    }

    /// A numeric terminal touches this meld, and no honor does.
    pub fn is_junchan(&self) -> (r: bool)
        requires
            spec_mianzi_wf(*self),
        ensures
            r == spec_mianzi_junchan(*self),
    {
        let num = self.pai % 9 + 1;
        if self.mtype.is_ordered() {
            num == 1 || num == 7
        } else {
            self.pai < 27 && (num == 1 || num == 9)
        }
    }

    /// A triple of numeric terminals.
    pub fn is_chinro(&self) -> (r: bool)
        requires
            spec_mianzi_wf(*self),
        ensures
            r == (spec_mt_same(self.mtype) && spec_is_jun(self.pai)),
    {
        let num = self.pai % 9 + 1;
        self.mtype.is_same() && self.pai < 27 && (num == 1 || num == 9)
    }

    /// Every tile of this meld is green.
    pub fn is_green(&self) -> (r: bool)
        requires
            spec_mianzi_wf(*self),
        ensures
            r == spec_mianzi_green(*self),
    {
        if self.mtype.is_ordered() {
            self.pai == 19
        } else {
            let b1 = self.pai == 19 || self.pai == 20 || self.pai == 21 || self.pai == 23
                || self.pai == 25;
            b1 || self.pai == 32
        }
    }
}

pub open spec fn spec_mianzi_tanyao(m: Mianzi) -> bool {
    if spec_mt_ordered(m.mtype) {
        m.pai % 9 != 0 && m.pai % 9 != 6
    } else {
        !spec_is_yao(m.pai)
    }
}

pub open spec fn spec_mianzi_junchan(m: Mianzi) -> bool {
    if spec_mt_ordered(m.mtype) {
        m.pai % 9 == 0 || m.pai % 9 == 6
    } else {
        spec_is_jun(m.pai)
    }
}

pub open spec fn spec_mianzi_green(m: Mianzi) -> bool {
    if spec_mt_ordered(m.mtype) {
        m.pai == 19
    } else {
        spec_is_green(m.pai)
    }
}

/// A hand under evaluation: free tiles, declared melds, the chosen pair,
/// the finishing tile (`None` searches every finishing tile), and the
/// self-draw flag.
#[derive(Debug, Clone)]
pub struct Hand {
    pub bucket: Bucket,
    pub mianzi_list: Vec<Mianzi>,
    pub head: Option<u8>,
    pub finish_pai: Option<u8>,
    pub tumo: bool,
}

impl Default for Hand {
    /// An empty, self-drawn hand with no finishing tile.
    fn default() -> (r: Self)
        ensures
            forall|i: int| 0 <= i < 34 ==> r.bucket@[i] == 0,
            r.mianzi_list@.len() == 0,
            r.head is None,
            r.finish_pai is None,
            r.tumo == true,
    {
        Hand {
            bucket: [0u8; 34],
            mianzi_list: Vec::new(),
            head: None,
            finish_pai: None,
            tumo: true,
        }
    }
}

/// Structural validity of a hand under evaluation.
pub open spec fn spec_hand_wf(h: Hand) -> bool {
    &&& forall|i: int| 0 <= i < 34 ==> #[trigger] h.bucket@[i] <= 4
    &&& spec_melds_wf(h.mianzi_list@)
    &&& forall|i: int|
        0 <= i < h.mianzi_list@.len() ==> !(#[trigger] h.mianzi_list@[i].mtype is Chitoi)
    &&& h.mianzi_list@.len() <= 4
    &&& (h.finish_pai matches Some(fp) ==> fp < 34)
    &&& (h.head matches Some(hd) ==> hd < 34)
}

/// A hand ready for the search: thirteen tiles counting each declared
/// meld as three, and no pair chosen yet.
pub open spec fn spec_hand_13(h: Hand) -> bool {
    bucket_total(h.bucket@) + 3 * h.mianzi_list@.len() == 13 && h.head is None
}

/// How the finishing tile completed the hand.
#[derive(Debug, Clone, PartialEq, Eq, Structural)]
pub enum FinishType {
    /// Seven pairs.
    Chitoi,
    /// Thirteen orphans.
    Kokushi,
    /// Two-sided run wait.
    Ryanmen,
    /// Closed (middle) run wait.
    Kanchan,
    /// Edge run wait.
    Penchan,
    /// Dual-triple wait.
    Shabo,
    /// Pair wait.
    Tanki,
}

pub open spec fn spec_ft_special(t: FinishType) -> bool {
    t is Chitoi || t is Kokushi
}

/// The fu value of a wait shape.
pub open spec fn spec_finish_fu(t: FinishType) -> u32 {
    match t {
        FinishType::Chitoi => 5,
        FinishType::Kokushi => 0,
        FinishType::Ryanmen | FinishType::Shabo => 0,
        FinishType::Kanchan | FinishType::Penchan | FinishType::Tanki => 2,
    }
}

impl FinishType {
    pub fn fu(&self) -> (r: u32)
        ensures
            r == spec_finish_fu(*self),
    {
        match self {
            FinishType::Chitoi => 5,
            FinishType::Kokushi => 0,
            FinishType::Ryanmen | FinishType::Shabo => 0,
            FinishType::Kanchan | FinishType::Penchan | FinishType::Tanki => 2,
        }
    }

    pub fn is_special(&self) -> (r: bool)
        ensures
            r == spec_ft_special(*self),
    {
        matches!(self, FinishType::Chitoi | FinishType::Kokushi)
    }

    pub fn is_normal(&self) -> (r: bool)
        ensures
            r == !spec_ft_special(*self),
    {
        !self.is_special()
    }
}

/// One complete decomposition found by the search.
#[derive(Debug, Clone)]
pub struct FinishHand {
    pub finish_type: FinishType,
    /// For a standard shape, the last element includes the finishing tile.
    pub mianzi_list: Vec<Mianzi>,
    /// `None` only for seven pairs; equals the finishing tile on a pair
    /// wait.
    pub head: Option<u8>,
    pub finish_pai: u8,
    pub tumo: bool,
}

/// Structural validity of a finished decomposition.
pub open spec fn spec_fhand_wf(f: FinishHand) -> bool {
    &&& spec_melds_wf(f.mianzi_list@)
    &&& f.finish_pai < 34
    &&& (f.head matches Some(hd) ==> hd < 34)
    &&& (f.finish_type is Chitoi ==> f.mianzi_list@.len() == 7 && f.head is None && forall|i: int|
        0 <= i < 7 ==> #[trigger] f.mianzi_list@[i].mtype is Chitoi)
    &&& (f.finish_type is Kokushi ==> f.mianzi_list@.len() == 0 && f.head is Some)
    &&& (!spec_ft_special(f.finish_type) ==> f.mianzi_list@.len() == 4 && f.head is Some
        && forall|i: int| 0 <= i < 4 ==> !(#[trigger] f.mianzi_list@[i].mtype is Chitoi))
}

/// The tiles of the finished hand: the pair, then each meld's tiles.
pub open spec fn spec_pai_list(f: FinishHand) -> Seq<u8> {
    (match f.head {
        Some(h) => seq![h, h],
        None => seq![],
    }) + spec_tiles_of_melds(f.mianzi_list@)
}

impl FinishHand {
    /// Lists the tiles of the finished hand, pair first, then each meld
    /// in order.
    pub fn to_pai_list(&self) -> (r: Vec<u8>)
        requires
            spec_melds_wf(self.mianzi_list@),
        ensures
            r@ == spec_pai_list(*self),
    {
        let mut result: Vec<u8> = Vec::new();
        if let Some(head) = self.head {
            result.push(head);
            result.push(head);
        }
        let ghost head_part = result@;
        let mut i: usize = 0;
        while i < self.mianzi_list.len()
            invariant
                i <= self.mianzi_list@.len(),
                spec_melds_wf(self.mianzi_list@),
                result@ == head_part + spec_tiles_of_melds(self.mianzi_list@.take(i as int)),
            decreases self.mianzi_list@.len() - i,
        {
            let m = self.mianzi_list[i];
            if m.mtype.is_ordered() {
                result.push(m.pai);
                result.push(m.pai + 1);
                result.push(m.pai + 2);
            } else if m.mtype.is_kan() {
                result.push(m.pai);
                result.push(m.pai);
                result.push(m.pai);
                result.push(m.pai);
            } else if m.mtype.is_same() {
                result.push(m.pai);
                result.push(m.pai);
                result.push(m.pai);
            } else {
                result.push(m.pai);
                result.push(m.pai);
            }
            proof {
                assert(self.mianzi_list@.take(i + 1).drop_last() =~= self.mianzi_list@.take(
                    i as int,
                ));
                assert(result@ =~= head_part + spec_tiles_of_melds(
                    self.mianzi_list@.take(i + 1),
                ));
            }
            i += 1;
        }
        proof {
            assert(self.mianzi_list@.take(self.mianzi_list@.len() as int) =~= self.mianzi_list@);
        }
        result
    }
}

/// Riichi declaration state.
#[derive(Debug, Clone, PartialEq, Eq, Structural, Default)]
pub enum Reach {
    #[default]
    NoReach,
    Single,
    Double,
}

/// Situational scoring parameters supplied by the caller.
#[derive(Debug, Clone, Default)]
pub struct PointParam {
    /// Round wind: 0-3 for east, south, west, north.
    pub field_wind: u8,
    /// Seat wind: 0-3; the player is the dealer when 0.
    pub self_wind: u8,
    pub reach: Reach,
    pub reach_first: bool,
    pub chankan: bool,
    pub lingshang: bool,
    pub haitei: bool,
    pub houtei: bool,
    pub tenchi: bool,
    pub dora: Vec<u8>,
    pub ura: Vec<u8>,
}

/// Wind indices stay below four and the dora list stays within one
/// full tile set.
pub open spec fn spec_param_wf(p: PointParam) -> bool {
    p.field_wind < 4 && p.self_wind < 4 && p.dora@.len() <= 136
}

impl PointParam {
    /// The player is the dealer.
    pub fn is_parent(&self) -> (r: bool)
        requires
            self.self_wind < 4,
        ensures
            r == (self.self_wind == 0),
    {
        self.self_wind == 0
    }

    /// The wind tile of the round wind.
    pub fn field_wind_pi(&self) -> (r: u8)
        requires
            self.field_wind < 4,
        ensures
            r == 27 + self.field_wind,
    {
        crate::tile::OFFSET_Z + self.field_wind
    }

    /// The wind tile of the seat wind.
    pub fn self_wind_pi(&self) -> (r: u8)
        requires
            self.self_wind < 4,
        ensures
            r == 27 + self.self_wind,
    {
        crate::tile::OFFSET_Z + self.self_wind
    }
}

} // verus!
