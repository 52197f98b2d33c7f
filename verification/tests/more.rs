use mjcore::hand::{
    bucket_count, to_bucket, Bucket, FinishHand, FinishType, Hand, Mianzi, MianziType, PointParam,
    Reach,
};
use mjcore::parse::from_human_readable_string;
use mjcore::point::{calc_base_point, Point};
use mjcore::search::all_finish_patterns;
use mjcore::tile::{
    is_green, is_ji, is_jun, is_num, is_sangen, is_tanyao, is_yao, to_human_readable_string,
};
use mjcore::yaku::{normalize_yakuman, Yaku, Yakuman};

fn best_point(input: &str, param: &PointParam) -> Point {
    let mut hand = from_human_readable_string(input).unwrap();
    let mut result = Vec::new();
    all_finish_patterns(&mut hand, &mut result).unwrap();
    let mut points: Vec<Point> = result.iter().map(|r| calc_base_point(r, param)).collect();
    points.sort();
    points.pop().unwrap()
}

#[test]
fn tile_predicates() {
    // honors are 27 and above
    assert!(is_ji(27).unwrap());
    assert!(is_ji(33).unwrap());
    assert!(!is_ji(26).unwrap());
    assert!(is_num(0).unwrap());
    // dragons are the last three honors
    assert!(is_sangen(31).unwrap());
    assert!(is_sangen(33).unwrap());
    assert!(!is_sangen(30).unwrap());
    // terminals and honors
    assert!(is_yao(0).unwrap());
    assert!(is_yao(8).unwrap());
    assert!(is_yao(27).unwrap());
    assert!(!is_yao(4).unwrap());
    assert!(is_tanyao(4).unwrap());
    // numeric terminals only
    assert!(is_jun(0).unwrap());
    assert!(is_jun(26).unwrap());
    assert!(!is_jun(27).unwrap());
    // green tiles: 2,3,4,6,8 of souzu and the green dragon
    for pai in 0..34u8 {
        let expected =
            pai == 19 || pai == 20 || pai == 21 || pai == 23 || pai == 25 || pai == 32;
        assert_eq!(expected, is_green(pai).unwrap());
    }
}

#[test]
fn mianzi_type_properties() {
    assert!(MianziType::Ordered.is_ordered());
    assert!(MianziType::OrderedChi.is_ordered());
    assert!(!MianziType::Same.is_ordered());
    assert!(MianziType::Same.is_same());
    assert!(MianziType::SameRon.is_menzen());
    assert!(!MianziType::SamePon.is_menzen());
    assert!(MianziType::SameKanBlind.is_blind());
    assert!(MianziType::SameKanOpen.is_open());
    assert!(MianziType::SameKanBlind.is_kan());
    assert!(!MianziType::Same.is_kan());
    assert!(MianziType::Chitoi.is_chitoi());
}

#[test]
fn mianzi_properties() {
    let run2m = Mianzi { mtype: MianziType::Ordered, pai: 1 };
    assert!(run2m.is_tanyao());
    let run1m = Mianzi { mtype: MianziType::Ordered, pai: 0 };
    assert!(run1m.is_chanta());
    assert!(run1m.is_junchan());
    let trip9s = Mianzi { mtype: MianziType::SamePon, pai: 26 };
    assert!(trip9s.is_chinro());
    assert_eq!(2, trip9s.color());
    let green_run = Mianzi { mtype: MianziType::Ordered, pai: 19 };
    assert!(green_run.is_green());
}

#[test]
fn finish_type_fu() {
    assert_eq!(5, FinishType::Chitoi.fu());
    assert_eq!(0, FinishType::Kokushi.fu());
    assert_eq!(0, FinishType::Ryanmen.fu());
    assert_eq!(0, FinishType::Shabo.fu());
    assert_eq!(2, FinishType::Kanchan.fu());
    assert_eq!(2, FinishType::Penchan.fu());
    assert_eq!(2, FinishType::Tanki.fu());
    assert!(FinishType::Chitoi.is_special());
    assert!(FinishType::Kokushi.is_special());
    assert!(FinishType::Tanki.is_normal());
}

#[test]
fn bucket_helpers() {
    let mut bucket: Bucket = [0u8; 34];
    to_bucket(&mut bucket, &[0, 0, 0, 5, 33]);
    assert_eq!(3, bucket[0]);
    assert_eq!(1, bucket[5]);
    assert_eq!(1, bucket[33]);
    assert_eq!(5, bucket_count(&bucket));

    let mut bucket: Bucket = [0u8; 34];
    let kan = Mianzi { mtype: MianziType::SameKanOpen, pai: 7 };
    kan.to_bucket(&mut bucket);
    assert_eq!(4, bucket[7]);
    let run = Mianzi { mtype: MianziType::OrderedChi, pai: 9 };
    run.to_bucket(&mut bucket);
    assert_eq!(1, bucket[9]);
    assert_eq!(1, bucket[10]);
    assert_eq!(1, bucket[11]);
}

#[test]
fn pai_list_of_finish_hand() {
    let f = FinishHand {
        finish_type: FinishType::Shabo,
        mianzi_list: vec![
            Mianzi { mtype: MianziType::Ordered, pai: 0 },
            Mianzi { mtype: MianziType::Same, pai: 9 },
        ],
        head: Some(33),
        finish_pai: 9,
        tumo: true,
    };
    assert_eq!(vec![33, 33, 0, 1, 2, 9, 9, 9], f.to_pai_list());
}

#[test]
fn point_param_winds() {
    let param = PointParam { field_wind: 1, self_wind: 0, ..Default::default() };
    assert!(param.is_parent());
    assert_eq!(28, param.field_wind_pi());
    assert_eq!(27, param.self_wind_pi());
    let hand: Hand = Default::default();
    assert!(hand.head.is_none());
    assert!(hand.tumo);
}

#[test]
fn notation_round_trip_multiset() {
    // parse, re-serialize every held tile, parse again: the multiset of
    // tiles comes back unchanged
    let hand = from_human_readable_string("1112345678999m").unwrap();
    let mut notation = String::new();
    for pai in 0..34u8 {
        for _ in 0..hand.bucket[pai as usize] {
            notation.push_str(&to_human_readable_string(pai).unwrap());
        }
    }
    let hand2 = from_human_readable_string(&notation).unwrap();
    assert_eq!(hand.bucket.to_vec(), hand2.bucket.to_vec());
}

#[test]
fn yakuman_hands() {
    let param = PointParam { field_wind: 0, self_wind: 1, ..Default::default() };

    // big three dragons (with four concealed triples alongside)
    let p = best_point("111m555666777z22m", &param);
    assert!(p.yakuman & Yakuman::DAISANGEN != 0);
    assert!(p.yakuman & Yakuman::SUANKO != 0);
    assert!(p.yakuman_count >= 2);

    // all honors
    let p = best_point("111222333z44555z", &param);
    assert!(p.yakuman & Yakuman::TUISO != 0);

    // all green
    let p = best_point("222333444666s88s", &param);
    assert!(p.yakuman & Yakuman::RYUISO != 0);

    // all terminal triples
    let p = best_point("111999m111999p11s", &param);
    assert!(p.yakuman & Yakuman::CHINROTO != 0);

    // four kans
    let p = best_point("A1111m A3333m A5555m A7777m 9m 9m", &param);
    assert!(p.yakuman & Yakuman::SUKAN != 0);

    // little four winds: three wind triples and the fourth as the pair
    let p = best_point("111222333z44z555m", &param);
    assert!(p.yakuman & Yakuman::SHOSUSHI != 0);

    // blessing of heaven: dealer wins with the context flag set
    let tenchi = PointParam { field_wind: 0, self_wind: 0, tenchi: true, ..Default::default() };
    let p = best_point("123999m456888p11z", &tenchi);
    assert!(p.yakuman & Yakuman::TENHO != 0);
}

#[test]
fn context_flags_add_yaku() {
    let param = PointParam {
        field_wind: 0,
        self_wind: 1,
        haitei: true,
        ..Default::default()
    };
    let p = best_point("115599m115599p11s", &param);
    assert!(p.yaku & Yaku::HAITEI != 0);
}

#[test]
fn normalize_yakuman_is_identity() {
    assert_eq!(0, normalize_yakuman(0));
    let bits = Yakuman::KOKUSHI | Yakuman::TENHO;
    assert_eq!(bits, normalize_yakuman(bits));
}

#[test]
fn japanese_lists_follow_bits() {
    let names = Yaku::to_japanese_list(Yaku::REACH | Yaku::TSUMO | Yaku::CHITOI);
    assert_eq!(3, names.len());
    let names = Yakuman::to_japanese_list(Yakuman::KOKUSHI);
    assert_eq!(1, names.len());
    assert!(Yaku::to_japanese_list(0).is_empty());
}

#[test]
fn wind_yaku_by_seat() {
    // the seat wind triple scores for the matching seat only
    let param = PointParam { field_wind: 0, self_wind: 1, reach: Reach::NoReach, ..Default::default() };
    let p = best_point("123m456p789s22z 111z", &param);
    // hand holds an east triple: round wind east matches, seat south does not
    assert!(p.yaku & Yaku::FIELD_E != 0);
    assert!(p.yaku & Yaku::SELF_S == 0);
}
