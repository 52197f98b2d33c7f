use mjcore::hand::{FinishHand, FinishType, Mianzi, MianziType, PointParam, Reach};
use mjcore::tile::encode;
use mjcore::yaku::{check_yaku, Yaku, Yakuman};

#[test]
fn yaku_fan_all() {
    let mut bit = 1u64;
    while bit <= Yaku::END {
        let fan = Yaku(bit).fan();
        assert!(fan > 0);
        bit <<= 1;
    }
}

#[test]
fn yaku_japanese_all() {
    let mut bit = 1u64;
    while bit <= Yaku::END {
        let j = Yaku(bit).to_japanese_str();
        assert!(!j.is_empty());
        bit <<= 1;
    }
}

#[test]
fn yakuman_japanese_all() {
    let mut bit = 1u32;
    while bit <= Yakuman::END {
        let j = Yakuman(bit).to_japanese_str();
        assert!(!j.is_empty());
        assert_eq!(1, Yakuman(bit).count());
        bit <<= 1;
    }
}

#[test]
fn yaku_basic_1fan() {
    let hand = FinishHand {
        finish_type: FinishType::Ryanmen,
        // 234m 234m 456p 678s
        mianzi_list: vec![
            Mianzi { mtype: MianziType::Ordered, pai: encode(0, 2).unwrap() },
            Mianzi { mtype: MianziType::Ordered, pai: encode(0, 2).unwrap() },
            Mianzi { mtype: MianziType::Ordered, pai: encode(1, 4).unwrap() },
            Mianzi { mtype: MianziType::Ordered, pai: encode(2, 6).unwrap() },
        ],
        // 88m
        head: Some(7),
        finish_pai: 2,
        tumo: true,
    };
    let param = PointParam {
        field_wind: 0,
        self_wind: 0,
        reach: Reach::Single,
        reach_first: true,
        chankan: false,
        lingshang: false,
        haitei: false,
        houtei: false,
        tenchi: false,
        dora: vec![],
        ura: vec![],
    };
    let menzen = true;

    let expected = Yaku::REACH | Yaku::IPPATSU | Yaku::TSUMO | Yaku::TANYAO | Yaku::PINHU
        | Yaku::IPEKO;

    // the pinfu bit is decided by the fu calculation, not here
    let yaku_list = check_yaku(&hand, &param, menzen) | Yaku::PINHU;
    assert_eq!(expected, yaku_list);
    assert_eq!(6, Yaku::fan_sum(yaku_list));
}
