use mjcore::hand::{FinishHand, FinishType, Hand, Mianzi, MianziType, PointParam, Reach};
use mjcore::parse::from_human_readable_string;
use mjcore::point::{calc_base_point, calc_base_point_direct, Point};
use mjcore::search::all_finish_patterns;
use mjcore::tile::encode;
use mjcore::yaku::{check_yaku, normalize_yaku, Yaku};

fn eval_all(hand: &mut Hand, param: &PointParam) -> Vec<Point> {
    let mut result = Vec::new();
    all_finish_patterns(hand, &mut result).unwrap();
    let mut points: Vec<Point> = Vec::new();
    for r in result.iter() {
        points.push(calc_base_point(r, param));
    }
    points
}

#[test]
fn mjsys_enum_finish() {
    fn test(input: &str) -> i32 {
        let mut hand = from_human_readable_string(input).unwrap();
        let mut result = Vec::new();
        all_finish_patterns(&mut hand, &mut result).unwrap();
        result.len() as i32
    }

    assert_eq!(1, test("111999m111999p1s 1s"));
    assert_eq!(1, test("123789m123789p1s 1s"));
    assert_eq!(1, test("12m789m123789p11s 3m"));
    assert_eq!(1, test("13m789m123789p11s 2m"));
    assert_eq!(1, test("23m789m123789p11s 1m"));
    assert_eq!(1, test("23m789m123789p11s 4m"));

    assert_eq!(1, test("C123m C456m C789m C123p 5s 5s"));
    assert_eq!(1, test("P111m P333m P555m P777m 9m 9m"));
    assert_eq!(1, test("A1111m A3333m A5555m A7777m 9m 9m"));
}

#[test]
fn mjsys_enum_wait() {
    fn test(input: &str) -> i32 {
        let mut hand = from_human_readable_string(input).unwrap();
        let mut result = Vec::new();
        all_finish_patterns(&mut hand, &mut result).unwrap();

        let mut waits: Vec<u8> = result.iter().map(|f| f.finish_pai).collect();
        waits.sort();
        waits.dedup();
        waits.len() as i32
    }

    assert_eq!(1, test("111999m111999p1s"));
    assert_eq!(2, test("11999m111999p11s"));
    assert_eq!(1, test("123789m123789p1s"));
    assert_eq!(1, test("12m789m123789p11s"));
    assert_eq!(1, test("13m789m123789p11s"));
    assert_eq!(2, test("23m789m123789p11s"));

    assert_eq!(9, test("1112345678999m"));
}

#[test]
fn point_table() {
    let fan_list: [u32; 4] = [1, 2, 3, 4];
    let fu_list: [u32; 11] = [20, 25, 30, 40, 50, 60, 70, 80, 90, 100, 110];
    let p_ron: [[u32; 11]; 4] = [
        [0, 0, 1500, 2000, 2400, 2900, 3400, 3900, 4400, 4800, 5300],
        [0, 2400, 2900, 3900, 4800, 5800, 6800, 7700, 8700, 9600, 10600],
        [0, 4800, 5800, 7700, 9600, 11600, 12000, 12000, 12000, 12000, 12000],
        [0, 9600, 11600, 12000, 12000, 12000, 12000, 12000, 12000, 12000, 12000],
    ];
    let p_tumo: [[u32; 11]; 4] = [
        [0, 0, 500, 700, 800, 1000, 1200, 1300, 1500, 1600, 1800],
        [700, 800, 1000, 1300, 1600, 2000, 2300, 2600, 2900, 3200, 3600],
        [1300, 1600, 2000, 2600, 3200, 3900, 4000, 4000, 4000, 4000, 4000],
        [2600, 3200, 3900, 4000, 4000, 4000, 4000, 4000, 4000, 4000, 4000],
    ];
    let c_ron: [[u32; 11]; 4] = [
        [0, 0, 1000, 1300, 1600, 2000, 2300, 2600, 2900, 3200, 3600],
        [0, 1600, 2000, 2600, 3200, 3900, 4500, 5200, 5800, 6400, 7100],
        [0, 3200, 3900, 5200, 6400, 7700, 8000, 8000, 8000, 8000, 8000],
        [0, 6400, 7700, 8000, 8000, 8000, 8000, 8000, 8000, 8000, 8000],
    ];
    let c_tumo: [[(u32, u32); 11]; 4] = [
        [
            (0, 0),
            (0, 0),
            (300, 500),
            (400, 700),
            (400, 800),
            (500, 1000),
            (600, 1200),
            (700, 1300),
            (800, 1500),
            (800, 1600),
            (900, 1800),
        ],
        [
            (400, 700),
            (400, 800),
            (500, 1000),
            (700, 1300),
            (800, 1600),
            (1000, 2000),
            (1200, 2300),
            (1300, 2600),
            (1500, 2900),
            (1600, 3200),
            (1800, 3600),
        ],
        [
            (700, 1300),
            (800, 1600),
            (1000, 2000),
            (1300, 2600),
            (1600, 3200),
            (2000, 3900),
            (2000, 4000),
            (2000, 4000),
            (2000, 4000),
            (2000, 4000),
            (2000, 4000),
        ],
        [
            (1300, 2600),
            (1600, 3200),
            (2000, 3900),
            (2000, 4000),
            (2000, 4000),
            (2000, 4000),
            (2000, 4000),
            (2000, 4000),
            (2000, 4000),
            (2000, 4000),
            (2000, 4000),
        ],
    ];

    for (i1, &fan) in fan_list.iter().enumerate() {
        for (i2, &fu) in fu_list.iter().enumerate() {
            let point = calc_base_point_direct(0, fan, fu, 0, 0);

            if p_ron[i1][i2] != 0 {
                assert_eq!(p_ron[i1][i2], point.calc_point_p_ron());
            }
            if p_tumo[i1][i2] != 0 {
                assert_eq!(p_tumo[i1][i2], point.calc_point_p_tumo());
            }
            if c_ron[i1][i2] != 0 {
                assert_eq!(c_ron[i1][i2], point.calc_point_c_ron());
            }
            if c_tumo[i1][i2] != (0, 0) {
                assert_eq!(c_tumo[i1][i2], point.calc_point_c_tumo());
            }
        }
    }
}

#[test]
fn point_bands_beyond_mangan() {
    // fan 5 and beyond ignore fu and pay fixed bands
    let p5 = calc_base_point_direct(0, 5, 30, 0, 0);
    assert_eq!(12000, p5.calc_point_p_ron());
    assert_eq!(8000, p5.calc_point_c_ron());
    assert_eq!((2000, 4000), p5.calc_point_c_tumo());
    let p6 = calc_base_point_direct(0, 6, 110, 0, 0);
    assert_eq!(18000, p6.calc_point_p_ron());
    let p8 = calc_base_point_direct(0, 8, 20, 0, 0);
    assert_eq!(24000, p8.calc_point_p_ron());
    let p11 = calc_base_point_direct(0, 11, 20, 0, 0);
    assert_eq!(36000, p11.calc_point_p_ron());
    let p13 = calc_base_point_direct(0, 13, 20, 0, 0);
    assert_eq!(48000, p13.calc_point_p_ron());
    // a limit hand uses its own base, doubled per limit count
    let y1 = calc_base_point_direct(1, 0, 0, 0, 1);
    assert_eq!(48000, y1.calc_point_p_ron());
    assert_eq!(32000, y1.calc_point_c_ron());
    assert_eq!((8000, 16000), y1.calc_point_c_tumo());
    assert_eq!(16000, y1.calc_point_p_tumo());
}

#[test]
fn chitoi() {
    fn test(input: &str) -> Option<Point> {
        let mut hand = from_human_readable_string(input).unwrap();
        let param = PointParam {
            field_wind: 0,
            self_wind: 2,
            reach: Reach::Single,
            ..Default::default()
        };
        let mut points = eval_all(&mut hand, &param);
        points.sort();
        points.pop()
    }

    let point = test("115599m115599p11s").unwrap();
    // riichi, self-draw, seven pairs
    assert_eq!(4, point.fan);
    assert_eq!(25, point.fu);
    assert_eq!(Yaku::REACH | Yaku::TSUMO | Yaku::CHITOI, point.yaku);

    let point = test("22446688m224466p").unwrap();
    assert_eq!(5, point.fan);
    assert_eq!(25, point.fu);
    assert_eq!(
        Yaku::REACH | Yaku::TSUMO | Yaku::CHITOI | Yaku::TANYAO,
        point.yaku
    );

    let point = test("1199m1199p1199s11z").unwrap();
    assert_eq!(6, point.fan);
    assert_eq!(25, point.fu);
    assert_eq!(
        Yaku::REACH | Yaku::TSUMO | Yaku::CHITOI | Yaku::HONROTO,
        point.yaku
    );

    let point = test("1133557799m1122z").unwrap();
    assert_eq!(7, point.fan);
    assert_eq!(25, point.fu);
    assert_eq!(
        Yaku::REACH | Yaku::TSUMO | Yaku::CHITOI | Yaku::HONISO,
        point.yaku
    );

    let point = test("11224455778899m").unwrap();
    assert_eq!(10, point.fan);
    assert_eq!(25, point.fu);
    assert_eq!(
        Yaku::REACH | Yaku::TSUMO | Yaku::CHITOI | Yaku::CHINISO,
        point.yaku
    );
}

#[test]
fn chitoi_etc() {
    fn test(input: &str, tumo: bool) -> Option<Point> {
        let mut hand = from_human_readable_string(input).unwrap();
        hand.tumo = tumo;
        let param = PointParam {
            field_wind: 0,
            self_wind: 2,
            reach: Reach::NoReach,
            ..Default::default()
        };
        let mut points = eval_all(&mut hand, &param);
        points.sort();
        points.pop()
    }

    let point1 = test("C234m C234m 223344p 8s 8s", true).unwrap();
    let point2 = test("C234m C234m 223344p 8s 8s", false).unwrap();

    assert_eq!(point1, point2);
    assert_eq!(Yaku::TANYAO, point1.yaku);
}

#[test]
fn fu_complex() {
    // pair of the white dragon's neighbours: head +2; a concealed
    // terminal triple: +8; self-draw: +2; 20 + 12 rounds up to 40
    let mut hand = from_human_readable_string("99m345678p234s77z 9m").unwrap();
    let param = PointParam {
        field_wind: 0,
        self_wind: 3,
        ..Default::default()
    };
    let mut points = eval_all(&mut hand, &param);
    points.sort();
    let point = points.pop().unwrap();

    assert_eq!(1, point.fan);
    assert_eq!(40, point.fu);
    assert_eq!((400, 700), point.calc_point_c_tumo());
}

#[test]
fn practical() {
    let mut hand = from_human_readable_string("345m789p2244z A1111m 2z").unwrap();
    let param = PointParam {
        field_wind: 0,
        self_wind: 2,
        reach: Reach::Single,
        ..Default::default()
    };
    let mut points = eval_all(&mut hand, &param);
    points.sort();
    let best = points.pop().unwrap();

    assert_eq!((1200, 2300), best.calc_point_c_tumo());
}

#[test]
fn dora_adds_fan() {
    let mut hand = from_human_readable_string("115599m115599p11s").unwrap();
    let param = PointParam {
        field_wind: 0,
        self_wind: 2,
        reach: Reach::Single,
        dora: vec![encode(0, 1).unwrap()],
        ..Default::default()
    };
    let mut points = eval_all(&mut hand, &param);
    points.sort();
    let point = points.pop().unwrap();
    // the two 1m of the seven pairs match the dora
    assert_eq!(6, point.fan);
}

#[test]
fn normalize_idempotent_cases() {
    let raw = Yaku::CHINISO | Yaku::HONISO | Yaku::JUNCHAN | Yaku::CHANTA | Yaku::LIANGPEKO
        | Yaku::IPEKO;
    let once = normalize_yaku(raw);
    assert_eq!(once, normalize_yaku(once));
    assert_eq!(Yaku::CHINISO | Yaku::JUNCHAN | Yaku::LIANGPEKO, once);

    let raw = Yaku::HONROTO | Yaku::CHANTA | Yaku::CHANTA_N;
    let once = normalize_yaku(raw);
    assert_eq!(Yaku::HONROTO, once);
    assert_eq!(once, normalize_yaku(once));
}

#[test]
fn evaluate_twice_identical() {
    let hand = FinishHand {
        finish_type: FinishType::Ryanmen,
        mianzi_list: vec![
            Mianzi { mtype: MianziType::Ordered, pai: encode(0, 2).unwrap() },
            Mianzi { mtype: MianziType::Ordered, pai: encode(0, 2).unwrap() },
            Mianzi { mtype: MianziType::Ordered, pai: encode(1, 4).unwrap() },
            Mianzi { mtype: MianziType::Ordered, pai: encode(2, 6).unwrap() },
        ],
        head: Some(7),
        finish_pai: 2,
        tumo: true,
    };
    let param = PointParam {
        field_wind: 0,
        self_wind: 0,
        reach: Reach::Single,
        reach_first: true,
        ..Default::default()
    };
    let p1 = calc_base_point(&hand, &param);
    let p2 = calc_base_point(&hand, &param);
    assert_eq!(p1, p2);
}

#[test]
fn yakuman_kokushi_score() {
    let mut hand = from_human_readable_string("19m19p19s1234567z 9s").unwrap();
    let param = PointParam {
        field_wind: 0,
        self_wind: 0,
        ..Default::default()
    };
    let mut points = eval_all(&mut hand, &param);
    points.sort();
    let best = points.pop().unwrap();
    assert_eq!(1, best.yakuman_count);
    assert_eq!(48000, best.calc_point_p_ron());
}

#[test]
fn yakuman_churen() {
    let mut hand = from_human_readable_string("1112345678999m 5m").unwrap();
    let param = PointParam {
        field_wind: 0,
        self_wind: 0,
        ..Default::default()
    };
    let mut points = eval_all(&mut hand, &param);
    points.sort();
    let best = points.pop().unwrap();
    assert!(best.yakuman_count >= 1);
    assert!(best.yakuman & mjcore::yaku::Yakuman::CHUREN != 0);
}

#[test]
fn basic_check_yaku_rejects_kokushi_bits() {
    let hand = FinishHand {
        finish_type: FinishType::Kokushi,
        mianzi_list: vec![],
        head: Some(27),
        finish_pai: 27,
        tumo: true,
    };
    let param = PointParam::default();
    assert_eq!(0, check_yaku(&hand, &param, true));
}

#[test]
fn dora_counts_kan_tiles() {
    // the kan holds four 1m; with 1m as the dora tile all four count
    let mut hand = from_human_readable_string("345m789p2244z A1111m 2z").unwrap();
    let param = PointParam {
        field_wind: 0,
        self_wind: 2,
        dora: vec![encode(0, 1).unwrap()],
        ..Default::default()
    };
    let mut points = eval_all(&mut hand, &param);
    points.sort();
    let with_dora = points.pop().unwrap();

    let mut hand = from_human_readable_string("345m789p2244z A1111m 2z").unwrap();
    let plain = PointParam { field_wind: 0, self_wind: 2, ..Default::default() };
    let mut points = eval_all(&mut hand, &plain);
    points.sort();
    let without = points.pop().unwrap();

    assert_eq!(without.fan + 4, with_dora.fan);
}
