use mjcore::tile::{decode, encode, from_human_readable_string, to_human_readable_string};

#[test]
fn mjsys_encode_decode() {
    for k in 0..4 {
        for n in 1..10 {
            if k == 3 && n > 7 {
                continue;
            }
            let enc = encode(k, n).unwrap();
            let (kk, nn) = decode(enc).unwrap();
            assert_eq!(k, kk);
            assert_eq!(n, nn);
        }
    }
}

#[test]
fn parse_human_readable() {
    let mut hand =
        from_human_readable_string("123456789m123456789p123456789s1234567z").unwrap();
    hand.sort();

    for k in 0..4 {
        for n in 1..10 {
            if k == 3 && n > 7 {
                continue;
            }
            assert!(hand.binary_search(&encode(k, n).unwrap()).is_ok());
        }
    }

    let hand = from_human_readable_string("あm");
    assert!(hand.is_err());
    let hand = from_human_readable_string("0m");
    assert!(hand.is_err());
    let hand = from_human_readable_string("0z");
    assert!(hand.is_err());
    let hand = from_human_readable_string("12345");
    assert!(hand.is_err());
}

#[test]
fn tile_notation() {
    assert_eq!("1m", to_human_readable_string(0).unwrap());
    assert_eq!("9m", to_human_readable_string(8).unwrap());
    assert_eq!("1p", to_human_readable_string(9).unwrap());
    assert_eq!("9s", to_human_readable_string(26).unwrap());
    assert_eq!("1z", to_human_readable_string(27).unwrap());
    assert_eq!("7z", to_human_readable_string(33).unwrap());
    assert!(to_human_readable_string(34).is_err());
}

#[test]
fn invalid_tiles_rejected() {
    assert!(encode(4, 1).is_err());
    assert!(encode(0, 0).is_err());
    assert!(encode(0, 10).is_err());
    assert!(encode(3, 8).is_err());
    assert!(decode(34).is_err());
    assert!(decode(255).is_err());
}

#[test]
fn hand_parse_totals() {
    // thirteen tiles leave the finishing tile open
    let h = mjcore::parse::from_human_readable_string("1112345678999m").unwrap();
    assert!(h.finish_pai.is_none());
    // fourteen tiles finish on the last free tile
    let h = mjcore::parse::from_human_readable_string("111999m111999p1s 1s").unwrap();
    assert_eq!(Some(18), h.finish_pai);
    // any other total is rejected
    assert!(mjcore::parse::from_human_readable_string("11m").is_err());
    assert!(mjcore::parse::from_human_readable_string("111122223333444m").is_err());
    // more than four copies of a tile are rejected
    assert!(mjcore::parse::from_human_readable_string("11111m222m333m44m").is_err());
    // a dangling digit run and an unknown suit letter are rejected
    assert!(mjcore::parse::from_human_readable_string("111999m111999p1s 1").is_err());
    assert!(mjcore::parse::from_human_readable_string("111999x111999p1s").is_err());
}
