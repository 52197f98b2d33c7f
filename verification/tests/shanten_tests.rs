use mjcore::parse::from_human_readable_string;
use mjcore::shanten::{all, chitoi, kokushi, normal};

#[test]
fn kokushi_only() {
    let hand = from_human_readable_string("1m9m1p9p1s9s1234567z").unwrap();
    assert_eq!(0, kokushi(&hand));
    let hand = from_human_readable_string("2m9m1p9p1s9s1234567z").unwrap();
    assert_eq!(1, kokushi(&hand));
    let hand = from_human_readable_string("9m1p9p1s9s12344567z").unwrap();
    assert_eq!(0, kokushi(&hand));
    let hand = from_human_readable_string("1p9p1s9s112344567z").unwrap();
    assert_eq!(1, kokushi(&hand));
    let hand = from_human_readable_string("2222333344445m").unwrap();
    assert_eq!(13, kokushi(&hand));
}

#[test]
fn chitoi_only() {
    let hand = from_human_readable_string("58m667p116688s55z").unwrap();
    assert_eq!(1, chitoi(&hand));
    let hand = from_human_readable_string("5m6666p116688s55z").unwrap();
    assert_eq!(2, chitoi(&hand));
    let hand = from_human_readable_string("444m6666p1111s55z").unwrap();
    assert_eq!(5, chitoi(&hand));
    let hand = from_human_readable_string("1m9m1p9p1s9s1234567z").unwrap();
    assert_eq!(6, chitoi(&hand));
}

#[test]
fn normal_only() {
    let hand = from_human_readable_string("123999m456888p1z").unwrap();
    assert_eq!(0, normal(&hand));
}

#[test]
fn shanten_boundary() {
    // a hand one tile from completion has standard shanten zero
    let hand = from_human_readable_string("123999m456888p1z").unwrap();
    assert_eq!(0, normal(&hand));
    assert_eq!(0, all(&hand));
    // the thirteen-orphans tenpai hand is far from a standard shape
    let hand = from_human_readable_string("1m9m1p9p1s9s1234567z").unwrap();
    assert_eq!(0, kokushi(&hand));
    assert_eq!(8, normal(&hand));
    assert_eq!(0, all(&hand));
}
