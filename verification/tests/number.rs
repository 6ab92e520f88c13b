use guloader::number::{decimal3_text, decimal_text, ChapterNumber};

fn chars(s: &str) -> Vec<char> {
    s.chars().collect()
}

fn text(v: Vec<char>) -> String {
    v.into_iter().collect()
}

fn parsed(s: &str) -> Option<u128> {
    ChapterNumber::parse(&chars(s)).map(|n| n.thousandths)
}

#[test]
fn decimal_text_writes_base_ten() {
    assert_eq!(text(decimal_text(0)), "0");
    assert_eq!(text(decimal_text(7)), "7");
    assert_eq!(text(decimal_text(1234)), "1234");
    assert_eq!(text(decimal_text(u128::MAX)), u128::MAX.to_string());
}

#[test]
fn decimal3_text_pads_to_three_digits() {
    assert_eq!(text(decimal3_text(1)), "001");
    assert_eq!(text(decimal3_text(42)), "042");
    assert_eq!(text(decimal3_text(999)), "999");
    assert_eq!(text(decimal3_text(1000)), "1000");
}

#[test]
fn parse_reads_whole_and_fractional_numbers() {
    assert_eq!(parsed("1"), Some(1000));
    assert_eq!(parsed("2.5"), Some(2500));
    assert_eq!(parsed("10.25"), Some(10250));
    assert_eq!(parsed("007"), Some(7000));
    assert_eq!(parsed("0.001"), Some(1));
}

#[test]
fn parse_cuts_fractional_digits_beyond_the_third() {
    assert_eq!(parsed("1.2345"), Some(1234));
    assert_eq!(parsed("1.9999"), Some(1999));
}

#[test]
fn parse_refuses_what_is_no_decimal() {
    assert_eq!(parsed(""), None);
    assert_eq!(parsed("1."), None);
    assert_eq!(parsed(".5"), None);
    assert_eq!(parsed("1.2.3"), None);
    assert_eq!(parsed("x"), None);
    assert_eq!(parsed("-1"), None);
    assert_eq!(parsed("１"), None);
}

#[test]
fn parse_refuses_numbers_beyond_the_machine() {
    assert_eq!(parsed("340282366920938463463374607431768211"), Some(340282366920938463463374607431768211000));
    assert_eq!(parsed("340282366920938463463374607431768212"), None);
    assert_eq!(parsed("9999999999999999999999999999999999999999999"), None);
}

#[test]
fn to_text_writes_the_shortest_decimal() {
    let t = |n: u128| text(ChapterNumber { thousandths: n }.to_text());
    assert_eq!(t(0), "0");
    assert_eq!(t(1000), "1");
    assert_eq!(t(2500), "2.5");
    assert_eq!(t(10250), "10.25");
    assert_eq!(t(1001), "1.001");
    assert_eq!(t(1010), "1.01");
}

#[test]
fn keys_within_the_tolerance_are_close() {
    let a = ChapterNumber { thousandths: 1000 };
    assert!(a.is_close_to(&ChapterNumber { thousandths: 1000 }));
    assert!(a.is_close_to(&ChapterNumber { thousandths: 1009 }));
    assert!(a.is_close_to(&ChapterNumber { thousandths: 991 }));
    assert!(!a.is_close_to(&ChapterNumber { thousandths: 1010 }));
    assert!(!a.is_close_to(&ChapterNumber { thousandths: 990 }));
    assert!(!a.is_close_to(&ChapterNumber { thousandths: 1500 }));
}

#[test]
fn positions_count_from_one() {
    assert_eq!(ChapterNumber::from_position(0).thousandths, 1000);
    assert_eq!(ChapterNumber::from_position(11).thousandths, 12000);
    assert_eq!(ChapterNumber::whole(3).thousandths, 3000);
    assert_eq!(ChapterNumber { thousandths: 2999 }.units(), 2);
}

#[test]
fn the_text_of_a_key_parses_to_the_key() {
    for thousandths in [0u128, 5, 50, 500, 1000, 2000, 2005, 2050, 2500, 12345, 100000, 999999] {
        let key = ChapterNumber { thousandths };
        let text = key.to_text();
        assert_eq!(ChapterNumber::parse(&text), Some(key), "{:?}", text);
    }
    let two: String = ChapterNumber { thousandths: 2000 }.to_text().into_iter().collect();
    let two_and_a_half: String = ChapterNumber { thousandths: 2500 }.to_text().into_iter().collect();
    assert_eq!((two.as_str(), two_and_a_half.as_str()), ("2", "2.5"));
}
