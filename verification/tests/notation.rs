use arrata::notation::{chars_of, digit_value, parse_number, push_number};
use arrata::{Obstacle, ParseError, Quality, Stat};

fn number(text: &str) -> Result<usize, ParseError> {
    let chars: Vec<char> = text.chars().collect();
    parse_number(&chars)
}

fn written(quality: Quality, quantity: usize) -> String {
    let stat = Stat {
        name: "Power".to_string(),
        quality,
        quantity,
        checks: Some(7),
    };
    stat.to_string()
}

#[test]
fn stat_notation_is_read() {
    let stat = Stat::parse("S10");
    assert_eq!(stat.quality, Quality::Superb);
    assert_eq!(stat.quantity, 10);
    assert_eq!(stat.name, "");
    assert_eq!(stat.checks, Some(0));

    assert_eq!(Stat::parse("B4").quality, Quality::Basic);
    assert_eq!(Stat::parse("B4").quantity, 4);
    assert_eq!(Stat::parse("A8").quality, Quality::Adept);
    assert_eq!(Stat::parse("A8").quantity, 8);
}

#[test]
fn quality_letter_is_read_in_either_case() {
    assert_eq!(Stat::parse("a3").quality, Quality::Adept);
    assert_eq!(Stat::parse("s3").quality, Quality::Superb);
    assert_eq!(Stat::parse("b3").quality, Quality::Basic);
    assert_eq!(Stat::parse("a3").quantity, 3);
}

#[test]
fn any_other_first_character_reads_as_basic() {
    for text in ["x5", "75", " 5", "?5", "é5", "龍5"] {
        let stat = Stat::parse(text);
        assert_eq!(stat.quality, Quality::Basic);
        assert_eq!(stat.quantity, 5);
    }
}

#[test]
fn malformed_quantity_reads_as_one() {
    for text in ["S", "Sx", "S1x", "S-3", "S 3", "S3 ", "S+", "S++3", "S1.5", "S٣"] {
        let stat = Stat::parse(text);
        assert_eq!(stat.quality, Quality::Superb);
        assert_eq!(stat.quantity, 1);
        assert_eq!(stat.checks, Some(0));
    }
}

#[test]
fn quantity_too_large_reads_as_one() {
    let most = usize::MAX.to_string();
    assert_eq!(Stat::parse(&format!("A{}", most)).quantity, usize::MAX);
    assert_eq!(Stat::parse(&format!("A{}0", most)).quantity, 1);
    assert_eq!(Stat::parse("A99999999999999999999999999999999").quantity, 1);
    let mut next = most.into_bytes();
    let last = next.len() - 1;
    next[last] += 1;
    let next = String::from_utf8(next).unwrap();
    assert_eq!(Stat::parse(&format!("A{}", next)).quantity, 1);
}

#[test]
fn quantity_may_have_a_sign_and_leading_zeros() {
    assert_eq!(Stat::parse("S+10").quantity, 10);
    assert_eq!(Stat::parse("S007").quantity, 7);
    assert_eq!(Stat::parse("S0").quantity, 0);
    assert_eq!(Stat::parse("S+0").quantity, 0);
    assert_eq!(Stat::parse("S00000000000000000000000000000000012").quantity, 12);
}

#[test]
fn empty_text_reads_as_a_fresh_stat() {
    let stat = Stat::parse("");
    assert_eq!(stat, Stat::new(String::new()));
    assert_eq!(stat.quality, Quality::Basic);
    assert_eq!(stat.quantity, 1);
    assert_eq!(stat.checks, Some(0));
}

#[test]
fn stat_is_read_from_a_string() {
    let stat = Stat::from("a12".to_string());
    assert_eq!(stat.quality, Quality::Adept);
    assert_eq!(stat.quantity, 12);
    let stat: Stat = String::from("zz").into();
    assert_eq!(stat.quality, Quality::Basic);
    assert_eq!(stat.quantity, 1);
}

#[test]
fn stat_notation_is_written() {
    assert_eq!(written(Quality::Basic, 4), "B4");
    assert_eq!(written(Quality::Adept, 8), "A8");
    assert_eq!(written(Quality::Superb, 10), "S10");
    assert_eq!(written(Quality::Superb, 0), "S0");
    assert_eq!(written(Quality::Basic, 1234567890), "B1234567890");
    assert_eq!(written(Quality::Adept, usize::MAX), format!("A{}", usize::MAX));
}

#[test]
fn writing_and_reading_keeps_quality_and_quantity_only() {
    for quality in [Quality::Basic, Quality::Adept, Quality::Superb] {
        for quantity in [0usize, 1, 9, 10, 11, 99, 100, 101, 65535, usize::MAX] {
            let read = Stat::parse(&written(quality, quantity));
            assert_eq!(read.quality, quality);
            assert_eq!(read.quantity, quantity);
            assert_eq!(read.name, "");
            assert_eq!(read.checks, Some(0));
        }
    }
}

#[test]
fn reading_writing_and_reading_again_changes_nothing() {
    let texts = [
        "", "B", "B4", "A8", "S10", "s+7", "a007", "x", "é", "é12", "S-1", "q99999999999999999999999",
        "Ob3", "12", "+", "A+", "S0", " S3",
    ];
    for text in texts {
        let once = Stat::parse(text);
        let twice = Stat::parse(&once.to_string());
        assert_eq!(twice, once);
        assert_eq!(twice.to_string(), once.to_string());
    }
}

#[test]
fn obstacle_notation_is_read() {
    assert_eq!(Obstacle::parse("Ob3"), Ok(Obstacle(3)));
    assert_eq!(Obstacle::parse("ob12"), Ok(Obstacle(12)));
    assert_eq!(Obstacle::parse("Ob0"), Ok(Obstacle(0)));
    assert_eq!(Obstacle::parse("Ob+4"), Ok(Obstacle(4)));
}

#[test]
fn obstacle_tag_is_not_looked_at() {
    assert_eq!(Obstacle::parse("xy5"), Ok(Obstacle(5)));
    assert_eq!(Obstacle::parse("125"), Ok(Obstacle(5)));
    assert_eq!(Obstacle::parse("éé5"), Ok(Obstacle(5)));
}

#[test]
fn malformed_obstacle_level_reads_as_one() {
    assert_eq!(Obstacle::parse("Ob"), Ok(Obstacle(1)));
    assert_eq!(Obstacle::parse("Obx"), Ok(Obstacle(1)));
    assert_eq!(Obstacle::parse("Ob-2"), Ok(Obstacle(1)));
    assert_eq!(Obstacle::parse("Ob 2"), Ok(Obstacle(1)));
    assert_eq!(Obstacle::parse("Ob99999999999999999999999999"), Ok(Obstacle(1)));
}

#[test]
fn short_obstacle_text_is_refused() {
    assert_eq!(Obstacle::parse(""), Err(ParseError::InvalidFormat));
    assert_eq!(Obstacle::parse("O"), Err(ParseError::InvalidFormat));
    assert_eq!(Obstacle::parse("3"), Err(ParseError::InvalidFormat));
    assert_eq!(Obstacle::parse("é"), Err(ParseError::InvalidFormat));
}

#[test]
fn obstacle_is_read_from_a_string() {
    assert_eq!(Obstacle::try_from("Ob7".to_string()), Ok(Obstacle(7)));
    assert_eq!(Obstacle::try_from("7".to_string()), Err(ParseError::InvalidFormat));
}

#[test]
fn numbers_are_read() {
    assert_eq!(number("0"), Ok(0));
    assert_eq!(number("7"), Ok(7));
    assert_eq!(number("10"), Ok(10));
    assert_eq!(number("+10"), Ok(10));
    assert_eq!(number("0042"), Ok(42));
    assert_eq!(number("1234567890"), Ok(1234567890));
    assert_eq!(number(&usize::MAX.to_string()), Ok(usize::MAX));
}

#[test]
fn what_is_no_number_is_malformed() {
    for text in ["", "+", "-", "-1", "1-", "a", "1a", "a1", " 1", "1 ", "1+", "++1", "１"] {
        assert_eq!(number(text), Err(ParseError::MalformedQuantity));
    }
    assert_eq!(number(&format!("{}0", usize::MAX)), Err(ParseError::MalformedQuantity));
}

#[test]
fn numbers_read_as_the_standard_library_reads_them() {
    let texts = [
        "", "0", "1", "+1", "-1", "+", "-", "00", "09", "10", "4x", "x4", " 4", "+-4", "+004",
        "18446744073709551615", "18446744073709551616", "4294967295", "4294967296",
        "99999999999999999999",
    ];
    for text in texts {
        assert_eq!(number(text).ok(), text.parse::<usize>().ok());
    }
}

#[test]
fn numbers_are_written() {
    for (n, text) in [(0usize, "0"), (7, "7"), (10, "10"), (101, "101"), (9000, "9000")] {
        let mut out = String::new();
        push_number(&mut out, n);
        assert_eq!(out, text);
    }
    let mut out = String::from("Ob");
    push_number(&mut out, 35);
    assert_eq!(out, "Ob35");
    let mut out = String::new();
    push_number(&mut out, usize::MAX);
    assert_eq!(out, usize::MAX.to_string());
}

#[test]
fn digits_have_their_values() {
    for (value, digit) in "0123456789".chars().enumerate() {
        assert_eq!(digit_value(digit), Some(value as u8));
    }
    for other in ['a', '+', '-', ' ', '/', ':', '٣', '１'] {
        assert_eq!(digit_value(other), None);
    }
}

#[test]
fn text_is_taken_apart_by_characters() {
    assert_eq!(chars_of(""), Vec::<char>::new());
    assert_eq!(chars_of("S10"), vec!['S', '1', '0']);
    assert_eq!(chars_of("é龍x"), vec!['é', '龍', 'x']);
}
