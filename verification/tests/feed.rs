use potion_agent::action::Action;
use potion_agent::catalog::{Record, RecordKind};
use potion_agent::feed::{
    blank, cut_line, number_at, parse_number, read_count, read_record, read_record_line,
    read_witch, read_witch_line, trim, FeedError,
};
use potion_agent::recipe::Witch;

fn tokens(line: &str) -> Vec<Vec<u8>> {
    line.split(' ').map(|t| t.as_bytes().to_vec()).collect()
}

#[test]
fn numbers_are_read_in_decimal() {
    assert_eq!(parse_number(b"0"), Some(0));
    assert_eq!(parse_number(b"7"), Some(7));
    assert_eq!(parse_number(b"42"), Some(42));
    assert_eq!(parse_number(b"-3"), Some(-3));
    assert_eq!(parse_number(b"+3"), Some(3));
    assert_eq!(parse_number(b"007"), Some(7));
    assert_eq!(parse_number(b"-0"), Some(0));
}

#[test]
fn numbers_reach_both_ends_of_the_range() {
    assert_eq!(parse_number(b"2147483647"), Some(i32::MAX));
    assert_eq!(parse_number(b"-2147483648"), Some(i32::MIN));
    assert_eq!(parse_number(b"+2147483647"), Some(i32::MAX));
    assert_eq!(parse_number(b"0000000002147483647"), Some(i32::MAX));
}

#[test]
fn numbers_out_of_range_are_refused() {
    assert_eq!(parse_number(b"2147483648"), None);
    assert_eq!(parse_number(b"-2147483649"), None);
    assert_eq!(parse_number(b"99999999999999999999999999"), None);
    assert_eq!(parse_number(b"-99999999999999999999999999"), None);
}

#[test]
fn tokens_that_are_no_numbers_are_refused() {
    assert_eq!(parse_number(b""), None);
    assert_eq!(parse_number(b"-"), None);
    assert_eq!(parse_number(b"+"), None);
    assert_eq!(parse_number(b"--1"), None);
    assert_eq!(parse_number(b"1-"), None);
    assert_eq!(parse_number(b"12a"), None);
    assert_eq!(parse_number(b"a12"), None);
    assert_eq!(parse_number(b" 1"), None);
    assert_eq!(parse_number(b"1 "), None);
    assert_eq!(parse_number(b"1.0"), None);
    assert_eq!(parse_number(b"99999999999999999999999999x"), None);
}

#[test]
fn numbers_are_read_as_std_reads_them() {
    let samples = [
        "0", "1", "-1", "+1", "10", "-10", "123456789", "2147483647", "2147483648", "-2147483648",
        "-2147483649", "", "-", "+", "+-1", "1e3", "0x10", "\u{ff10}\u{ff11}", "4294967296", "00", "-00",
        "+0", "9", "/", ":",
    ];
    for s in samples.iter() {
        assert_eq!(parse_number(s.as_bytes()), s.parse::<i32>().ok());
    }
    for n in [i32::MIN, -65536, -1, 0, 1, 65535, i32::MAX].iter() {
        assert_eq!(parse_number(n.to_string().as_bytes()), Some(*n));
    }
}

#[test]
fn number_at_reads_the_token_asked_for() {
    let row = tokens("5 x -6");
    assert_eq!(number_at(&row, 0), Ok(5));
    assert_eq!(number_at(&row, 1), Err(FeedError::NotANumber));
    assert_eq!(number_at(&row, 2), Ok(-6));
}

#[test]
fn record_is_read_field_by_field() {
    let record = read_record(&tokens("78 CAST 2 0 -1 0 0 -1 -1 1 0"));
    assert_eq!(
        record,
        Ok(Record {
            id: 78,
            kind: RecordKind::Cast,
            tiers_0_ingredient: 2,
            tiers_1_ingredient: 0,
            tiers_2_ingredient: -1,
            tiers_3_ingredient: 0,
            price: 0,
            tome_index: -1,
            tax_count: -1,
            castable: 1,
            repeatable: 0,
        })
    );
    let potion = read_record(&tokens("42 BREW -3 0 0 -2 10 0 0 0 0")).unwrap();
    assert_eq!(potion.kind, RecordKind::Brew);
    assert_eq!(potion.id, 42);
    assert_eq!(potion.tiers_3_ingredient, -2);
    assert_eq!(potion.price, 10);
}

#[test]
fn record_of_unknown_kind_is_still_read() {
    let record = read_record(&tokens("1 DANCE 0 0 0 0 0 0 0 0 0")).unwrap();
    assert_eq!(record.kind, RecordKind::Unknown);
    let theirs = read_record(&tokens("1 OPPONENT_CAST 0 0 0 0 0 0 0 0 1")).unwrap();
    assert_eq!(theirs.kind, RecordKind::OpponentCast);
    assert_eq!(theirs.repeatable, 1);
}

#[test]
fn record_with_further_tokens_is_read() {
    let record = read_record(&tokens("1 LEARN 1 2 3 4 5 6 7 8 9 junk")).unwrap();
    assert_eq!(record.kind, RecordKind::Learn);
    assert_eq!(record.repeatable, 9);
}

#[test]
fn short_record_is_truncated() {
    assert_eq!(read_record(&tokens("1 BREW 1 2 3 4 5 6 7 8")), Err(FeedError::Truncated));
    assert_eq!(read_record(&tokens("x BREW")), Err(FeedError::Truncated));
    assert_eq!(read_record(&Vec::new()), Err(FeedError::Truncated));
}

#[test]
fn record_with_a_bad_number_is_refused() {
    assert_eq!(read_record(&tokens("x BREW 1 2 3 4 5 6 7 8 9")), Err(FeedError::NotANumber));
    assert_eq!(read_record(&tokens("1 BREW 1 2 3 4 5 6 7 8 x")), Err(FeedError::NotANumber));
    assert_eq!(read_record(&tokens("1 BREW 1 2  3 4 5 6 7 8")), Err(FeedError::NotANumber));
    assert_eq!(
        read_record(&tokens("1 BREW 1 2 3 4 2147483648 6 7 8 9")),
        Err(FeedError::NotANumber)
    );
}

#[test]
fn witch_is_read_field_by_field() {
    assert_eq!(
        read_witch(&tokens("3 0 1 2 17")),
        Ok(Witch {
            tiers_0_inventory: 3,
            tiers_1_inventory: 0,
            tiers_2_inventory: 1,
            tiers_3_inventory: 2,
            score: 17,
        })
    );
    assert!(read_witch(&tokens("3 0 1 2 17 more")).is_ok());
}

#[test]
fn bad_witch_lines_are_refused() {
    assert_eq!(read_witch(&tokens("3 0 1 2")), Err(FeedError::Truncated));
    assert_eq!(read_witch(&tokens("")), Err(FeedError::Truncated));
    assert_eq!(read_witch(&tokens("3 0 1 2 x")), Err(FeedError::NotANumber));
    assert_eq!(read_witch(&tokens("3 0 one 2 5")), Err(FeedError::NotANumber));
}

fn strings(tokens: Vec<Vec<u8>>) -> Vec<String> {
    tokens.into_iter().map(|t| String::from_utf8(t).unwrap()).collect()
}

#[test]
fn trim_strips_blanks_at_both_ends_only() {
    assert_eq!(trim(b"  a b \n"), b"a b".to_vec());
    assert_eq!(trim(b"abc"), b"abc".to_vec());
    assert_eq!(trim(b"\t\r\n\x0b\x0c x"), b"x".to_vec());
    assert_eq!(trim(b"x\t\r\n\x0b\x0c "), b"x".to_vec());
    assert_eq!(trim(b""), Vec::<u8>::new());
    assert_eq!(trim(b" \n "), Vec::<u8>::new());
    assert_eq!(trim(b"\x08x\x0e"), b"\x08x\x0e".to_vec());
}

#[test]
fn trim_agrees_with_std_on_ascii() {
    let samples = ["", " ", "a", " a", "a ", "  a  b  ", "\n", "\r\n", "12\r\n", "\t-5\n", "x\x0by\x0b"];
    for s in samples.iter() {
        assert_eq!(trim(s.as_bytes()), s.trim().as_bytes().to_vec());
    }
}

#[test]
fn blank_bytes_are_the_six_ascii_blanks() {
    for b in 0..=255u8 {
        assert_eq!(blank(b), b == b' ' || (9..=13).contains(&b));
    }
}

#[test]
fn line_is_cut_at_each_space() {
    assert_eq!(strings(cut_line(b"1 BREW -3")), vec!["1", "BREW", "-3"]);
    assert_eq!(strings(cut_line(b"")), vec![""]);
    assert_eq!(strings(cut_line(b"abc")), vec!["abc"]);
    assert_eq!(strings(cut_line(b" ")), vec!["", ""]);
    assert_eq!(strings(cut_line(b"a  b")), vec!["a", "", "b"]);
    assert_eq!(strings(cut_line(b" a ")), vec!["", "a", ""]);
}

#[test]
fn cut_tokens_are_trimmed() {
    assert_eq!(strings(cut_line(b"3 0 1 2 17\n")), vec!["3", "0", "1", "2", "17"]);
    assert_eq!(strings(cut_line(b"3 \t0 1\r\n")), vec!["3", "0", "1"]);
    assert_eq!(strings(cut_line(b"a\tb c")), vec!["a\tb", "c"]);
}

#[test]
fn cut_line_agrees_with_std_on_ascii() {
    let samples = ["", " ", "a b c", "  lead", "trail  ", "78 CAST 2 0 -1 0 0 -1 -1 1 0\n", "\ta \n b\r\n"];
    for s in samples.iter() {
        let expected: Vec<String> = s.split(' ').map(|t| t.trim().to_string()).collect();
        assert_eq!(strings(cut_line(s.as_bytes())), expected);
    }
}

#[test]
fn count_is_read_between_blanks() {
    assert_eq!(read_count(b"12\n"), Ok(12));
    assert_eq!(read_count(b"  0\r\n"), Ok(0));
    assert_eq!(read_count(b"7"), Ok(7));
    assert_eq!(read_count(b"\n"), Err(FeedError::NotANumber));
    assert_eq!(read_count(b""), Err(FeedError::NotANumber));
    assert_eq!(read_count(b"1 2\n"), Err(FeedError::NotANumber));
    assert_eq!(read_count(b"twelve\n"), Err(FeedError::NotANumber));
}

#[test]
fn record_line_is_read() {
    let record = read_record_line(b"42 BREW -3 0 0 -2 10 0 0 0 0\n").unwrap();
    assert_eq!(record.id, 42);
    assert_eq!(record.kind, RecordKind::Brew);
    assert_eq!(record.tiers_0_ingredient, -3);
    assert_eq!(record.tiers_3_ingredient, -2);
    assert_eq!(record.price, 10);
    assert_eq!(record.repeatable, 0);
}

#[test]
fn bad_record_lines_are_refused() {
    assert_eq!(read_record_line(b"42 BREW -3 0 0\n"), Err(FeedError::Truncated));
    assert_eq!(read_record_line(b"\n"), Err(FeedError::Truncated));
    assert_eq!(read_record_line(b"42 BREW -3 0 0 -2 ten 0 0 0 0\n"), Err(FeedError::NotANumber));
    assert_eq!(read_record_line(b"42  BREW -3 0 0 -2 10 0 0 0\n"), Err(FeedError::NotANumber));
}

#[test]
fn witch_line_is_read() {
    assert_eq!(
        read_witch_line(b"3 0 1 2 17\n"),
        Ok(Witch {
            tiers_0_inventory: 3,
            tiers_1_inventory: 0,
            tiers_2_inventory: 1,
            tiers_3_inventory: 2,
            score: 17,
        })
    );
    assert_eq!(read_witch_line(b"3 0 1\n"), Err(FeedError::Truncated));
    assert_eq!(read_witch_line(b"3 0 1 2 \n"), Err(FeedError::NotANumber));
}

#[test]
fn written_ids_read_back() {
    for id in [i32::MIN, -77, -1, 0, 1, 5, 10, 4096, i32::MAX].iter() {
        let line = Action::Brew(*id).command();
        let tokens = cut_line(&line);
        assert_eq!(tokens.len(), 2);
        assert_eq!(RecordKind::from_token(&tokens[0]), RecordKind::Brew);
        assert_eq!(parse_number(&tokens[1]), Some(*id));
    }
}
