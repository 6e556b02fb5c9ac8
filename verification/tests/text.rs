use wget::text::{chars_of, decimal_string, find_char, find_last_char, parse_decimal, trim_bounds};

#[test]
fn decimal_rendering() {
    assert_eq!(decimal_string(0), "0");
    assert_eq!(decimal_string(7), "7");
    assert_eq!(decimal_string(10), "10");
    assert_eq!(decimal_string(12345), "12345");
    assert_eq!(decimal_string(u64::MAX), u64::MAX.to_string());
}

#[test]
fn decimal_parsing() {
    let c: Vec<char> = "x+0123y".chars().collect();
    assert_eq!(parse_decimal(&c, 1, 6, 1000), Some(123));
    assert_eq!(parse_decimal(&c, 1, 6, 100), None);
    assert_eq!(parse_decimal(&c, 1, 2, 100), None);
    assert_eq!(parse_decimal(&c, 0, 6, 1000), None);
    assert_eq!(parse_decimal(&c, 3, 3, 1000), None);
    let m: Vec<char> = "18446744073709551615".chars().collect();
    assert_eq!(parse_decimal(&m, 0, m.len(), u64::MAX), Some(u64::MAX));
    let o: Vec<char> = "18446744073709551616".chars().collect();
    assert_eq!(parse_decimal(&o, 0, o.len(), u64::MAX), None);
    let p: Vec<char> = "65536".chars().collect();
    assert_eq!(parse_decimal(&p, 0, p.len(), 65535), None);
}

#[test]
fn rendering_then_parsing_gives_back_the_number() {
    for n in [0u64, 1, 9, 10, 99, 100, 65535, 4294967296, u64::MAX] {
        let s: Vec<char> = decimal_string(n).chars().collect();
        assert_eq!(parse_decimal(&s, 0, s.len(), u64::MAX), Some(n));
    }
}

#[test]
fn searching_and_trimming() {
    let s = chars_of("a/b/c");
    assert_eq!(s, vec!['a', '/', 'b', '/', 'c']);
    assert_eq!(find_char(&s, 0, 5, '/'), Some(1));
    assert_eq!(find_char(&s, 2, 5, '/'), Some(3));
    assert_eq!(find_char(&s, 4, 5, '/'), None);
    assert_eq!(find_last_char(&s, 0, 5, '/'), Some(3));
    assert_eq!(find_last_char(&s, 0, 3, '/'), Some(1));
    assert_eq!(find_last_char(&s, 0, 1, '/'), None);
    let t = chars_of(" \t x y\u{3000}\r");
    assert_eq!(trim_bounds(&t, 0, t.len()), (3, 6));
    let w = chars_of("   ");
    let (a, b) = trim_bounds(&w, 0, 3);
    assert_eq!(a, b);
}

#[test]
fn multibyte_characters_are_counted_as_characters() {
    let s = chars_of("下载/文件");
    assert_eq!(s.len(), 5);
    assert_eq!(find_char(&s, 0, 5, '/'), Some(2));
}
