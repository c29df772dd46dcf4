use znaky::chybky::Chyby;
use znaky::hexa::{char_to_nibble, chars_count, u_literal, vrat_znak};
use znaky::mi::{csv_line_parser, hledej_v_radcich, prohledej_radky};
use znaky::prefixy::{jediny_znak, precti_cislo, zpracuj_argument, znak_z_cisla, Data, Krok, Prefixy};
use znaky::text::{obsahuje_v_useku, zacina_na, znaky_textu};

fn hex_zapis(text: &str) -> String {
    text.bytes().map(|b| format!("{:02x}", b)).collect()
}

#[test]
fn nibble_from_doc_example() {
    let nibble: u8 = char_to_nibble('F').unwrap();
    assert_eq!(15, nibble);
}

#[test]
fn nibble_all_digits() {
    for (i, c) in "0123456789abcdef".chars().enumerate() {
        assert_eq!(char_to_nibble(c).unwrap() as usize, i);
        assert_eq!(char_to_nibble(c.to_ascii_uppercase()).unwrap() as usize, i);
    }
}

#[test]
fn nibble_refuses_non_hex() {
    for c in ['g', 'G', 'z', ' ', '/', ':', '@', '`', 'ž', 'x'] {
        assert!(matches!(char_to_nibble(c), Err(Chyby::BadNeco)));
    }
}

#[test]
fn next_char_takes_one_at_a_time() {
    let s = String::from("až");
    let mut it = s.chars();
    assert_eq!(vrat_znak(&mut it).unwrap(), 'a');
    assert_eq!(vrat_znak(&mut it).unwrap(), 'ž');
    assert!(matches!(vrat_znak(&mut it), Err(Chyby::BadNeco)));
    assert!(matches!(vrat_znak(&mut it), Err(Chyby::BadNeco)));
}

#[test]
fn count_even_and_odd() {
    assert_eq!(chars_count(String::from("abcd")), Ok(2));
    assert_eq!(chars_count(String::new()), Ok(0));
    assert_eq!(chars_count(String::from("abc")), Err("Chybka"));
    // characters, not bytes, are counted
    assert_eq!(chars_count(String::from("čřžý")), Ok(2));
    assert_eq!(chars_count(String::from("ž")), Err("Chybka"));
}

#[test]
fn literal_decodes_utf8_pairs() {
    assert_eq!(u_literal(String::from("41")).unwrap(), "A");
    assert_eq!(u_literal(String::from("c990")).unwrap(), "ɐ");
    assert_eq!(u_literal(String::from("C990")).unwrap(), "ɐ");
    assert_eq!(u_literal(String::from("e299a5")).unwrap(), "♥");
    assert_eq!(u_literal(String::from("f09f9880")).unwrap(), "😀");
    assert_eq!(u_literal(String::new()).unwrap(), "");
    assert_eq!(u_literal(String::from("4142")).unwrap(), "AB");
}

#[test]
fn literal_refusals() {
    // odd number of characters
    assert!(matches!(u_literal(String::from("c99")), Err(Chyby::BadNeco)));
    // a character that is not a hexadecimal digit
    assert!(matches!(u_literal(String::from("e299az")), Err(Chyby::BadNeco)));
    // bytes that are not UTF-8
    assert!(matches!(u_literal(String::from("ff")), Err(Chyby::BadNeco)));
    assert!(matches!(u_literal(String::from("c9")), Err(Chyby::BadNeco)));
    assert!(matches!(u_literal(String::from("eda080")), Err(Chyby::BadNeco)));
}

#[test]
fn literal_round_trip() {
    for t in ["žluťoučký kůň", "A", "", "日本語", "😀x", ";"] {
        assert_eq!(u_literal(hex_zapis(t)).unwrap(), t);
        assert_eq!(u_literal(hex_zapis(t).to_uppercase()).unwrap(), t);
    }
}

#[test]
fn csv_line_finds_in_second_field() {
    let line = String::from("0041;latin capital letter a;lu;0;l;;;;;n;;;;0061;");
    assert_eq!(csv_line_parser(line.clone(), &String::from("capital letter a")), Some(String::from("0041")));
    assert_eq!(csv_line_parser(line.clone(), &String::from("letter b")), None);
    // only the second field is searched
    assert_eq!(csv_line_parser(line.clone(), &String::from("lu")), None);
    assert_eq!(csv_line_parser(line.clone(), &String::from("0061")), None);
    assert_eq!(csv_line_parser(line, &String::new()), Some(String::from("0041")));
}

#[test]
fn csv_line_short_lines() {
    assert_eq!(csv_line_parser(String::from("x;y"), &String::from("y")), Some(String::from("x")));
    assert_eq!(csv_line_parser(String::from(";"), &String::new()), Some(String::new()));
    assert_eq!(csv_line_parser(String::from(";"), &String::from("a")), None);
    assert_eq!(csv_line_parser(String::from("2665;srdce"), &String::from("srdce")), Some(String::from("2665")));
    assert_eq!(csv_line_parser(String::from("abc;xabcx;"), &String::from("abcx")), Some(String::from("abc")));
}

fn seznam() -> Vec<String> {
    vec![
        String::from("0041;LATIN CAPITAL LETTER A;Lu"),
        String::from("0062;LATIN SMALL LETTER B;Ll"),
        String::from("0063;LATIN SMALL LETTER C;Ll"),
    ]
}

#[test]
fn lines_first_match_wins() {
    let r = hledej_v_radcich(String::from("  Latin Small Letter\t"), &seznam(), None);
    assert_eq!(r.unwrap(), "0062");
    let r = hledej_v_radcich(String::from("letter c"), &seznam(), None);
    assert_eq!(r.unwrap(), "0063");
}

#[test]
fn lines_not_found() {
    match hledej_v_radcich(String::from(" Letter Z "), &seznam(), None) {
        Err(Chyby::NFWord(w)) => assert_eq!(w, " Letter Z "),
        _ => panic!("expected NFWord"),
    }
    let e = std::io::Error::new(std::io::ErrorKind::Other, "read failed");
    match hledej_v_radcich(String::from("letter z"), &seznam(), Some(e)) {
        Err(Chyby::NFFile(e)) => assert_eq!(e.to_string(), "read failed"),
        _ => panic!("expected NFFile"),
    }
    let e = std::io::Error::new(std::io::ErrorKind::Other, "read failed");
    assert_eq!(hledej_v_radcich(String::from("letter a"), &seznam(), Some(e)).unwrap(), "0041");
}

#[test]
fn lines_without_separator() {
    let mut radky = seznam();
    radky.insert(1, String::from("ŽÁDNÝ STŘEDNÍK"));
    match hledej_v_radcich(String::from("letter c"), &radky, None) {
        Err(Chyby::BadString(l)) => assert_eq!(l, "žádný středník"),
        _ => panic!("expected BadString"),
    }
    // a match before that line is found
    assert_eq!(hledej_v_radcich(String::from("letter a"), &radky, None).unwrap(), "0041");
}

#[test]
fn prefixes_default() {
    let p = Prefixy::default();
    assert_eq!(p.decim, "dx");
    assert_eq!(p.unicode, "ux");
    assert_eq!(p.utf, "0x");
    let d = Data::default();
    assert_eq!(d.prefixy.decim, "dx");
    assert_eq!(d.prefixy.unicode, "ux");
    assert_eq!(d.prefixy.utf, "0x");
}

fn znak(argument: &str) -> Result<Krok, Chyby> {
    zpracuj_argument(&String::from(argument), &Prefixy::default())
}

#[test]
fn arguments_by_prefix() {
    assert!(matches!(znak("ux41"), Ok(Krok::Vypis('A'))));
    assert!(matches!(znak("ux2665"), Ok(Krok::Vypis('♥'))));
    assert!(matches!(znak("ux+1f600"), Ok(Krok::Vypis('😀'))));
    assert!(matches!(znak("dx65"), Ok(Krok::Vypis('A'))));
    assert!(matches!(znak("dx9829"), Ok(Krok::Vypis('♥'))));
    assert!(matches!(znak("0xc990"), Ok(Krok::Vypis('ɐ'))));
    assert!(matches!(znak("0xe299a5"), Ok(Krok::Vypis('♥'))));
    match znak("black heart") {
        Ok(Krok::HledejJmeno(s)) => assert_eq!(s, "black heart"),
        _ => panic!("expected a name"),
    }
    match znak("") {
        Ok(Krok::HledejJmeno(s)) => assert_eq!(s, ""),
        _ => panic!("expected a name"),
    }
}

#[test]
fn arguments_refused() {
    assert!(matches!(znak("ux"), Err(Chyby::BadNeco)));
    assert!(matches!(znak("uxd800"), Err(Chyby::BadNeco)));
    assert!(matches!(znak("ux110000"), Err(Chyby::BadNeco)));
    assert!(matches!(znak("uxzz"), Err(Chyby::BadNeco)));
    assert!(matches!(znak("dx-1"), Err(Chyby::BadNeco)));
    assert!(matches!(znak("dx4294967296"), Err(Chyby::BadNeco)));
    assert!(matches!(znak("dx4294967295"), Err(Chyby::BadNeco)));
    assert!(matches!(znak("dxff"), Err(Chyby::BadNeco)));
    assert!(matches!(znak("0xc9"), Err(Chyby::BadNeco)));
    assert!(matches!(znak("0xc99"), Err(Chyby::BadNeco)));
    match znak("0x4142") {
        Err(Chyby::BadChar(t)) => assert_eq!(t, "AB"),
        _ => panic!("expected BadChar"),
    }
    match znak("0x") {
        Err(Chyby::BadChar(t)) => assert_eq!(t, ""),
        _ => panic!("expected BadChar"),
    }
}

#[test]
fn arguments_prefix_order() {
    // the unicode prefix is tried first, then utf, then decim
    let p = Prefixy { decim: String::from("x"), unicode: String::from("xx"), utf: String::from("xxx") };
    assert!(matches!(zpracuj_argument(&String::from("xx41"), &p), Ok(Krok::Vypis('A'))));
    assert!(matches!(zpracuj_argument(&String::from("x65"), &p), Ok(Krok::Vypis('A'))));
    // "xxx41" begins with "xx": the rest "x41" is no hexadecimal number
    assert!(matches!(zpracuj_argument(&String::from("xxx41"), &p), Err(Chyby::BadNeco)));
    let q = Prefixy { decim: String::from("d"), unicode: String::from(""), utf: String::from("u") };
    assert!(matches!(zpracuj_argument(&String::from("41"), &q), Ok(Krok::Vypis('A'))));
    assert!(matches!(zpracuj_argument(&String::from("u41"), &q), Err(Chyby::BadNeco)));
}

#[test]
fn numbers() {
    assert_eq!(precti_cislo("ff", 16), Some(255));
    assert_eq!(precti_cislo("FF", 16), Some(255));
    assert_eq!(precti_cislo("+10", 10), Some(10));
    assert_eq!(precti_cislo("007", 10), Some(7));
    assert_eq!(precti_cislo("4294967295", 10), Some(u32::MAX));
    assert_eq!(precti_cislo("ffffffff", 16), Some(u32::MAX));
    assert_eq!(precti_cislo("100000000", 16), None);
    assert_eq!(precti_cislo("", 10), None);
    assert_eq!(precti_cislo("+", 10), None);
    assert_eq!(precti_cislo("++1", 10), None);
    assert_eq!(precti_cislo("-1", 10), None);
    assert_eq!(precti_cislo(" 1", 10), None);
    assert_eq!(precti_cislo("z", 36), Some(35));
    for s in ["0", "1", "+7", "123456", "ffff", "4294967295", "4294967296", "", "+", "x", "1a", "٣"] {
        for r in [2u32, 8, 10, 16, 36] {
            assert_eq!(precti_cislo(s, r), u32::from_str_radix(s, r).ok(), "{} {}", s, r);
        }
    }
}

#[test]
fn char_from_code() {
    assert_eq!(znak_z_cisla("41", 16).unwrap(), 'A');
    assert_eq!(znak_z_cisla("10ffff", 16).unwrap(), '\u{10ffff}');
    assert!(matches!(znak_z_cisla("dfff", 16), Err(Chyby::BadNeco)));
    assert_eq!(znak_z_cisla("e000", 16).unwrap(), '\u{e000}');
    assert!(matches!(znak_z_cisla("", 16), Err(Chyby::BadNeco)));
}

#[test]
fn single_char() {
    assert_eq!(jediny_znak("ž"), Some('ž'));
    assert_eq!(jediny_znak(""), None);
    assert_eq!(jediny_znak("ab"), None);
}

#[test]
fn text_helpers() {
    assert_eq!(znaky_textu("ažb"), vec!['a', 'ž', 'b']);
    assert!(zacina_na("uxab", "ux"));
    assert!(zacina_na("ux", ""));
    assert!(!zacina_na("u", "ux"));
    assert!(!zacina_na("žx", "zx"));
    let h = vec!['a', 'b', 'c', 'd'];
    assert!(obsahuje_v_useku(&h, 1, 3, &vec!['b', 'c']));
    assert!(!obsahuje_v_useku(&h, 1, 3, &vec!['c', 'd']));
    assert!(obsahuje_v_useku(&h, 2, 2, &vec![]));
    assert!(!obsahuje_v_useku(&h, 2, 2, &vec!['c']));
}

#[test]
fn error_messages() {
    assert_eq!(Chyby::BadChar(String::from("x")).zprava(), "Chybný znak");
    assert_eq!(Chyby::BadString(String::from("x")).zprava(), "Chybný vstup");
    assert_eq!(Chyby::BadNeco.zprava(), "Etwa schief gelaufen");
    let e = std::io::Error::new(std::io::ErrorKind::NotFound, "x");
    assert_eq!(Chyby::NFFile(e).zprava(), "Soubor nenalezen");
    assert_eq!(Chyby::NFWord(String::from("srdce")).zprava(), "srdce nenalezeno");
}

#[test]
fn error_from_io() {
    let e = std::io::Error::new(std::io::ErrorKind::NotFound, "chybí");
    let c: Chyby = e.into();
    match c {
        Chyby::NFFile(e) => assert_eq!(e.kind(), std::io::ErrorKind::NotFound),
        _ => panic!("expected NFFile"),
    }
}

#[test]
fn lines_searched_as_given() {
    let radky = vec![
        String::from("0041;latin capital letter a"),
        String::from("0042;LATIN CAPITAL LETTER B"),
        String::from("bez stredniku"),
        String::from("0043;latin capital letter c"),
    ];
    assert_eq!(prohledej_radky(&String::from("letter a"), &radky), Some(Ok(String::from("0041"))));
    // no case folding here
    assert_eq!(prohledej_radky(&String::from("letter b"), &radky), Some(Err(String::from("bez stredniku"))));
    assert_eq!(prohledej_radky(&String::from("LETTER B"), &radky), Some(Ok(String::from("0042"))));
    assert_eq!(prohledej_radky(&String::from("x"), &radky[..2].to_vec()), None);
    assert_eq!(prohledej_radky(&String::from("x"), &Vec::new()), None);
}

#[test]
fn literal_pairs_are_bytes() {
    for s in ["c990", "e299a5", "41", "f09f9880", ""] {
        assert_eq!(u_literal(String::from(s)).unwrap().len() * 2, s.len());
    }
}
