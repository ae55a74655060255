use unifand::diagnostics::list_of;
use unifand::ordered::OrderedMap;
use unifand::report::{Piece, Report};
use unifand::text::{chars_of, decimal, hex4, parse_byte, same_text, trim};

#[test]
fn numbers_are_written_in_decimal() {
    for n in [0u64, 7, 10, 99, 100, 65535, u64::MAX] {
        assert_eq!(decimal(n), n.to_string());
    }
    let hex: String = hex4(0x0cf2).into_iter().collect();
    assert_eq!(hex, "0CF2");
    let hex: String = hex4(0xa105).into_iter().collect();
    assert_eq!(hex, "A105");
}

#[test]
fn bytes_are_read_as_std_reads_them() {
    for s in [
        "", "+", "-", "0", "1", "01", "+1", "++1", "-0", " 1", "1 ", "255", "256", "0000255",
        "00000000000000000256", "12a", "\u{0661}", "300", "99999999999999999999",
    ] {
        assert_eq!(parse_byte(s), s.parse::<u8>().ok(), "{s:?}");
    }
    for n in 0..=255u8 {
        assert_eq!(parse_byte(&decimal(n as u64)), Some(n));
    }
}

#[test]
fn white_space_is_trimmed_as_std_trims_it() {
    for s in [
        "", " ", "k10temp\n", "\t k10temp \r\n", "a b", "\u{a0}x\u{3000}", "\u{200b}x", "\u{85}\u{2028}y",
    ] {
        assert_eq!(trim(s), s.trim(), "{s:?}");
    }
}

#[test]
fn texts_are_compared_by_their_characters() {
    assert!(same_text("grün", "grün"));
    assert!(!same_text("grün", "gruen"));
    assert!(!same_text("a", "ab"));
    assert_eq!(chars_of("aß\u{1f600}"), vec!['a', 'ß', '\u{1f600}']);
}

#[test]
fn lists_of_numbers_are_bracketed() {
    for v in [vec![], vec![1u8], vec![1, 2], vec![4, 200, 0]] {
        assert_eq!(list_of(&v), format!("{v:?}"));
    }
}

#[test]
fn maps_keep_their_keys_in_order() {
    let mut m: OrderedMap<String, u8> = OrderedMap::new();
    let words = ["b", "a", "ab", "", "aa", "b", "\u{ff}", "\u{1f600}", "Z"];
    let mut reference = std::collections::BTreeMap::new();
    for (i, w) in words.iter().enumerate() {
        m.insert(w.to_string(), i as u8);
        reference.insert(w.to_string(), i as u8);
    }
    assert_eq!(m.len(), reference.len());
    for (i, (k, v)) in reference.iter().enumerate() {
        assert_eq!((m.key_at(i), m.value_at(i)), (k, v));
        assert_eq!(m.get(k), Some(v));
    }
    assert_eq!(m.get(&"c".to_string()), None);
    assert!(!m.is_empty());
    let mut c: OrderedMap<u8, u8> = OrderedMap::new();
    assert!(c.is_empty());
    for k in [3, 1, 2, 1] {
        c.insert(k, k * 10);
    }
    assert_eq!((0..3).map(|i| *c.key_at(i)).collect::<Vec<u8>>(), vec![1, 2, 3]);
}

#[test]
fn reports_keep_text_and_numbers_apart() {
    let mut r = Report::new();
    r.text("x=");
    r.count(12);
    r.text(" y=");
    r.count(3);
    r.flag(true);
    r.value(unifand::binary64::Binary64::ratio(1, 2));
    let shown: Vec<String> = r
        .pieces
        .iter()
        .map(|p| match p {
            Piece::Text(s) => s.clone(),
            Piece::Value(x) => format!("{}", f64::from_bits(x.to_bits())),
        })
        .collect();
    assert_eq!(shown.concat(), "x=12 y=310.5");
}
