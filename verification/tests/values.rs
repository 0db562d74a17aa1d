use base64::Engine;
use offlite::encoding::base64_encode;
use offlite::registry::Registry;
use offlite::text::{i64_text, is_before, same_text, trim, trim_end_slashes, u64_text};

#[test]
fn registry_holds_one_value_per_name() {
    let mut registry: Registry<i64> = Registry::new();
    assert_eq!(registry.get("a"), None);
    assert_eq!(registry.insert("a".to_string(), 1), None);
    assert_eq!(registry.insert("b".to_string(), 2), None);
    assert_eq!(registry.insert("a".to_string(), 3), Some(1));
    assert_eq!(registry.get("a"), Some(&3));
    assert_eq!(registry.get("b"), Some(&2));
    assert_eq!(registry.remove("a"), Some(3));
    assert_eq!(registry.remove("a"), None);
    assert_eq!(registry.get("b"), Some(&2));
}

#[test]
fn base64_pads_to_groups_of_four() {
    assert_eq!(base64_encode(b""), "");
    assert_eq!(base64_encode(b"f"), "Zg==");
    assert_eq!(base64_encode(b"fo"), "Zm8=");
    assert_eq!(base64_encode(b"foo"), "Zm9v");
    assert_eq!(base64_encode(b"foobar"), "Zm9vYmFy");
    assert_eq!(base64_encode(&[255, 239, 191]), "/++/");
}

#[test]
fn base64_is_that_of_the_standard_engine() {
    let engine = base64::engine::general_purpose::STANDARD;
    for len in 0..70u8 {
        let data: Vec<u8> = (0..len).map(|i| i.wrapping_mul(37).wrapping_add(len)).collect();
        assert_eq!(base64_encode(&data), engine.encode(&data));
    }
}

#[test]
fn numbers_are_written_in_decimal() {
    assert_eq!(u64_text(0), "0");
    assert_eq!(u64_text(u64::MAX), u64::MAX.to_string());
    assert_eq!(i64_text(i64::MIN), i64::MIN.to_string());
    assert_eq!(i64_text(-10), "-10");
    assert_eq!(i64_text(i64::MAX), i64::MAX.to_string());
}

#[test]
fn texts_are_ordered_as_strings_are() {
    let texts = ["", "a", "aa", "ab", "b", "é", "地", "\u{ffff}", "\u{10000}", "Z"];
    for a in texts {
        for b in texts {
            assert_eq!(is_before(a, b), a < b);
            assert_eq!(same_text(a, b), a == b);
        }
    }
}

#[test]
fn white_space_and_slashes_are_trimmed() {
    for text in ["", " ", " a ", "\t\r\na b\u{a0}\u{3000}", "\u{200b}x\u{200b}", "\u{85}\u{2028}y"] {
        assert_eq!(trim(text), text.trim());
    }
    for text in ["", "/", "//", "https://h//", "a/b", "a/ "] {
        assert_eq!(trim_end_slashes(text), text.trim_end_matches('/'));
    }
}
