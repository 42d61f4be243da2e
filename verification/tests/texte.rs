use bruecke::lauf::kanaltext_bauen;
use bruecke::text::{
    dezimal, dezimal_mit_vorzeichen, enthaelt, ganzzahl_lesen, gleich, trimmen, zahl_lesen,
};

#[test]
fn dezimaltext() {
    assert_eq!(dezimal(0), "0");
    assert_eq!(dezimal(7), "7");
    assert_eq!(dezimal(1234567890), "1234567890");
    assert_eq!(dezimal(u64::MAX), "18446744073709551615");
    assert_eq!(dezimal_mit_vorzeichen(-1), "-1");
    assert_eq!(dezimal_mit_vorzeichen(0), "0");
    assert_eq!(dezimal_mit_vorzeichen(i64::MIN), "-9223372036854775808");
}

#[test]
fn zahlen_lesen_wie_std() {
    for t in ["0", "42", "+42", "007", "18446744073709551615", "18446744073709551616", "", "+",
        "-1", "1a", " 1", "١"]
    {
        assert_eq!(zahl_lesen(t), t.parse::<u64>().ok(), "{t:?}");
    }
    for t in ["0", "-0", "-42", "+42", "9223372036854775807", "9223372036854775808",
        "-9223372036854775808", "-9223372036854775809", "", "-", "+", "--1", "4x"]
    {
        assert_eq!(ganzzahl_lesen(t), t.parse::<i64>().ok(), "{t:?}");
    }
}

#[test]
fn trimmen_wie_std() {
    for t in ["  ok \n", "ok", "", "   ", "\u{a0}x\u{3000}", " a b "] {
        assert_eq!(trimmen(t), t.trim(), "{t:?}");
    }
}

#[test]
fn teiltexte() {
    assert!(enthaelt("{\"status\":\"ok\"}", "\"ok\""));
    assert!(!enthaelt("okay", "\"ok\""));
    assert!(enthaelt("abc", ""));
    assert!(gleich("ab", "ab"));
    assert!(!gleich("ab", "a"));
}

#[test]
fn zeichen_werden_angehaengt() {
    // kanaltext_bauen haengt "<" zeichenweise an
    assert_eq!(kanaltext_bauen("ß", "x"), "<ß> x");
    assert_eq!(dezimal(90), "90");
}
