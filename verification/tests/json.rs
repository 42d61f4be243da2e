use bruecke::hintergrund::nummer_aus_statustext;
use bruecke::json::{ist_schreibbar, json_lesen, json_text};
use bruecke::socketdienst::{frage, zeile_einordnen};
use bruecke::wert::Wert;

#[test]
fn json_wird_gelesen() {
    let w = json_lesen("{\"a\": [1, true, null, \"x\"], \"b\": -2.5}").unwrap();
    assert_eq!(w.feld("b").and_then(|z| match z {
        Wert::Zahl(t) => Some(t.clone()),
        _ => None,
    }), Some("-2.5".to_string()));
    match w.feld("a") {
        Some(Wert::Liste(l)) => assert_eq!(l.len(), 4),
        _ => panic!("erwartet: Liste"),
    }
    assert!(json_lesen("{kaputt").is_none());
}

#[test]
fn zeilen_werden_eingeordnet() {
    let (v, ereignis) = zeile_einordnen("{\"event\": \"new_message\", \"data\": {}}").unwrap();
    assert!(ereignis);
    assert!(v.feld("data").is_some());
    let (_, ereignis) = zeile_einordnen("{\"dialogs\": []}").unwrap();
    assert!(!ereignis);
    assert!(zeile_einordnen("kein json").is_none());
}

#[test]
fn nummer_aus_dem_statustext() {
    assert_eq!(nummer_aus_statustext("{\"phone\": \"4917\"}"), Some("4917".to_string()));
    assert_eq!(nummer_aus_statustext("{\"phone\": 4917}"), None);
    assert_eq!(nummer_aus_statustext("<html>"), None);
}

#[test]
fn fragen_werden_geschrieben() {
    let args = Wert::Objekt(vec![("limit".to_string(), Wert::Zahl("200".to_string()))]);
    let t = json_text(&frage("get_dialogs", args)).unwrap();
    let zurueck: serde_json::Value = serde_json::from_str(&t).unwrap();
    assert_eq!(zurueck["cmd"], "get_dialogs");
    assert_eq!(zurueck["args"]["limit"], 200);
    assert_eq!(json_text(&frage("get_me", Wert::Null)).unwrap(), "{\"cmd\":\"get_me\"}");
}

#[test]
fn nicht_schreibbares_wird_nicht_geschrieben() {
    let doppelt = Wert::Objekt(vec![
        ("a".to_string(), Wert::Null),
        ("a".to_string(), Wert::Wahrheit(true)),
    ]);
    assert!(!ist_schreibbar(&doppelt));
    assert_eq!(json_text(&doppelt), None);
    let keine_zahl = Wert::Liste(vec![Wert::Zahl("zwei".to_string())]);
    assert_eq!(json_text(&keine_zahl), None);
    assert_eq!(json_text(&Wert::Liste(vec![Wert::Zahl("2".to_string())])), Some("[2]".to_string()));
}
