use bruecke::karte::Karte;
use bruecke::socketdienst::{
    beschreibung, dialoge_lesen, frage, ist_ereignis, nachricht_aus_ereignis, wert_als_text,
};
use bruecke::wert::Wert;

fn text(s: &str) -> Wert {
    Wert::Text(s.to_string())
}

fn zahl(s: &str) -> Wert {
    Wert::Zahl(s.to_string())
}

fn objekt(felder: Vec<(&str, Wert)>) -> Wert {
    Wert::Objekt(felder.into_iter().map(|(k, v)| (k.to_string(), v)).collect())
}

fn hole(k: &Karte<String, String>, s: &str) -> Option<String> {
    k.hole(&s.to_string()).cloned()
}

#[test]
fn daemons() {
    let t = beschreibung("telegram").unwrap();
    assert_eq!(t.skript, "/opt/pytelegram/telegram_daemon.py");
    assert_eq!(t.socket, ".pytelegram/daemon.sock");
    let m = beschreibung("matrix").unwrap();
    assert_eq!(m.skript, "/opt/pymatrix/matrix_daemon.py");
    assert_eq!(m.socket, ".pymatrix/daemon.sock");
    assert!(beschreibung("whatsapp").is_none());
}

#[test]
fn werte_als_text() {
    assert_eq!(wert_als_text(&text("abc")), "abc");
    assert_eq!(wert_als_text(&zahl("-100123")), "-100123");
    assert_eq!(wert_als_text(&Wert::Null), "");
    assert_eq!(wert_als_text(&Wert::Wahrheit(true)), "");
}

#[test]
fn dialoge_telegram_und_matrix() {
    let t = objekt(vec![(
        "dialogs",
        Wert::Liste(vec![
            objekt(vec![("id", zahl("42")), ("title", text("Familie"))]),
            objekt(vec![("title", text("ohne Kennung"))]),
            objekt(vec![("id", text("7")), ("first_name", text("Eva"))]),
            objekt(vec![("id", text("8")), ("title", zahl("1"))]),
        ]),
    )]);
    let d = dialoge_lesen("telegram", &t);
    assert_eq!(
        d,
        vec![
            ("42".to_string(), "Familie".to_string()),
            ("7".to_string(), "Eva".to_string()),
            ("8".to_string(), String::new()),
        ]
    );
    assert!(dialoge_lesen("matrix", &t).is_empty());
    let m = objekt(vec![(
        "rooms",
        Wert::Liste(vec![objekt(vec![("room_id", text("!r:x")), ("name", text("Raum"))])]),
    )]);
    assert_eq!(dialoge_lesen("matrix", &m), vec![("!r:x".to_string(), "Raum".to_string())]);
    assert!(dialoge_lesen("telegram", &Wert::Null).is_empty());
}

#[test]
fn ereignis_oder_antwort() {
    assert!(ist_ereignis(&objekt(vec![("event", text("new_message"))])));
    assert!(!ist_ereignis(&objekt(vec![("dialogs", Wert::Liste(vec![]))])));
}

#[test]
fn fragen_an_den_daemon() {
    let f = frage("get_me", Wert::Null);
    assert!(matches!(f.feld("cmd"), Some(Wert::Text(s)) if s == "get_me"));
    assert!(f.feld("args").is_none());
    let f = frage("get_dialogs", objekt(vec![("limit", zahl("200"))]));
    assert!(matches!(f.feld("args"), Some(Wert::Objekt(_))));
}

#[test]
fn telegram_nachricht() {
    let v = objekt(vec![
        ("event", text("new_message")),
        (
            "data",
            objekt(vec![
                ("chat_id", zahl("-1001")),
                ("sender_id", zahl("5")),
                ("sender_name", text("Eva")),
                ("chat_name", text("Familie")),
                ("text", text("Hallo")),
                ("date", zahl("1700000000")),
            ]),
        ),
    ]);
    let m = nachricht_aus_ereignis("telegram", &v).unwrap();
    assert_eq!(hole(&m, "chat").as_deref(), Some("-1001"));
    assert_eq!(hole(&m, "sender").as_deref(), Some("5"));
    assert_eq!(hole(&m, "sender_name").as_deref(), Some("Eva"));
    assert_eq!(hole(&m, "chat_name").as_deref(), Some("Familie"));
    assert_eq!(hole(&m, "text").as_deref(), Some("Hallo"));
    assert_eq!(hole(&m, "zeit").as_deref(), Some("1700000000"));
}

#[test]
fn telegram_medien_und_eigene() {
    let bild = objekt(vec![
        ("event", text("message_edited")),
        ("data", objekt(vec![("chat_id", zahl("1")), ("media_type", text("photo"))])),
    ]);
    let m = nachricht_aus_ereignis("telegram", &bild).unwrap();
    assert_eq!(hole(&m, "text").as_deref(), Some("[photo]"));
    assert_eq!(hole(&m, "sender").as_deref(), Some(""));
    assert_eq!(hole(&m, "zeit").as_deref(), Some(""));
    let eigene = objekt(vec![
        ("event", text("new_message")),
        ("data", objekt(vec![("chat_id", zahl("1")), ("out", Wert::Wahrheit(true)), ("text", text("x"))])),
    ]);
    assert!(nachricht_aus_ereignis("telegram", &eigene).is_none());
    let leer = objekt(vec![("event", text("new_message")), ("data", objekt(vec![("chat_id", zahl("1"))]))]);
    assert!(nachricht_aus_ereignis("telegram", &leer).is_none());
    let anderes = objekt(vec![("event", text("typing")), ("data", objekt(vec![]))]);
    assert!(nachricht_aus_ereignis("telegram", &anderes).is_none());
}

#[test]
fn matrix_nachricht() {
    let v = objekt(vec![
        ("event", text("room_event")),
        (
            "data",
            objekt(vec![
                ("type", text("m.room.message")),
                ("room_id", text("!r:x")),
                ("sender", text("@eva:x")),
                ("content", objekt(vec![("body", text("Hallo"))])),
                ("origin_server_ts", zahl("1700000000123")),
            ]),
        ),
    ]);
    let m = nachricht_aus_ereignis("matrix", &v).unwrap();
    assert_eq!(hole(&m, "chat").as_deref(), Some("!r:x"));
    assert_eq!(hole(&m, "sender").as_deref(), Some("@eva:x"));
    assert_eq!(hole(&m, "text").as_deref(), Some("Hallo"));
    assert_eq!(hole(&m, "zeit").as_deref(), Some("1700000000123"));
    assert_eq!(m.laenge(), 4);
    let kein_text = objekt(vec![
        ("event", text("room_event")),
        ("data", objekt(vec![("type", text("m.room.member"))])),
    ]);
    assert!(nachricht_aus_ereignis("matrix", &kein_text).is_none());
}
