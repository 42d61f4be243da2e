use bruecke::dienst::{Chat, Nachricht};
use bruecke::hintergrund::{
    chatliste_aus_chats, chatliste_aus_dialogen, chatliste_schritt, dialog_befehl, dialogargumente, eigene_kennung_aus,
    ChatlistenSchritt,
    nach_zeit_ordnen, nummer_aus_status, sendeargumente, socket_nachricht_bilden, weg, HttpStand,
    NeueNachricht, Weg,
};
use bruecke::karte::Karte;
use bruecke::wert::Wert;

fn karte(paare: &[(&str, &str)]) -> Karte<String, String> {
    let mut k = Karte::neu();
    for (a, b) in paare {
        k.setzen(a.to_string(), b.to_string());
    }
    k
}

fn chat(jid: &str, name: &str, gruppe: bool, zeit: u64) -> Chat {
    Chat {
        jid: jid.to_string(),
        name: name.to_string(),
        is_group: gruppe,
        last_time: zeit,
        ..Default::default()
    }
}

fn nachricht(id: &str, sender: &str, text: &str, zeit: u64) -> Nachricht {
    Nachricht {
        id: id.to_string(),
        sender: sender.to_string(),
        text: text.to_string(),
        timestamp: zeit,
        ..Default::default()
    }
}

fn neu(chat: &str, zeit: u64) -> NeueNachricht {
    NeueNachricht {
        chat: chat.to_string(),
        chat_name: String::new(),
        absender: String::new(),
        text: String::new(),
        zeit,
    }
}

#[test]
fn socket_absender_nur_in_gruppen() {
    let namen = karte(&[("5", "Eva aus der Liste")]);
    let einzel = karte(&[("chat", "5"), ("sender", "5"), ("text", "hi"), ("zeit", "1700000000")]);
    let n = socket_nachricht_bilden(&einzel, &namen);
    assert_eq!(n.absender, "");
    assert_eq!(n.chat, "5");
    assert_eq!(n.text, "hi");
    assert_eq!(n.zeit, 1700000000);
    let gruppe = karte(&[("chat", "-100"), ("sender", "5"), ("sender_name", ""), ("zeit", "1700000000123")]);
    let n = socket_nachricht_bilden(&gruppe, &namen);
    assert_eq!(n.absender, "Eva aus der Liste");
    assert_eq!(n.zeit, 1700000000);
    let benannt = karte(&[("chat", "-100"), ("sender", "6"), ("sender_name", "Otto"), ("zeit", "x")]);
    let n = socket_nachricht_bilden(&benannt, &namen);
    assert_eq!(n.absender, "Otto");
    assert_eq!(n.zeit, 0);
    let unbekannt = karte(&[("chat", "-100"), ("sender", "6")]);
    assert_eq!(socket_nachricht_bilden(&unbekannt, &namen).absender, "6");
}

#[test]
fn erstlauf_setzt_nur_marken() {
    let mut h = HttpStand::neu();
    assert_eq!(h.folge(), -1);
    assert!(h.ereignis_nehmen(5));
    assert!(!h.ereignis_nehmen(5));
    assert_eq!(h.folge(), 5);
    let chats = vec![chat("a", "Anna", false, 100), chat("g", "", true, 200)];
    assert!(h.einrichten(&chats));
    assert!(!h.einrichten(&chats));
    assert!(!h.zu_holen(&chats[0]));
    assert!(h.zu_holen(&chat("a", "Anna", false, 101)));
    assert!(h.zu_holen(&chat("neu", "", false, 1)));
    assert!(!h.zu_holen(&chat("neu", "", false, 0)));
}

#[test]
fn verlauf_liefert_nur_neues_einmal() {
    let mut h = HttpStand::neu();
    let alt = vec![chat("g", "", true, 100)];
    h.einrichten(&alt);
    let c = chat("g", "", true, 300);
    let mut eigene = nachricht("e", "ich", "von mir", 250);
    eigene.from_me = true;
    let mut bild = nachricht("", "5", "", 260);
    bild.media_type = "image".to_string();
    let mut leer = nachricht("l", "5", "", 270);
    leer.media_type = String::new();
    let verlauf = vec![
        nachricht("1", "5", "alt", 100),
        nachricht("2", "5", "neu", 200),
        eigene,
        bild,
        leer,
        nachricht("3", "", "ohne Absender", 280),
    ];
    let namen = karte(&[("5", "Eva")]);
    let aus = h.verlauf_auswerten(&c, &verlauf, &namen);
    assert_eq!(aus.len(), 3);
    assert_eq!(aus[0].text, "neu");
    assert_eq!(aus[0].absender, "Eva");
    assert_eq!(aus[0].chat_name, "g");
    assert_eq!(aus[1].text, "[image]");
    assert_eq!(aus[2].absender, "");
    assert!(!h.zu_holen(&c));
    // dieselben Nachrichten kommen nicht noch einmal
    let c2 = chat("g", "Gruppe", true, 400);
    let aus = h.verlauf_auswerten(&c2, &verlauf, &namen);
    assert!(aus.is_empty());
}

#[test]
fn nur_die_letzten_vierzig() {
    let mut h = HttpStand::neu();
    h.einrichten(&vec![]);
    let c = chat("a", "Anna", false, 1000);
    let verlauf: Vec<Nachricht> =
        (1..=50).map(|i| nachricht(&format!("m{i}"), "a", &format!("t{i}"), i)).collect();
    let aus = h.verlauf_auswerten(&c, &verlauf, &Karte::neu());
    assert_eq!(aus.len(), 40);
    assert_eq!(aus[0].text, "t11");
    assert_eq!(aus[0].absender, "");
    assert_eq!(aus[39].zeit, 50);
}

#[test]
fn kennung_ohne_id_aus_chat_und_zeit() {
    let mut h = HttpStand::neu();
    h.einrichten(&vec![]);
    let c = chat("a", "", false, 10);
    let verlauf = vec![nachricht("", "a", "x", 5), nachricht("", "a", "y", 5)];
    let aus = h.verlauf_auswerten(&c, &verlauf, &Karte::neu());
    // beide haben dieselbe Kennung "a:5": die zweite gilt als gesehen
    assert_eq!(aus.len(), 1);
    assert_eq!(aus[0].text, "x");
}

#[test]
fn stabil_nach_zeit() {
    let mut v = vec![neu("c", 3), neu("a", 1), neu("b", 3), neu("d", 2), neu("e", 1)];
    v = nach_zeit_ordnen(v);
    let reihe: Vec<&str> = v.iter().map(|n| n.chat.as_str()).collect();
    assert_eq!(reihe, vec!["a", "e", "d", "c", "b"]);
    let mut h = HttpStand::neu();
    let r = h.abschliessen(vec![neu("x", 2), neu("y", 1)]);
    assert_eq!(r[0].chat, "y");
}

#[test]
fn gesehene_werden_nach_4000_vergessen() {
    let mut h = HttpStand::neu();
    h.einrichten(&vec![]);
    for block in 0..101u64 {
        let verlauf: Vec<Nachricht> = (0..40u64)
            .map(|i| nachricht(&format!("m{}", block * 40 + i), "a", "t", 1 + block * 40 + i))
            .collect();
        let c = chat(&format!("c{block}"), "", false, 99_999);
        let aus = h.verlauf_auswerten(&c, &verlauf, &Karte::neu());
        assert_eq!(aus.len(), 40);
    }
    let verlauf = vec![nachricht("m0", "a", "t", 1)];
    // vor dem Abschluss gilt m0 als gesehen
    assert!(h.verlauf_auswerten(&chat("x", "", false, 5), &verlauf, &Karte::neu()).is_empty());
    // 4040 gesehen: beim Abschluss geleert, danach kommt dieselbe Nachricht wieder
    let _ = h.abschliessen(vec![]);
    let aus = h.verlauf_auswerten(&chat("y", "", false, 5), &verlauf, &Karte::neu());
    assert_eq!(aus.len(), 1);
}

#[test]
fn chatlisten() {
    let l = chatliste_aus_chats(&vec![chat("a", "Anna", false, 0), chat("b", "", false, 0)]);
    assert_eq!(l.hole(&"a".to_string()).map(|s| s.as_str()), Some("Anna"));
    assert_eq!(l.hole(&"b".to_string()).map(|s| s.as_str()), Some("b"));
    let d = chatliste_aus_dialogen(&vec![
        ("1".to_string(), String::new()),
        ("2".to_string(), "Zwei".to_string()),
    ]);
    assert_eq!(d.hole(&"1".to_string()).map(|s| s.as_str()), Some("1"));
    assert_eq!(d.hole(&"2".to_string()).map(|s| s.as_str()), Some("Zwei"));
}

#[test]
fn eigene_kennung_und_nummer() {
    let v = Wert::Objekt(vec![("user_id".to_string(), Wert::Zahl("77".to_string()))]);
    assert_eq!(eigene_kennung_aus(&v), "77");
    assert_eq!(eigene_kennung_aus(&Wert::Null), "");
    let s = Wert::Objekt(vec![("phone".to_string(), Wert::Text("4917".to_string()))]);
    assert_eq!(nummer_aus_status(&s), Some("4917".to_string()));
    let z = Wert::Objekt(vec![("phone".to_string(), Wert::Zahl("4917".to_string()))]);
    assert_eq!(nummer_aus_status(&z), None);
}

#[test]
fn sendeargumente_je_daemon() {
    let m = sendeargumente("matrix", "!r:x", "Hallo");
    assert!(matches!(m.feld("room_id"), Some(Wert::Text(s)) if s == "!r:x"));
    assert!(matches!(m.feld("body"), Some(Wert::Text(s)) if s == "Hallo"));
    let t = sendeargumente("telegram", "-1001", "Hallo");
    assert!(matches!(t.feld("chat_id"), Some(Wert::Zahl(s)) if s == "-1001"));
    assert!(matches!(t.feld("text"), Some(Wert::Text(s)) if s == "Hallo"));
    let n = sendeargumente("telegram", "@name", "x");
    assert!(matches!(n.feld("chat_id"), Some(Wert::Text(s)) if s == "@name"));
}

#[test]
fn wege() {
    assert!(matches!(weg("whatsapp"), Some(Weg::Http)));
    assert!(matches!(weg("signal"), Some(Weg::Http)));
    assert!(matches!(weg("telegram"), Some(Weg::Socket)));
    assert!(matches!(weg("matrix"), Some(Weg::Socket)));
    assert!(weg("icq").is_none());
    assert_eq!(dialog_befehl("matrix"), "get_rooms");
    assert_eq!(dialog_befehl("telegram"), "get_dialogs");
}

#[test]
fn leere_chatliste_wird_nicht_hingenommen() {
    assert!(matches!(chatliste_schritt(false), ChatlistenSchritt::Nehmen));
    // so oft sie auch leer kommt: es wird noch einmal gefragt
    for _ in 0..100 {
        assert!(matches!(chatliste_schritt(true), ChatlistenSchritt::Nochmal));
    }
}

#[test]
fn dialogargumente_begrenzen_auf_zweihundert() {
    let a = dialogargumente();
    assert!(matches!(a.feld("limit"), Some(Wert::Zahl(z)) if z == "200"));
    assert_eq!(bruecke::json::json_text(&a), Some("{\"limit\":200}".to_string()));
}
