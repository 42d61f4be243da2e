use bruecke::lauf::{kanaltext_bauen, kontopfad_waehlen, schritt, status_nach_oeffnen, Schritt};
use bruecke::verbindung::Auftrag;
use bruecke::{STATUS_GETRENNT, STATUS_VERBUNDEN};
use bruecke::manager::{parameter, protokoll_bekannt, protokolle, verbindungsadresse, Verbindungen};

#[test]
fn protokolle_des_managers() {
    assert_eq!(protokolle(), vec!["whatsapp", "signal", "telegram", "matrix"]);
    assert!(protokoll_bekannt("telegram"));
    assert!(!protokoll_bekannt("icq"));
    assert_eq!(parameter("signal"), vec![("account".to_string(), 4, "s".to_string())]);
    assert!(parameter("icq").is_empty());
}

#[test]
fn dieselbe_verbindung_zweimal() {
    let mut v = Verbindungen::neu();
    let (a, neu) = v.anfordern("signal").unwrap();
    assert!(neu);
    assert_eq!(a.0, "org.freedesktop.Telepathy.Connection.bruecke.signal.signal");
    assert_eq!(a.1, "/org/freedesktop/Telepathy/Connection/bruecke/signal/signal");
    let (b, neu) = v.anfordern("signal").unwrap();
    assert!(!neu);
    assert_eq!(a, b);
    assert_eq!(v.anfordern("icq"), Err("kein solches Protokoll: icq".to_string()));
    assert_eq!(verbindungsadresse("matrix").0, "org.freedesktop.Telepathy.Connection.bruecke.matrix.matrix");
}

#[test]
fn kontopfad() {
    let konten = vec![
        "/org/freedesktop/Telepathy/Account/pybridge/whatsapp/whatsapp0".to_string(),
        "/org/freedesktop/Telepathy/Account/bruecke/whatsapp/whatsapp1".to_string(),
        "/org/freedesktop/Telepathy/Account/bruecke/whatsapp/whatsapp2".to_string(),
    ];
    assert_eq!(kontopfad_waehlen("whatsapp", &konten), konten[1]);
    assert_eq!(
        kontopfad_waehlen("signal", &konten),
        "/org/freedesktop/Telepathy/Account/bruecke/signal/signal0"
    );
}

#[test]
fn kanaltext() {
    assert_eq!(kanaltext_bauen("", "Hallo"), "Hallo");
    assert_eq!(kanaltext_bauen("Eva", "Hallo"), "<Eva> Hallo");
}

#[test]
fn auftraege_werden_zu_schritten() {
    assert!(matches!(schritt(false, Auftrag::Verbinden), Schritt::Oeffnen));
    assert!(matches!(schritt(true, Auftrag::Verbinden), Schritt::Melden(s) if s == STATUS_VERBUNDEN));
    assert!(matches!(schritt(true, Auftrag::Trennen), Schritt::Melden(s) if s == STATUS_GETRENNT));
    assert!(matches!(schritt(false, Auftrag::Trennen), Schritt::Melden(s) if s == STATUS_GETRENNT));
    let senden = || Auftrag::Senden { an: "4917".to_string(), text: "hallo".to_string() };
    assert!(matches!(schritt(false, senden()), Schritt::Nichts));
    match schritt(true, senden()) {
        Schritt::Senden { an, text } => {
            assert_eq!(an, "4917");
            assert_eq!(text, "hallo");
        }
        _ => panic!("erwartet: Senden"),
    }
    assert_eq!(status_nach_oeffnen(true), STATUS_VERBUNDEN);
    assert_eq!(status_nach_oeffnen(false), STATUS_GETRENNT);
}
