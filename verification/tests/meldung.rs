use bruecke::meldung::Meldungen;

#[test]
fn eine_meldung_je_chat() {
    let mut m = Meldungen::neu(1000);
    assert_eq!(m.benutzer(), 1000);
    let p = m.planen("4917", "", "", "Hallo", "/pfad/TextChannel3");
    assert_eq!(p.titel, "4917");
    assert_eq!(p.koerper, "Hallo");
    assert_eq!(
        p.aktion,
        "org.freedesktop.Telepathy.ConnectionManager.bruecke /pfad/TextChannel3 org.smatkovi.Bruecke.Meldung Oeffnen"
    );
    assert_eq!(p.kennzeichen, "bruecke-4917");
    assert_eq!(p.ungelesen, 1);
    assert_eq!(p.bestehend, None);
    m.hinzugefuegt("4917", Some(42));
    let p = m.planen("4917", "Familie", "Eva", "Hallo", "/x");
    assert_eq!(p.titel, "Familie");
    assert_eq!(p.koerper, "Eva: Hallo");
    assert_eq!(p.bestehend, Some(42));
    assert_eq!(p.ungelesen, 2);
    m.aktualisiert("4917", true, 42, 2);
    assert_eq!(m.planen("4917", "", "", "x", "/x").ungelesen, 3);
    // die alte Meldung gibt es nicht mehr: dann eine neue
    m.aktualisiert("4917", false, 42, 3);
    assert_eq!(m.planen("4917", "", "", "x", "/x").bestehend, None);
    m.hinzugefuegt("4917", None);
    assert_eq!(m.schliessen("4917"), None);
    m.hinzugefuegt("4917", Some(7));
    assert_eq!(m.schliessen("4917"), Some(7));
    assert_eq!(m.schliessen("4917"), None);
}
