use bruecke::kontenwache::{
    eingreifen, konto_betroffen, kontoname, nachsehen_wegen_netz, OFFLINE, VERFUEGBAR,
};

/// Ein abgeschaltetes Konto bleibt abgeschaltet.
#[test]
fn offline_ist_eine_entscheidung() {
    // gewuenscht offline: niemals anfassen, egal was gerade ist
    assert!(!eingreifen(OFFLINE, OFFLINE));
    assert!(!eingreifen(OFFLINE, VERFUEGBAR));
    // laeuft: nichts zu tun
    assert!(!eingreifen(VERFUEGBAR, VERFUEGBAR));
    // soll oben sein, ist unten: das ist der Ausfall
    assert!(eingreifen(VERFUEGBAR, OFFLINE));
    // unbekannte Werte fuehren zu nichts
    assert!(!eingreifen(0, 0));
    assert!(!eingreifen(3, OFFLINE));
}

#[test]
fn nur_eigene_konten_werden_angesehen() {
    assert!(konto_betroffen("/org/freedesktop/Telepathy/Account/bruecke/whatsapp/whatsapp0"));
    assert!(!konto_betroffen("/org/freedesktop/Telepathy/Account/pybridge/telegram/telegram0"));
    assert!(!konto_betroffen("/bruecke"));
}

#[test]
fn kontoname_ist_das_vorletzte_stueck() {
    assert_eq!(
        kontoname("/org/freedesktop/Telepathy/Account/bruecke/whatsapp/whatsapp0"),
        "whatsapp"
    );
    assert_eq!(kontoname("a/b"), "a");
    assert_eq!(kontoname("ohne"), "ohne");
    assert_eq!(kontoname("/x"), "");
}

#[test]
fn netzsignale_werden_entprellt() {
    assert!(nachsehen_wegen_netz(None, 5));
    assert!(!nachsehen_wegen_netz(Some(100_000), 105_000));
    assert!(!nachsehen_wegen_netz(Some(100_000), 109_999));
    assert!(nachsehen_wegen_netz(Some(100_000), 110_000));
}
