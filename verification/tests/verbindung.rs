use bruecke::kennungen::Kennungen;
use bruecke::verbindung::{
    anforderbare_kanaele, auftrag_fuer_anwesenheit, eigener_name_bauen, kanal_eigenschaften, schnittstellen, statusarten, Ablehnung,
    Auftrag, Eigenschaft, Zustand,
};
use bruecke::{GRIFF_KONTAKT, IF_TEXT, STATUS_GETRENNT, STATUS_VERBUNDEN};

fn zustand() -> Zustand {
    Zustand::neu("whatsapp", Kennungen::leer(), 1_700_001_234)
}

#[test]
fn neue_verbindung() {
    let z = zustand();
    assert_eq!(z.protokoll(), "whatsapp");
    assert_eq!(z.pfad(), "/org/freedesktop/Telepathy/Connection/bruecke/whatsapp/whatsapp");
    assert_eq!(z.status(), STATUS_GETRENNT);
    assert_eq!(z.selbst(), 0);
    assert!(z.kanaele_liste().is_empty());
}

#[test]
fn kanal_erbitten_und_anlegen_geben_denselben_pfad() {
    let mut z = zustand();
    let (gab_es, pfad, griff) = match z.kanal_erbitten(IF_TEXT, GRIFF_KONTAKT, 0, "4917") {
        Ok(x) => x,
        Err(_) => panic!("abgelehnt"),
    };
    assert!(!gab_es);
    assert_eq!(
        pfad,
        "/org/freedesktop/Telepathy/Connection/bruecke/whatsapp/whatsapp/TextChannel1235"
    );
    // noch einmal erbeten: derselbe vorgemerkte Pfad
    let (gab_es2, pfad2, griff2) = match z.kanal_erbitten("", GRIFF_KONTAKT, griff, "") {
        Ok(x) => x,
        Err(_) => panic!("abgelehnt"),
    };
    assert!(!gab_es2);
    assert_eq!(pfad2, pfad);
    assert_eq!(griff2, griff);
    // die Hauptschleife legt ihn unter genau diesem Pfad an
    let (angelegt, neu) = z.kanal_sichern(griff);
    assert!(neu);
    assert_eq!(angelegt, pfad);
    assert_eq!(z.kanal_sichern(griff), (pfad.clone(), false));
    // jetzt gibt es ihn
    match z.kanal_erbitten(IF_TEXT, GRIFF_KONTAKT, griff, "") {
        Ok((gab_es, p, _)) => {
            assert!(gab_es);
            assert_eq!(p, pfad);
        }
        Err(_) => panic!("abgelehnt"),
    }
    assert_eq!(z.kanaele_liste(), vec![(griff, pfad)]);
    // ein Kanal ohne Vormerkung bekommt die naechste Nummer
    let g2 = match z.kanal_erbitten(IF_TEXT, GRIFF_KONTAKT, 0, "4915") {
        Ok((_, p, g)) => {
            assert!(p.ends_with("/TextChannel1236"));
            g
        }
        Err(_) => panic!("abgelehnt"),
    };
    let mut w = zustand();
    let g = w.nachricht_zuordnen("x", "");
    assert_eq!(w.kanal_sichern(g).0, "/org/freedesktop/Telepathy/Connection/bruecke/whatsapp/whatsapp/TextChannel1235");
    let _ = g2;
}

fn text_von(a: Ablehnung) -> (bool, String) {
    match a {
        Ablehnung::NichtUnterstuetzt(s) => (true, s),
        Ablehnung::UngueltigeArgumente(s) => (false, s),
        Ablehnung::Fehlgeschlagen(s) => panic!("fehlgeschlagen: {s}"),
    }
}

#[test]
fn ungueltiger_kanalpfad_schlaegt_fehl() {
    // ein Protokollname mit "-" ergibt keinen gueltigen Objektpfad
    let mut z = Zustand::neu("a-b", Kennungen::leer(), 7);
    match z.kanal_erbitten(IF_TEXT, GRIFF_KONTAKT, 0, "4917") {
        Err(Ablehnung::Fehlgeschlagen(t)) => assert_eq!(t, "Invalid object path"),
        _ => panic!("erwartet: Fehlgeschlagen"),
    }
    // ein Kanal, dessen Pfad nicht gilt, erscheint nicht in der Liste
    let g = z.nachricht_zuordnen("x", "");
    let (p, neu) = z.kanal_sichern(g);
    assert!(neu);
    assert!(p.contains("a-b"));
    assert!(z.kanaele_liste().is_empty());
}

#[test]
fn kanal_ablehnungen() {
    let mut z = zustand();
    let e = z.kanal_erbitten("org.freedesktop.Telepathy.Channel.Type.ContactList", 3, 0, "subscribe");
    assert_eq!(
        text_von(e.err().unwrap()),
        (true, "nur Textkanaele, nicht org.freedesktop.Telepathy.Channel.Type.ContactList".to_string())
    );
    let e = z.kanal_erbitten(IF_TEXT, 3, 0, "subscribe");
    assert_eq!(text_von(e.err().unwrap()), (true, "nur Kontaktgriffe, nicht Art 3".to_string()));
    let e = z.kanal_erbitten(IF_TEXT, GRIFF_KONTAKT, 77, "");
    assert_eq!(text_von(e.err().unwrap()), (false, "unbekannter Griff 77".to_string()));
    let e = z.kanal_erbitten(IF_TEXT, GRIFF_KONTAKT, 0, "");
    assert_eq!(text_von(e.err().unwrap()), (false, "weder Griff noch Kennung".to_string()));
    // nichts davon hat einen Griff angelegt
    assert_eq!(z.kennungen().kennung(1), None);
}

#[test]
fn griffe_zeigen_die_kennung() {
    let mut z = zustand();
    let g = z.nachricht_zuordnen("4917", "Fabian Mistelberger");
    assert_eq!(z.griffe_zeigen(&vec![g, 99]), vec!["4917".to_string(), String::new()]);
    assert_eq!(z.namen_zu(&vec![g]), vec!["Fabian Mistelberger".to_string()]);
    assert_eq!(z.kontaktangabe(g), ("4917".to_string(), "Fabian Mistelberger".to_string()));
}

#[test]
fn griffe_erbitten_nur_fuer_kontakte() {
    let mut z = zustand();
    let e = z.griffe_erbitten(3, &vec!["stored".to_string()]);
    assert_eq!(text_von(e.err().unwrap()), (true, "nur Kontaktgriffe, nicht Art 3".to_string()));
    let g = match z.griffe_erbitten(GRIFF_KONTAKT, &vec!["a".to_string(), "b".to_string(), "a".to_string()]) {
        Ok(g) => g,
        Err(_) => panic!("abgelehnt"),
    };
    assert_eq!(g, vec![1, 2, 1]);
}

#[test]
fn eigener_griff_und_chatliste() {
    let mut z = zustand();
    let s = z.eigener_griff("");
    assert_eq!(z.selbst(), s);
    assert_eq!(z.kennungen().kennung(s), Some("selbst-whatsapp"));
    let t = z.eigener_griff("4917");
    assert_ne!(s, t);
    assert_eq!(z.kennungen().name(t), "4917");
    z.namen_uebernehmen(&vec![("a".to_string(), "Anna".to_string()), ("b".to_string(), "Bert".to_string())]);
    let ga = z.nachricht_zuordnen("a", "");
    assert_eq!(z.kennungen().name(ga), "Anna");
    assert_eq!(z.chats().len(), 2);
}

#[test]
fn anwesenheit_folgt_dem_status() {
    let mut z = zustand();
    assert_eq!(z.anwesenheit(), (1, "offline".to_string(), String::new()));
    z.status_setzen(STATUS_VERBUNDEN);
    assert_eq!(z.anwesenheit(), (2, "available".to_string(), String::new()));
    assert!(matches!(auftrag_fuer_anwesenheit("offline"), Auftrag::Trennen));
    assert!(matches!(auftrag_fuer_anwesenheit("available"), Auftrag::Verbinden));
    assert_eq!(statusarten()[1].0, "available");
}

#[test]
fn kanaleigenschaften() {
    let mut z = zustand();
    let g = z.nachricht_zuordnen("4917", "Fabian");
    let e = kanal_eigenschaften(&z, g, "");
    assert_eq!(e.len(), 8);
    assert_eq!(e[0].0, "org.freedesktop.Telepathy.Channel.ChannelType");
    assert!(matches!(&e[0].1, Eigenschaft::Text(t) if t == IF_TEXT));
    assert!(matches!(&e[2].1, Eigenschaft::Zahl(x) if *x == g));
    assert_eq!(e[3].0, "org.freedesktop.Telepathy.Channel.TargetID");
    assert!(matches!(&e[3].1, Eigenschaft::Text(t) if t == "Fabian"));
    assert!(matches!(&e[4].1, Eigenschaft::Wahrheit(false)));
    assert!(matches!(&e[7].1, Eigenschaft::Texte(l) if l.is_empty()));
    // das Schild fuehrt zum Griff zurueck
    let (g2, ueber_namen) = match z.kanal_erbitten(IF_TEXT, GRIFF_KONTAKT, 0, "Fabian") {
        Ok((_, _, g2)) => (g2, true),
        Err(_) => (0, false),
    };
    assert!(ueber_namen);
    assert_eq!(g2, g);
    assert_eq!(schnittstellen().len(), 4);
    assert_eq!(anforderbare_kanaele().1[1], "org.freedesktop.Telepathy.Channel.TargetID");
}

#[test]
fn pruefen_vor_dem_erbitten() {
    let t = bruecke::kennungen::KennungenTeile {
        zu_griff: vec![("4917".to_string(), 5)],
        zu_kennung: vec![(5, "4917".to_string())],
        naechster: u32::MAX,
        namen: vec![],
        sonstige: vec![],
        sonstige_namen: vec![],
    };
    let z = Zustand::neu("whatsapp", Kennungen::aus_teilen(&t), 42);
    // ein neuer Griff waere noetig: nicht moeglich
    assert!(!z.erbitten_moeglich_pruefen(IF_TEXT, GRIFF_KONTAKT, 0, "neu"));
    // vorhandene Kennung, vorhandener Griff: moeglich
    assert!(z.erbitten_moeglich_pruefen(IF_TEXT, GRIFF_KONTAKT, 0, "4917"));
    assert!(z.erbitten_moeglich_pruefen("", GRIFF_KONTAKT, 5, ""));
    // abgelehnte Anfragen brauchen nichts
    assert!(z.erbitten_moeglich_pruefen("anders", GRIFF_KONTAKT, 0, "neu"));
    assert!(z.erbitten_moeglich_pruefen(IF_TEXT, 2, 0, "neu"));
    assert!(z.pfad_moeglich_pruefen(5));
}

#[test]
fn eigener_name() {
    assert_eq!(eigener_name_bauen("signal", ""), "selbst-signal");
    assert_eq!(eigener_name_bauen("signal", "+4917"), "+4917");
}
