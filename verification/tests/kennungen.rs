use bruecke::kennungen::{Kennungen, KennungenTeile};

#[test]
fn leer_beginnt_bei_eins() {
    let mut k = Kennungen::leer();
    assert_eq!(k.griff("4917612345678@s.whatsapp.net"), 1);
    assert_eq!(k.griff("4915112345678@s.whatsapp.net"), 2);
}

#[test]
fn griff_ist_bestaendig_und_fuehrt_zurueck() {
    let mut k = Kennungen::leer();
    let g = k.griff("abc");
    assert_eq!(k.griff("abc"), g);
    assert_eq!(k.kennung(g), Some("abc"));
    assert_eq!(k.kennung(g + 1), None);
}

#[test]
fn verschiedene_kennungen_bekommen_verschiedene_griffe() {
    let mut k = Kennungen::leer();
    let a = k.griff("a");
    let b = k.griff("b");
    assert_ne!(a, b);
    assert_eq!(k.kennung(a), Some("a"));
    assert_eq!(k.kennung(b), Some("b"));
}

#[test]
fn name_ist_nur_beschriftung() {
    let mut k = Kennungen::leer();
    let g = k.griff("4917612345678");
    assert_eq!(k.name(g), "4917612345678");
    k.name_setzen(g, "Fabian Mistelberger");
    assert_eq!(k.name(g), "Fabian Mistelberger");
    // ein leerer Name aendert nichts
    k.name_setzen(g, "");
    assert_eq!(k.name(g), "Fabian Mistelberger");
    // wer seinen Namen aendert, behaelt seinen Griff
    k.name_setzen(g, "Fabian M.");
    assert_eq!(k.griff("4917612345678"), g);
    assert_eq!(k.kennung(g), Some("4917612345678"));
    // ein unbekannter Griff hat keinen Namen
    assert_eq!(k.name(99), "");
}

#[test]
fn aufloesen_findet_kennung_dann_namen() {
    let mut k = Kennungen::leer();
    let g = k.griff("4917612345678");
    k.name_setzen(g, "Fabian Mistelberger");
    assert_eq!(k.aufloesen("4917612345678"), (g, false));
    assert_eq!(k.aufloesen("Fabian Mistelberger"), (g, true));
    // kein neuer Griff auf den Namen
    assert_eq!(k.kennung(g + 1), None);
    // Unbekanntes bekommt einen neuen Griff
    let n = k.aufloesen("neu");
    assert_eq!(n, (g + 1, false));
    assert_eq!(k.kennung(g + 1), Some("neu"));
}

#[test]
fn mehrdeutiger_name_wird_nicht_benutzt() {
    let mut k = Kennungen::leer();
    let a = k.griff("a");
    let b = k.griff("b");
    k.name_setzen(a, "Anna");
    k.name_setzen(b, "Anna");
    let (g, ueber_namen) = k.aufloesen("Anna");
    assert!(!ueber_namen);
    assert_ne!(g, a);
    assert_ne!(g, b);
    assert_eq!(k.kennung(g), Some("Anna"));
}

#[test]
fn sonstige_griffe_sind_keine_kontakte() {
    let mut k = Kennungen::leer();
    let kontakt = k.griff("a");
    let liste = k.sonstiger_griff(3, "subscribe");
    assert_ne!(liste, kontakt);
    assert_eq!(k.kennung(liste), None);
    assert_eq!(k.sonstiger_name(liste), Some("subscribe"));
    assert_eq!(k.sonstiger_griff(3, "subscribe"), liste);
    assert_ne!(k.sonstiger_griff(3, "publish"), liste);
    assert_ne!(k.sonstiger_griff(4, "subscribe"), liste);
    assert_eq!(k.sonstiger_name(kontakt), None);
    // derselbe Zaehler: der naechste Kontakt bekommt eine neue Nummer
    let b = k.griff("b");
    assert!(b > liste);
}

#[test]
fn sichern_und_laden_behalten_griffe() {
    let mut k = Kennungen::leer();
    let a = k.griff("a");
    let b = k.griff("b");
    k.name_setzen(a, "Anna");
    let s = k.sonstiger_griff(3, "stored");
    let t = k.teile();
    let mut l = Kennungen::aus_teilen(&t);
    assert_eq!(l.griff("a"), a);
    assert_eq!(l.griff("b"), b);
    assert_eq!(l.name(a), "Anna");
    assert_eq!(l.sonstiger_griff(3, "stored"), s);
    assert_eq!(l.griff("c"), k.griff("c"));
}

#[test]
fn laden_hebt_naechsten_griff_auf_eins() {
    let t = KennungenTeile {
        zu_griff: vec![],
        zu_kennung: vec![],
        naechster: 0,
        namen: vec![],
        sonstige: vec![],
        sonstige_namen: vec![],
    };
    let mut k = Kennungen::aus_teilen(&t);
    assert_eq!(k.griff("x"), 1);
}

#[test]
fn laden_spaetere_paare_gewinnen() {
    let t = KennungenTeile {
        zu_griff: vec![("a".to_string(), 7), ("a".to_string(), 9)],
        zu_kennung: vec![(9, "a".to_string())],
        naechster: 10,
        namen: vec![],
        sonstige: vec![],
        sonstige_namen: vec![],
    };
    let mut k = Kennungen::aus_teilen(&t);
    assert_eq!(k.griff("a"), 9);
    assert_eq!(k.griff("b"), 10);
    assert!(!k.erschoepft());
}

#[test]
fn griff_bleibt_ueber_viele_aufrufe() {
    let mut k = Kennungen::leer();
    let g = k.griff("4917612345678");
    k.name_setzen(g, "Fabian");
    let s = k.sonstiger_griff(2, "Gruppe");
    k.name_setzen(g, "Fabian M.");
    assert_eq!(k.aufloesen("jemand"), (g + 2, false));
    let _ = k.griff("anderer");
    assert_eq!(k.griff("4917612345678"), g);
    assert_eq!(k.kennung(g), Some("4917612345678"));
    assert_eq!(k.kennung(s), None);
}

#[test]
fn griff_null_hat_keine_kennung() {
    let mut k = Kennungen::leer();
    let _ = k.griff("a");
    let _ = k.sonstiger_griff(3, "b");
    assert_eq!(k.kennung(0), None);
    assert_eq!(k.sonstiger_name(0), None);
}

#[test]
fn sonstige_griffe_nach_art_und_name_verschieden() {
    let mut k = Kennungen::leer();
    let a = k.sonstiger_griff(2, "x");
    let b = k.sonstiger_griff(3, "x");
    let c = k.sonstiger_griff(2, "y");
    assert_ne!(a, b);
    assert_ne!(a, c);
    assert_ne!(b, c);
    assert_eq!(k.sonstiger_griff(2, "x"), a);
    assert_eq!(k.sonstiger_name(b), Some("x"));
    // ein neuer Griff nimmt keinen alten
    let d = k.griff("kontakt");
    assert!(d != a && d != b && d != c);
}

#[test]
fn sonstiger_griff_behaelt_seinen_namen() {
    let mut k = Kennungen::leer();
    let a = k.sonstiger_griff(2, "Gruppe");
    let _ = k.griff("x");
    k.name_setzen(a, "anders");
    let _ = k.aufloesen("y");
    assert_eq!(k.sonstiger_griff(2, "Gruppe"), a);
    assert_eq!(k.sonstiger_name(a), Some("Gruppe"));
    assert_eq!(k.kennung(a), None);
}

#[test]
fn gefunden_vergibt_nichts() {
    let mut k = Kennungen::leer();
    let g = k.griff("4917");
    k.name_setzen(g, "Anna");
    let h = k.griff("4915");
    k.name_setzen(h, "Bert");
    let i = k.griff("4916");
    k.name_setzen(i, "Bert");
    assert_eq!(k.gefunden("4917"), Some((g, false)));
    assert_eq!(k.gefunden("Anna"), Some((g, true)));
    assert_eq!(k.gefunden("Bert"), None);
    assert_eq!(k.gefunden("neu"), None);
    assert_eq!(k.naechster(), 4);
    assert_eq!(k.kennung(4), None);
}
