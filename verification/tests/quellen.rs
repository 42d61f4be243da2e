use bruecke::text::doc_zeilen_mit_doppelbindestrich;

/// Kein Doppelbindestrich in einem Doc-Kommentar.
///
/// zbus schreibt Doc-Kommentare als XML-Kommentare in die
/// Introspektionsdaten, und dort ist ein doppelter Bindestrich verboten.
/// Ein einziger Gedankenstrich in einem Doc-Kommentar macht das XML
/// unlesbar; commhistory-daemon scheitert dann an becomeReady.
#[test]
fn doc_kommentare_ohne_doppelbindestrich() {
    let strich = ["-", "-"].concat();
    let gut = format!(
        "//! Modul {strich} mit Strich\n/// Eine Methode.\n// Kommentar {strich} erlaubt\nfn f() {{}}\n"
    );
    assert!(doc_zeilen_mit_doppelbindestrich(&gut).is_empty());
    let schlimm = format!(
        "/// Trennen beendet nichts.\n    /// Der Draht {strich} bleibt.\r\nfn g() {{}}\n\t///{strich}"
    );
    assert_eq!(doc_zeilen_mit_doppelbindestrich(&schlimm), vec![2, 4]);
    assert!(doc_zeilen_mit_doppelbindestrich("").is_empty());
}
