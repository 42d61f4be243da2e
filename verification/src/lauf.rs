//! Die Schleife einer Verbindung haelt alles zusammen; hier stehen ihre
//! Entscheidungen, die nicht am Zustand einer Verbindung haengen.
use vstd::prelude::*;

use crate::text::{enthaelt, enthaelt_teil, text_aus, zeichen_anhaengen};
use crate::verbindung::Auftrag;
use crate::{STATUS_GETRENNT, STATUS_VERBUNDEN};

verus! {

/// Wonach im Pfad eines Kontos gesucht wird: "/bruecke/<protokoll>/".
pub open spec fn kontosuche(protokoll: Seq<char>) -> Seq<char> {
    "/bruecke/"@ + protokoll + seq!['/']
}

/// Der Pfad eines Kontos, wenn die Kontoverwaltung keinen passenden nennt.
pub open spec fn kontopfad_vorgabe(protokoll: Seq<char>) -> Seq<char> {
    "/org/freedesktop/Telepathy/Account/bruecke/"@ + protokoll + seq!['/'] + protokoll + seq!['0']
}

/// Die erste Stelle in `konten`, die die Suche enthaelt.
pub open spec fn erstes_passendes(konten: Seq<Seq<char>>, suche: Seq<char>, i: int) -> bool {
    &&& 0 <= i < konten.len()
    &&& enthaelt_teil(konten[i], suche)
    &&& forall|j: int| 0 <= j < i ==> !enthaelt_teil(#[trigger] konten[j], suche)
}

/// Der Pfad unseres Kontos beim Kontoverwalter.
///
/// Er muss stimmen, sonst schreibt CommHistory den Verlauf unter ein
/// fremdes Konto: das erste gueltige Konto, dessen Pfad
/// "/bruecke/<protokoll>/" enthaelt; gibt es keins, der uebliche Pfad.
pub fn kontopfad_waehlen(protokoll: &str, konten: &Vec<String>) -> (r: String)
    ensures
        ({
            let ks = konten@.map_values(|k: String| k@);
            let suche = kontosuche(protokoll@);
            if exists|i: int| erstes_passendes(ks, suche, i) {
                exists|i: int| erstes_passendes(ks, suche, i) && r@ == ks[i]
            } else {
                r@ == kontopfad_vorgabe(protokoll@)
            }
        }),
{
    let ghost ks = konten@.map_values(|k: String| k@);
    let mut suche = text_aus("/bruecke/");
    suche.append(protokoll);
    zeichen_anhaengen(&mut suche, '/');
    assert(suche@ =~= kontosuche(protokoll@));
    let mut i: usize = 0;
    while i < konten.len()
        invariant
            i <= konten@.len(),
            ks == konten@.map_values(|k: String| k@),
            suche@ == kontosuche(protokoll@),
            forall|j: int| 0 <= j < i ==> !enthaelt_teil(#[trigger] ks[j], suche@),
        decreases konten@.len() - i,
    {
        if enthaelt(konten[i].as_str(), suche.as_str()) {
            assert(erstes_passendes(ks, suche@, i as int));
            return konten[i].clone();
        }
        i = i + 1;
    }
    assert forall|k: int| !erstes_passendes(ks, suche@, k) by {}
    let mut r = text_aus("/org/freedesktop/Telepathy/Account/bruecke/");
    r.append(protokoll);
    zeichen_anhaengen(&mut r, '/');
    r.append(protokoll);
    zeichen_anhaengen(&mut r, '0');
    assert(r@ =~= kontopfad_vorgabe(protokoll@));
    r
}

/// Der Text, der in den Kanal geht: in einer Gruppe mit dem Absender in
/// spitzen Klammern davor, sonst die Nachricht selbst.
pub open spec fn kanaltext(absender: Seq<char>, text: Seq<char>) -> Seq<char> {
    if absender.len() == 0 {
        text
    } else {
        seq!['<'] + absender + "> "@ + text
    }
}

/// Baut den Text, der in den Kanal geht.
pub fn kanaltext_bauen(absender: &str, text: &str) -> (r: String)
    ensures
        r@ == kanaltext(absender@, text@),
{
    if absender.is_empty() {
        text_aus(text)
    } else {
        let mut r = String::new();
        zeichen_anhaengen(&mut r, '<');
        r.append(absender);
        r.append("> ");
        r.append(text);
        assert(r@ =~= kanaltext(absender@, text@));
        r
    }
}

/// Was die Schleife auf einen Auftrag hin tut.
pub enum Schritt {
    /// Den Status melden, sonst nichts.
    Melden(u32),
    /// "Verbindet" melden und den Hintergrund oeffnen.
    Oeffnen,
    /// Ueber den Hintergrund senden.
    Senden { an: String, text: String },
    /// Nichts.
    Nichts,
}

/// Der Schritt zu einem Auftrag, je nachdem, ob der Hintergrund schon
/// offen ist.
///
/// Verbinden bei offenem Hintergrund meldet den Zustand noch einmal:
/// Mission Control fragt mehrfach, und wer dann schweigt, gilt als
/// offline. Trennen meldet nur "getrennt", der Draht bleibt. Gesendet wird
/// nur ueber einen offenen Hintergrund.
pub fn schritt(offen: bool, auftrag: Auftrag) -> (r: Schritt)
    ensures
        match auftrag {
            Auftrag::Verbinden => if offen {
                r == Schritt::Melden(STATUS_VERBUNDEN)
            } else {
                r is Oeffnen
            },
            Auftrag::Trennen => r == Schritt::Melden(STATUS_GETRENNT),
            Auftrag::Senden { an, text } => if offen {
                r == (Schritt::Senden { an, text })
            } else {
                r is Nichts
            },
        },
{
    match auftrag {
        Auftrag::Verbinden => if offen {
            Schritt::Melden(STATUS_VERBUNDEN)
        } else {
            Schritt::Oeffnen
        },
        Auftrag::Trennen => Schritt::Melden(STATUS_GETRENNT),
        Auftrag::Senden { an, text } => if offen {
            Schritt::Senden { an, text }
        } else {
            Schritt::Nichts
        },
    }
}

/// Der Status, nachdem der Hintergrund geoeffnet werden sollte.
pub fn status_nach_oeffnen(gelungen: bool) -> (r: u32)
    ensures
        r == if gelungen {
            STATUS_VERBUNDEN
        } else {
            STATUS_GETRENNT
        },
{
    if gelungen {
        STATUS_VERBUNDEN
    } else {
        STATUS_GETRENNT
    }
}

} // verus!
