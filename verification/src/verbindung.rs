//! Eine Verbindung: ein angemeldetes Konto eines Protokolls.
//!
//! Telepathy erwartet mehrere Schnittstellen unter derselben Adresse:
//! Connection, Requests, SimplePresence, Contacts und Aliasing. Sie teilen
//! sich einen Zustand; hier steht, was sie mit ihm tun.
use std::collections::HashMap;

use vstd::prelude::*;
use vstd::std_specs::hash::spec_hash_map_iter;
use vstd::std_specs::iter::IteratorSpec;

use crate::karte::{aus_folge, folge_sicht, Karte};
use crate::kennungen::{Kennungen, KennungenSicht};
use crate::text::{dezimal, gleich, text_aus, zeichen_anhaengen, ziffern};
use crate::{
    GRIFF_KONTAKT, IF_ALIASING, IF_CONTACTS, IF_KANAL, IF_PRESENCE, IF_REQUESTS, IF_TEXT,
    STATUS_GETRENNT, STATUS_VERBUNDEN,
};

verus! {

broadcast use vstd::std_specs::hash::group_hash_axioms;

/// Was die Verbindung von aussen aufgetragen bekommt.
pub enum Auftrag {
    Verbinden,
    Trennen,
    Senden { an: String, text: String },
}

/// Warum eine Anfrage abgelehnt wird.
pub enum Ablehnung {
    /// Das tragen wir nicht (Telepathy: NotSupported).
    NichtUnterstuetzt(String),
    /// Die Anfrage ist so nicht zu erfuellen (Telepathy: InvalidArgument).
    UngueltigeArgumente(String),
    /// Etwas ging schief (D-Bus: Failed).
    Fehlgeschlagen(String),
}

/// Eine Ablehnung als Mathematik.
pub enum AblehnungSicht {
    NichtUnterstuetzt(Seq<char>),
    UngueltigeArgumente(Seq<char>),
    Fehlgeschlagen(Seq<char>),
}

impl View for Ablehnung {
    type V = AblehnungSicht;

    open spec fn view(&self) -> AblehnungSicht {
        match self {
            Ablehnung::NichtUnterstuetzt(s) => AblehnungSicht::NichtUnterstuetzt(s@),
            Ablehnung::UngueltigeArgumente(s) => AblehnungSicht::UngueltigeArgumente(s@),
            Ablehnung::Fehlgeschlagen(s) => AblehnungSicht::Fehlgeschlagen(s@),
        }
    }
}

/// Ein Zeichen, das in einem Element eines D-Bus-Objektpfads stehen darf:
/// ASCII-Buchstaben, Ziffern und "_".
pub open spec fn pfadzeichen(c: char) -> bool {
    ('a' <= c <= 'z') || ('A' <= c <= 'Z') || ('0' <= c <= '9') || c == '_'
}

/// Ein gueltiger D-Bus-Objektpfad: "/" oder "/" und Elemente aus
/// Pfadzeichen, getrennt durch je ein "/", ohne "/" am Ende.
pub open spec fn objektpfad_gueltig(p: Seq<char>) -> bool {
    &&& p.len() >= 1
    &&& p[0] == '/'
    &&& p.len() == 1 || p[p.len() - 1] != '/'
    &&& forall|i: int|
        1 <= i < p.len() ==> pfadzeichen(#[trigger] p[i]) || (p[i] == '/' && p[i - 1] != '/')
}

/// Prueft einen Objektpfad mit `zvariant::ObjectPath::try_from`.
///
/// Der Pfad gilt genau dann, wenn er mit "/" beginnt, nicht mit "/"
/// endet (ausser er ist "/"), kein "//" enthaelt und sonst nur
/// ASCII-Buchstaben, Ziffern und "_"; sonst ist der Fehler
/// `InvalidObjectPath`, dessen Text "Invalid object path" lautet.
/// Angenommen, nicht bewiesen: so steht es in der Pruefung von zvariant.
#[verifier::external_body]
pub(crate) fn objektpfad_pruefen(p: &str) -> (r: Result<(), String>)
    ensures
        r is Ok <==> objektpfad_gueltig(p@),
        r matches Err(e) ==> e@ == "Invalid object path"@,
{
    match zbus::zvariant::ObjectPath::try_from(p) {
        Ok(_) => Ok(()),
        Err(e) => Err(e.to_string()),
    }
}

/// Der Wert einer Kanaleigenschaft.
pub enum Eigenschaft {
    Text(String),
    Zahl(u32),
    Wahrheit(bool),
    Texte(Vec<String>),
}

/// Der Zustand einer Verbindung als Mathematik.
#[verifier::ext_equal]
pub struct ZustandSicht {
    pub protokoll: Seq<char>,
    pub pfad: Seq<char>,
    pub status: u32,
    pub kennungen: KennungenSicht,
    /// Griff -> Kanalpfad.
    pub kanaele: Map<u32, Seq<char>>,
    /// Griff -> Pfad, der einem Anfragenden schon genannt wurde.
    pub vorgemerkt: Map<u32, Seq<char>>,
    pub naechster_kanal: u32,
    /// Chat-Kennung -> Anzeigename.
    pub chats: Map<Seq<char>, Seq<char>>,
    pub selbst: u32,
}

/// Der Pfad einer Verbindung.
pub open spec fn verbindungspfad(protokoll: Seq<char>) -> Seq<char> {
    "/org/freedesktop/Telepathy/Connection/bruecke/"@ + protokoll + seq!['/'] + protokoll
}

/// Der Pfad des Kanals mit der Nummer `n`.
pub open spec fn kanalpfad(pfad: Seq<char>, n: u32) -> Seq<char> {
    pfad + "/TextChannel"@ + ziffern(n as nat)
}

/// Der Zustand einer Verbindung.
pub struct Zustand {
    protokoll: String,
    pfad: String,
    status: u32,
    kennungen: Kennungen,
    kanaele: HashMap<u32, String>,
    vorgemerkt: HashMap<u32, String>,
    naechster_kanal: u32,
    chats: Karte<String, String>,
    selbst: u32,
}

impl View for Zustand {
    type V = ZustandSicht;

    closed spec fn view(&self) -> ZustandSicht {
        ZustandSicht {
            protokoll: self.protokoll@,
            pfad: self.pfad@,
            status: self.status,
            kennungen: self.kennungen@,
            kanaele: self.kanaele@.map_values(|p: String| p@),
            vorgemerkt: self.vorgemerkt@.map_values(|p: String| p@),
            naechster_kanal: self.naechster_kanal,
            chats: self.chats.tiefe_sicht(),
            selbst: self.selbst,
        }
    }
}

impl Zustand {
    /// Eine getrennte Verbindung mit den gegebenen Kennungen.
    ///
    /// Die Kanalnummern beginnen bei der Uhrzeit in Sekunden modulo 10000,
    /// damit Pfade aus frueheren Laeufen nicht wiederverwendet werden.
    pub fn neu(protokoll: &str, kennungen: Kennungen, jetzt: u64) -> (r: Self)
        ensures
            r@.protokoll == protokoll@,
            r@.pfad == verbindungspfad(protokoll@),
            r@.status == STATUS_GETRENNT,
            r@.kennungen == kennungen@,
            r@.kanaele == Map::<u32, Seq<char>>::empty(),
            r@.vorgemerkt == Map::<u32, Seq<char>>::empty(),
            r@.naechster_kanal == jetzt % 10000,
            r@.chats == Map::<Seq<char>, Seq<char>>::empty(),
            r@.selbst == 0,
    {
        let mut pfad = text_aus("/org/freedesktop/Telepathy/Connection/bruecke/");
        pfad.append(protokoll);
        pfad.append("/");
        pfad.append(protokoll);
        proof {
            reveal_strlit("/");
        }
        assert(pfad@ =~= verbindungspfad(protokoll@));
        let r = Zustand {
            protokoll: text_aus(protokoll),
            pfad,
            status: STATUS_GETRENNT,
            kennungen,
            kanaele: HashMap::new(),
            vorgemerkt: HashMap::new(),
            naechster_kanal: (jetzt % 10000) as u32,
            chats: Karte::neu(),
            selbst: 0,
        };
        assert(r@.kanaele =~= Map::<u32, Seq<char>>::empty());
        assert(r@.vorgemerkt =~= Map::<u32, Seq<char>>::empty());
        assert(r@.chats =~= Map::<Seq<char>, Seq<char>>::empty());
        r
    }

    pub fn protokoll(&self) -> (r: &str)
        ensures
            r@ == self@.protokoll,
    {
        self.protokoll.as_str()
    }

    pub fn pfad(&self) -> (r: &str)
        ensures
            r@ == self@.pfad,
    {
        self.pfad.as_str()
    }

    pub fn status(&self) -> (r: u32)
        ensures
            r == self@.status,
    {
        self.status
    }

    pub fn selbst(&self) -> (r: u32)
        ensures
            r == self@.selbst,
    {
        self.selbst
    }

    /// Die Nummer des zuletzt vergebenen Kanals.
    pub fn naechster_kanal(&self) -> (r: u32)
        ensures
            r == self@.naechster_kanal,
    {
        self.naechster_kanal
    }

    pub fn kennungen(&self) -> (r: &Kennungen)
        ensures
            r@ == self@.kennungen,
    {
        &self.kennungen
    }

    /// Setzt den Status.
    pub fn status_setzen(&mut self, status: u32)
        ensures
            final(self)@ == (ZustandSicht { status, ..old(self)@ }),
    {
        self.status = status;
    }
}

/// Welchen Pfad ein erbetener Kanal bekommt: den eines bestehenden, einen
/// schon vorgemerkten, oder einen neuen, der vorgemerkt wird. Der erste
/// Teil des Ergebnisses sagt, ob es den Kanal schon gab.
pub open spec fn pfad_vergeben(z: ZustandSicht, g: u32) -> (
    ZustandSicht,
    Result<(bool, Seq<char>, u32), AblehnungSicht>,
) {
    if z.kanaele.contains_key(g) {
        (z, Ok((true, z.kanaele[g], g)))
    } else if z.vorgemerkt.contains_key(g) {
        (z, Ok((false, z.vorgemerkt[g], g)))
    } else {
        let n = (z.naechster_kanal + 1) as u32;
        let p = kanalpfad(z.pfad, n);
        (
            ZustandSicht { naechster_kanal: n, vorgemerkt: z.vorgemerkt.insert(g, p), ..z },
            Ok((false, p, g)),
        )
    }
}

/// Ein vergebener Pfad, der kein gueltiger Objektpfad ist, wird zum
/// Fehler; was dabei schon vorgemerkt wurde, bleibt.
pub open spec fn pfad_pruefen(e: (ZustandSicht, Result<(bool, Seq<char>, u32), AblehnungSicht>)) -> (
    ZustandSicht,
    Result<(bool, Seq<char>, u32), AblehnungSicht>,
) {
    match e.1 {
        Ok(x) => if objektpfad_gueltig(x.1) {
            e
        } else {
            (e.0, Err(AblehnungSicht::Fehlgeschlagen("Invalid object path"@)))
        },
        Err(_) => e,
    }
}

/// Was EnsureChannel mit einer Anfrage tut.
///
/// Wir tragen genau eine Art Kanal: Text, an einen Kontakt. Ein Griff muss
/// bekannt sein; ohne Griff wird die Kennung aufgeloest.
pub open spec fn kanal_erbitten_spec(
    z: ZustandSicht,
    art: Seq<char>,
    griffart: u32,
    griff: u32,
    kennung: Seq<char>,
) -> (ZustandSicht, Result<(bool, Seq<char>, u32), AblehnungSicht>) {
    if art.len() != 0 && art != IF_TEXT@ {
        (z, Err(AblehnungSicht::NichtUnterstuetzt("nur Textkanaele, nicht "@ + art)))
    } else if griffart != GRIFF_KONTAKT {
        (
            z,
            Err(
                AblehnungSicht::NichtUnterstuetzt(
                    "nur Kontaktgriffe, nicht Art "@ + ziffern(griffart as nat),
                ),
            ),
        )
    } else if griff != 0 {
        if !z.kennungen.kennungen.contains_key(griff) {
            (
                z,
                Err(
                    AblehnungSicht::UngueltigeArgumente(
                        "unbekannter Griff "@ + ziffern(griff as nat),
                    ),
                ),
            )
        } else {
            pfad_pruefen(pfad_vergeben(z, griff))
        }
    } else if kennung.len() != 0 {
        let (k, (g, _)) = z.kennungen.nach_aufloesen(kennung);
        pfad_pruefen(pfad_vergeben(ZustandSicht { kennungen: k, ..z }, g))
    } else {
        (z, Err(AblehnungSicht::UngueltigeArgumente("weder Griff noch Kennung"@)))
    }
}

/// Was das Anlegen eines Kanals in der Hauptschleife tut: ein bestehender
/// Kanal bleibt, ein vorgemerkter Pfad wird der Kanal, sonst gibt es eine
/// neue Nummer. Der zweite Teil sagt, ob der Kanal neu ist.
pub open spec fn kanal_sichern_spec(z: ZustandSicht, g: u32) -> (ZustandSicht, (Seq<char>, bool)) {
    if z.kanaele.contains_key(g) {
        (z, (z.kanaele[g], false))
    } else if z.vorgemerkt.contains_key(g) {
        let p = z.vorgemerkt[g];
        (
            ZustandSicht {
                kanaele: z.kanaele.insert(g, p),
                vorgemerkt: z.vorgemerkt.remove(g),
                ..z
            },
            (p, true),
        )
    } else {
        let n = (z.naechster_kanal + 1) as u32;
        let p = kanalpfad(z.pfad, n);
        (ZustandSicht { naechster_kanal: n, kanaele: z.kanaele.insert(g, p), ..z }, (p, true))
    }
}

/// Ob fuer den Griff ein Kanalpfad zu haben ist: er hat schon einen, oder
/// es gibt noch eine freie Kanalnummer.
pub open spec fn pfad_moeglich(z: ZustandSicht, g: u32) -> bool {
    z.kanaele.contains_key(g) || z.vorgemerkt.contains_key(g) || z.naechster_kanal < u32::MAX
}

/// Ob eine Kanalanfrage sich erfuellen laesst, ohne dass ein Zaehler
/// ueberlaeuft: nur wo ein neuer Griff oder eine neue Kanalnummer gebraucht
/// wird, muss noch eine frei sein.
pub open spec fn erbitten_moeglich(
    z: ZustandSicht,
    art: Seq<char>,
    griffart: u32,
    griff: u32,
    kennung: Seq<char>,
) -> bool {
    if art.len() != 0 && art != IF_TEXT@ {
        true
    } else if griffart != GRIFF_KONTAKT {
        true
    } else if griff != 0 {
        !z.kennungen.kennungen.contains_key(griff) || pfad_moeglich(z, griff)
    } else if kennung.len() != 0 {
        &&& (z.kennungen.griffe.contains_key(kennung) || (exists|g: u32|
            z.kennungen.name_eindeutig(kennung, g)) || z.kennungen.naechster < u32::MAX)
        &&& pfad_moeglich(
            ZustandSicht { kennungen: z.kennungen.nach_aufloesen(kennung).0, ..z },
            z.kennungen.nach_aufloesen(kennung).1.0,
        )
    } else {
        true
    }
}

impl Zustand {
    fn neuer_kanalpfad(&mut self) -> (r: String)
        requires
            old(self)@.naechster_kanal < u32::MAX,
        ensures
            final(self)@ == (ZustandSicht {
                naechster_kanal: (old(self)@.naechster_kanal + 1) as u32,
                ..old(self)@
            }),
            r@ == kanalpfad(old(self)@.pfad, (old(self)@.naechster_kanal + 1) as u32),
    {
        self.naechster_kanal = self.naechster_kanal + 1;
        let mut p = self.pfad.clone();
        p.append("/TextChannel");
        p.append(dezimal(self.naechster_kanal as u64).as_str());
        assert(p@ =~= kanalpfad(self.pfad@, self.naechster_kanal));
        p
    }

    fn pfad_vergeben(&mut self, g: u32) -> (r: (bool, String))
        requires
            pfad_moeglich(old(self)@, g),
        ensures
            pfad_vergeben(old(self)@, g) == (final(self)@, Ok::<_, AblehnungSicht>((r.0, r.1@, g))),
    {
        match self.kanaele.get(&g) {
            Some(p) => {
                return (true, p.clone());
            },
            None => {},
        }
        match self.vorgemerkt.get(&g) {
            Some(p) => {
                return (false, p.clone());
            },
            None => {},
        }
        let ghost alt = self@;
        let p = self.neuer_kanalpfad();
        self.vorgemerkt.insert(g, p.clone());
        proof {
            assert(self@ =~= pfad_vergeben(alt, g).0);
        }
        (false, p)
    }

    /// Ob fuer den Griff `g` ein Kanalpfad zu haben ist, ohne dass der
    /// Kanalzaehler ueberlaeuft.
    pub fn pfad_moeglich_pruefen(&self, g: u32) -> (r: bool)
        ensures
            r == pfad_moeglich(self@, g),
    {
        self.kanaele.contains_key(&g) || self.vorgemerkt.contains_key(&g) || self.naechster_kanal
            < u32::MAX
    }

    /// Ob sich eine Kanalanfrage erfuellen laesst, ohne dass ein Zaehler
    /// ueberlaeuft.
    pub fn erbitten_moeglich_pruefen(&self, art: &str, griffart: u32, griff: u32, kennung: &str) -> (r:
        bool)
        ensures
            r == erbitten_moeglich(self@, art@, griffart, griff, kennung@),
    {
        if !art.is_empty() && !gleich(art, IF_TEXT) {
            true
        } else if griffart != GRIFF_KONTAKT {
            true
        } else if griff != 0 {
            self.kennungen.kennung(griff).is_none() || self.pfad_moeglich_pruefen(griff)
        } else if !kennung.is_empty() {
            match self.kennungen.gefunden(kennung) {
                Some(x) => self.pfad_moeglich_pruefen(x.0),
                None => {
                    let n = self.kennungen.naechster();
                    if n == u32::MAX {
                        false
                    } else {
                        let frei: u32 = if n < 1 {
                            1
                        } else {
                            n
                        };
                        self.pfad_moeglich_pruefen(frei)
                    }
                },
            }
        } else {
            true
        }
    }

    /// EnsureChannel: der Pfad zu einem Textkanal an einen Kontakt.
    ///
    /// Angelegt wird der Kanal erst in der Hauptschleife (`kanal_sichern`);
    /// der Pfad wird hier vorgemerkt, damit er dort derselbe ist. Das
    /// Ergebnis sagt, ob es den Kanal schon gab, seinen Pfad und den Griff.
    pub fn kanal_erbitten(&mut self, art: &str, griffart: u32, griff: u32, kennung: &str) -> (r:
        Result<(bool, String, u32), Ablehnung>)
        requires
            erbitten_moeglich(old(self)@, art@, griffart, griff, kennung@),
        ensures
            ({
                let (z, e) = kanal_erbitten_spec(old(self)@, art@, griffart, griff, kennung@);
                &&& final(self)@ == z
                &&& match r {
                    Ok(x) => e == Ok::<_, AblehnungSicht>((x.0, x.1@, x.2)),
                    Err(a) => e == Err::<(bool, Seq<char>, u32), _>(a@),
                }
            }),
    {
        if !art.is_empty() && !gleich(art, IF_TEXT) {
            let mut m = text_aus("nur Textkanaele, nicht ");
            m.append(art);
            return Err(Ablehnung::NichtUnterstuetzt(m));
        }
        if griffart != GRIFF_KONTAKT {
            let mut m = text_aus("nur Kontaktgriffe, nicht Art ");
            m.append(dezimal(griffart as u64).as_str());
            return Err(Ablehnung::NichtUnterstuetzt(m));
        }
        let g = if griff != 0 {
            if self.kennungen.kennung(griff).is_none() {
                let mut m = text_aus("unbekannter Griff ");
                m.append(dezimal(griff as u64).as_str());
                return Err(Ablehnung::UngueltigeArgumente(m));
            }
            griff
        } else if !kennung.is_empty() {
            let mut k = Kennungen::leer();
            std::mem::swap(&mut k, &mut self.kennungen);
            let (g, _) = k.aufloesen(kennung);
            self.kennungen = k;
            g
        } else {
            return Err(Ablehnung::UngueltigeArgumente(text_aus("weder Griff noch Kennung")));
        };
        let (gab_es, p) = self.pfad_vergeben(g);
        match objektpfad_pruefen(p.as_str()) {
            Ok(()) => Ok((gab_es, p, g)),
            Err(e) => Err(Ablehnung::Fehlgeschlagen(e)),
        }
    }

    /// Legt einen Kanal an, falls er fehlt: mit dem vorgemerkten Pfad, wenn
    /// einem Anfragenden schon einer genannt wurde, sonst mit einer neuen
    /// Nummer. Gibt den Pfad zurueck und ob der Kanal neu ist.
    pub fn kanal_sichern(&mut self, griff: u32) -> (r: (String, bool))
        requires
            pfad_moeglich(old(self)@, griff),
        ensures
            kanal_sichern_spec(old(self)@, griff) == (final(self)@, (r.0@, r.1)),
    {
        match self.kanaele.get(&griff) {
            Some(p) => {
                return (p.clone(), false);
            },
            None => {},
        }
        let ghost alt = self@;
        let vorgemerkt = match self.vorgemerkt.get(&griff) {
            Some(p) => Some(p.clone()),
            None => None,
        };
        let p = match vorgemerkt {
            Some(p) => {
                self.vorgemerkt.remove(&griff);
                p
            },
            None => self.neuer_kanalpfad(),
        };
        self.kanaele.insert(griff, p.clone());
        proof {
            assert(self@ =~= kanal_sichern_spec(alt, griff).0);
        }
        (p, true)
    }
}

/// Die Griffe einer Folge von Kanaleintraegen.
pub open spec fn schluessel_der(s: Seq<(&u32, &String)>) -> Seq<u32> {
    s.map_values(|e: (&u32, &String)| *e.0)
}

/// Was InspectHandles zu einem Griff nennt: die Kennung, nicht den
/// Anzeigenamen; ohne Kennung den Namen.
pub open spec fn griff_zeigen(k: KennungenSicht, g: u32) -> Seq<char> {
    if k.kennungen.contains_key(g) {
        k.kennungen[g]
    } else {
        k.name_von(g)
    }
}

/// Alle Texte der Reihe nach aufgeloest.
pub open spec fn alle_aufloesen(k: KennungenSicht, ns: Seq<Seq<char>>) -> (KennungenSicht, Seq<u32>)
    decreases ns.len(),
{
    if ns.len() == 0 {
        (k, Seq::empty())
    } else {
        let (k1, gs) = alle_aufloesen(k, ns.drop_last());
        let (k2, (g, _)) = k1.nach_aufloesen(ns.last());
        (k2, gs.push(g))
    }
}

/// Ob sich alle Texte der Reihe nach aufloesen lassen, ohne dass der
/// Griffzaehler ueberlaeuft: ein freier Griff muss nur dort noch da sein, wo
/// ein Text weder Kennung noch eindeutiger Name ist.
pub open spec fn alle_aufloesbar(k: KennungenSicht, ns: Seq<Seq<char>>) -> bool
    decreases ns.len(),
{
    if ns.len() == 0 {
        true
    } else {
        let k1 = alle_aufloesen(k, ns.drop_last()).0;
        &&& alle_aufloesbar(k, ns.drop_last())
        &&& (k1.griffe.contains_key(ns.last()) || (exists|g: u32| k1.name_eindeutig(ns.last(), g))
            || k1.naechster < u32::MAX)
    }
}

proof fn alle_aufloesbar_vorne(k: KennungenSicht, ns: Seq<Seq<char>>, j: int)
    requires
        alle_aufloesbar(k, ns),
        0 <= j <= ns.len(),
    ensures
        alle_aufloesbar(k, ns.subrange(0, j)),
    decreases ns.len(),
{
    if j < ns.len() {
        assert(ns.drop_last().subrange(0, j) =~= ns.subrange(0, j));
        alle_aufloesbar_vorne(k, ns.drop_last(), j);
    } else {
        assert(ns.subrange(0, j) =~= ns);
    }
}

impl Zustand {
    /// InspectHandles: zu jedem Griff die Kennung, ohne Kennung den Namen.
    pub fn griffe_zeigen(&self, griffe: &Vec<u32>) -> (r: Vec<String>)
        ensures
            r@.len() == griffe@.len(),
            forall|i: int|
                0 <= i < r@.len() ==> (#[trigger] r@[i])@ == griff_zeigen(
                    self@.kennungen,
                    griffe@[i],
                ),
    {
        let mut r: Vec<String> = Vec::new();
        let mut i: usize = 0;
        while i < griffe.len()
            invariant
                i <= griffe@.len(),
                r@.len() == i,
                forall|j: int|
                    0 <= j < i ==> (#[trigger] r@[j])@ == griff_zeigen(
                        self@.kennungen,
                        griffe@[j],
                    ),
            decreases griffe@.len() - i,
        {
            let g = griffe[i];
            let t = match self.kennungen.kennung(g) {
                Some(k) => text_aus(k),
                None => self.kennungen.name(g),
            };
            r.push(t);
            i = i + 1;
        }
        r
    }

    /// RequestHandles: Griffe zu Kennungen, aber nur fuer Kontakte.
    ///
    /// Wir tragen keine Kontaktlisten; nach anderen Griffarten gefragt, ist
    /// die ehrliche Antwort eine Ablehnung.
    pub fn griffe_erbitten(&mut self, art: u32, namen: &Vec<String>) -> (r: Result<
        Vec<u32>,
        Ablehnung,
    >)
        requires
            art == GRIFF_KONTAKT ==> alle_aufloesbar(
                old(self)@.kennungen,
                namen@.map_values(|n: String| n@),
            ),
        ensures
            art != GRIFF_KONTAKT ==> (final(self)@ == old(self)@ && (r matches Err(a) && a@
                == AblehnungSicht::NichtUnterstuetzt(
                "nur Kontaktgriffe, nicht Art "@ + ziffern(art as nat),
            ))),
            art == GRIFF_KONTAKT ==> ({
                let (k, gs) = alle_aufloesen(
                    old(self)@.kennungen,
                    namen@.map_values(|n: String| n@),
                );
                &&& r matches Ok(v) && v@ == gs
                &&& final(self)@ == (ZustandSicht { kennungen: k, ..old(self)@ })
            }),
    {
        if art != GRIFF_KONTAKT {
            let mut m = text_aus("nur Kontaktgriffe, nicht Art ");
            m.append(dezimal(art as u64).as_str());
            return Err(Ablehnung::NichtUnterstuetzt(m));
        }
        let ghost alt = self@;
        let ghost ns = namen@.map_values(|n: String| n@);
        let mut k = Kennungen::leer();
        std::mem::swap(&mut k, &mut self.kennungen);
        let mut griffe: Vec<u32> = Vec::new();
        let mut i: usize = 0;
        while i < namen.len()
            invariant
                i <= namen@.len(),
                ns == namen@.map_values(|n: String| n@),
                alle_aufloesbar(alt.kennungen, ns),
                (k@, griffe@) == alle_aufloesen(alt.kennungen, ns.subrange(0, i as int)),
            decreases namen@.len() - i,
        {
            proof {
                alle_aufloesbar_vorne(alt.kennungen, ns, i + 1);
                assert(ns.subrange(0, i + 1).drop_last() =~= ns.subrange(0, i as int));
                assert(ns.subrange(0, i + 1).last() == namen@[i as int]@);
            }
            let (g, _) = k.aufloesen(namen[i].as_str());
            griffe.push(g);
            i = i + 1;
        }
        assert(ns.subrange(0, namen@.len() as int) =~= ns);
        self.kennungen = k;
        proof {
            assert(self@ =~= (ZustandSicht { kennungen: self@.kennungen, ..alt }));
        }
        Ok(griffe)
    }

    /// Die Anwesenheit jedes Kontakts: verfuegbar, solange die Verbindung
    /// steht, sonst offline.
    pub fn anwesenheit(&self) -> (r: (u32, String, String))
        ensures
            self@.status == STATUS_VERBUNDEN ==> r.0 == 2 && r.1@ == "available"@ && r.2@
                == Seq::<char>::empty(),
            self@.status != STATUS_VERBUNDEN ==> r.0 == 1 && r.1@ == "offline"@ && r.2@
                == Seq::<char>::empty(),
    {
        if self.status == STATUS_VERBUNDEN {
            (2, text_aus("available"), String::new())
        } else {
            (1, text_aus("offline"), String::new())
        }
    }

    /// Die Kontaktangaben zu einem Griff: (Kennung, Anzeigename). Ohne
    /// Kennung steht dort der Name.
    pub fn kontaktangabe(&self, griff: u32) -> (r: (String, String))
        ensures
            r.0@ == griff_zeigen(self@.kennungen, griff),
            r.1@ == self@.kennungen.name_von(griff),
    {
        let name = self.kennungen.name(griff);
        let kennung = match self.kennungen.kennung(griff) {
            Some(k) => text_aus(k),
            None => name.clone(),
        };
        (kennung, name)
    }

    /// Die Anzeigenamen zu Griffen.
    pub fn namen_zu(&self, griffe: &Vec<u32>) -> (r: Vec<String>)
        ensures
            r@.len() == griffe@.len(),
            forall|i: int|
                0 <= i < r@.len() ==> (#[trigger] r@[i])@ == self@.kennungen.name_von(griffe@[i]),
    {
        let mut r: Vec<String> = Vec::new();
        let mut i: usize = 0;
        while i < griffe.len()
            invariant
                i <= griffe@.len(),
                r@.len() == i,
                forall|j: int|
                    0 <= j < i ==> (#[trigger] r@[j])@ == self@.kennungen.name_von(griffe@[j]),
            decreases griffe@.len() - i,
        {
            r.push(self.kennungen.name(griffe[i]));
            i = i + 1;
        }
        r
    }
}

/// Der Name des eigenen Griffs: die eigene Kennung, ohne sie
/// "selbst-<protokoll>".
pub open spec fn eigener_name(protokoll: Seq<char>, eigen: Seq<char>) -> Seq<char> {
    if eigen.len() == 0 {
        "selbst-"@ + protokoll
    } else {
        eigen
    }
}

/// Der Name des eigenen Griffs, gebaut.
pub fn eigener_name_bauen(protokoll: &str, eigen: &str) -> (r: String)
    ensures
        r@ == eigener_name(protokoll@, eigen@),
{
    if eigen.is_empty() {
        let mut n = text_aus("selbst-");
        n.append(protokoll);
        n
    } else {
        text_aus(eigen)
    }
}

/// Die Chatliste uebernommen: jeder Chat bekommt seinen Griff und seinen
/// Namen, der Reihe nach.
pub open spec fn namen_uebernommen(z: ZustandSicht, ps: Seq<(Seq<char>, Seq<char>)>) -> ZustandSicht
    decreases ps.len(),
{
    if ps.len() == 0 {
        z
    } else {
        let z1 = namen_uebernommen(z, ps.drop_last());
        let (k, n) = ps.last();
        let (kk, g) = z1.kennungen.nach_griff(k);
        ZustandSicht { kennungen: kk.nach_name(g, n), chats: z1.chats.insert(k, n), ..z1 }
    }
}

/// Ob sich die Chatliste uebernehmen laesst, ohne dass der Griffzaehler
/// ueberlaeuft: ein freier Griff muss nur fuer Chats noch da sein, die bis
/// dahin keinen haben.
pub open spec fn uebernehmbar(z: ZustandSicht, ps: Seq<(Seq<char>, Seq<char>)>) -> bool
    decreases ps.len(),
{
    if ps.len() == 0 {
        true
    } else {
        let z1 = namen_uebernommen(z, ps.drop_last());
        &&& uebernehmbar(z, ps.drop_last())
        &&& (z1.kennungen.griffe.contains_key(ps.last().0) || z1.kennungen.naechster < u32::MAX)
    }
}

proof fn uebernehmbar_vorne(z: ZustandSicht, ps: Seq<(Seq<char>, Seq<char>)>, j: int)
    requires
        uebernehmbar(z, ps),
        0 <= j <= ps.len(),
    ensures
        uebernehmbar(z, ps.subrange(0, j)),
    decreases ps.len(),
{
    if j < ps.len() {
        assert(ps.drop_last().subrange(0, j) =~= ps.subrange(0, j));
        uebernehmbar_vorne(z, ps.drop_last(), j);
    } else {
        assert(ps.subrange(0, j) =~= ps);
    }
}

/// Die Schluessel einer Kanaleigenschaft.
pub open spec fn eigenschaftsname(n: Seq<char>) -> Seq<char> {
    IF_KANAL@ + seq!['.'] + n
}

fn eigenschaftsname_bauen(n: &str) -> (r: String)
    ensures
        r@ == eigenschaftsname(n@),
{
    let mut r = text_aus(IF_KANAL);
    zeichen_anhaengen(&mut r, '.');
    r.append(n);
    r
}

impl Zustand {
    /// Der eigene Griff; ohne ihn gilt die Verbindung dem Kontoverwalter
    /// als nicht verbunden.
    pub fn eigener_griff(&mut self, eigen: &str) -> (g: u32)
        requires
            old(self)@.kennungen.griffe.contains_key(eigener_name(old(self)@.protokoll, eigen@))
                || old(self)@.kennungen.naechster < u32::MAX,
        ensures
            ({
                let name = eigener_name(old(self)@.protokoll, eigen@);
                let (k, h) = old(self)@.kennungen.nach_griff(name);
                &&& g == h
                &&& final(self)@ == (ZustandSicht {
                    kennungen: k.nach_name(h, name),
                    selbst: h,
                    ..old(self)@
                })
            }),
    {
        let name = eigener_name_bauen(self.protokoll.as_str(), eigen);
        let mut k = Kennungen::leer();
        std::mem::swap(&mut k, &mut self.kennungen);
        let g = k.griff(name.as_str());
        k.name_setzen(g, name.as_str());
        self.kennungen = k;
        self.selbst = g;
        g
    }

    /// Uebernimmt die Chatliste (Kennung, Name) in Griffe, Namen und Chats.
    pub fn namen_uebernehmen(&mut self, paare: &Vec<(String, String)>)
        requires
            uebernehmbar(old(self)@, folge_sicht(paare@)),
        ensures
            final(self)@ == namen_uebernommen(old(self)@, folge_sicht(paare@)),
    {
        let ghost alt = self@;
        let ghost ps = folge_sicht(paare@);
        let mut i: usize = 0;
        while i < paare.len()
            invariant
                i <= paare@.len(),
                ps == folge_sicht(paare@),
                uebernehmbar(alt, ps),
                self@ == namen_uebernommen(alt, ps.subrange(0, i as int)),
            decreases paare@.len() - i,
        {
            proof {
                uebernehmbar_vorne(alt, ps, i + 1);
                assert(ps.subrange(0, i + 1).drop_last() =~= ps.subrange(0, i as int));
                assert(ps.subrange(0, i + 1).last() == (paare@[i as int].0@, paare@[i as int].1@));
            }
            let ghost vorher = self@;
            let mut k = Kennungen::leer();
            std::mem::swap(&mut k, &mut self.kennungen);
            let g = k.griff(paare[i].0.as_str());
            k.name_setzen(g, paare[i].1.as_str());
            self.kennungen = k;
            let mut c = Karte::neu();
            std::mem::swap(&mut c, &mut self.chats);
            c.setzen(paare[i].0.clone(), paare[i].1.clone());
            self.chats = c;
            proof {
                assert(self@ =~= namen_uebernommen(alt, ps.subrange(0, i + 1)));
            }
            i = i + 1;
        }
        assert(ps.subrange(0, paare@.len() as int) =~= ps);
    }

    /// Der Griff zum Chat einer eingehenden Nachricht; der Chatname, wenn
    /// einer kam, wird sein Anzeigename.
    pub fn nachricht_zuordnen(&mut self, chat: &str, chat_name: &str) -> (g: u32)
        requires
            old(self)@.kennungen.griffe.contains_key(chat@) || old(self)@.kennungen.naechster
                < u32::MAX,
        ensures
            ({
                let (k, h) = old(self)@.kennungen.nach_griff(chat@);
                &&& g == h
                &&& final(self)@ == (ZustandSicht {
                    kennungen: k.nach_name(h, chat_name@),
                    ..old(self)@
                })
            }),
    {
        let mut k = Kennungen::leer();
        std::mem::swap(&mut k, &mut self.kennungen);
        let g = k.griff(chat);
        k.name_setzen(g, chat_name);
        self.kennungen = k;
        g
    }

    /// Alle angelegten Kanaele als (Griff, Pfad), deren Pfad ein gueltiger
    /// Objektpfad ist; fuer die Eigenschaft Channels.
    pub fn kanaele_liste(&self) -> (r: Vec<(u32, String)>)
        ensures
            aus_folge(folge_sicht(r@)) == self@.kanaele.restrict(
                Set::new(|g: u32| objektpfad_gueltig(self@.kanaele[g])),
            ),
    {
        broadcast use vstd::std_specs::hash::axiom_spec_hash_map_iter;

        let ghost kan = self@.kanaele;
        let ghost gueltig = Set::new(|g: u32| objektpfad_gueltig(kan[g]));
        let ghost alle_e = spec_hash_map_iter(&self.kanaele).remaining();
        let mut r: Vec<(u32, String)> = Vec::new();
        for e in it: self.kanaele.iter()
            invariant
                kan == self.kanaele@.map_values(|p: String| p@),
                gueltig == Set::new(|g: u32| objektpfad_gueltig(kan[g])),
                alle_e == spec_hash_map_iter(&self.kanaele).remaining(),
                it.seq() == alle_e,
                aus_folge(folge_sicht(r@)) == kan.restrict(gueltig).restrict(
                    schluessel_der(it.seq().take(it.index() as int)).to_set(),
                ),
        {
            let (g, p) = e;
            let ghost i = it.index() as int;
            let ghost vorher = r@;
            let ghost a = schluessel_der(it.seq().take(i));
            let ghost b = schluessel_der(it.seq().take(i + 1));
            proof {
                assert(it.seq()[i] == e);
                assert(b =~= a.push(*g));
                a.lemma_push_to_set_commute(*g);
                assert(b.to_set() =~= a.to_set().insert(*g));
                assert(self.kanaele@.contains_key(*g) && self.kanaele@[*g] == *p);
                assert(kan[*g] == p@);
            }
            let ghost vorige = kan.restrict(gueltig).restrict(a.to_set());
            match objektpfad_pruefen(p.as_str()) {
                Ok(()) => {
                    let q = p.clone();
                    r.push((*g, q));
                    proof {
                        let f = folge_sicht(r@);
                        assert(f.len() == vorher.len() + 1);
                        assert(f.drop_last() =~= folge_sicht(vorher));
                        assert(f.last() == (*g, p@));
                        assert(aus_folge(f) == aus_folge(f.drop_last()).insert(*g, p@));
                        assert(gueltig.contains(*g));
                        assert(aus_folge(f) =~= kan.restrict(gueltig).restrict(b.to_set()));
                    }
                },
                Err(_) => {
                    proof {
                        assert(!gueltig.contains(*g));
                        assert(vorige =~= kan.restrict(gueltig).restrict(b.to_set()));
                    }
                },
            }
        }
        proof {
            let alle = schluessel_der(alle_e.take(alle_e.len() as int));
            assert forall|g: u32| kan.contains_key(g) implies alle.to_set().contains(g) by {
                let v = alle_e;
                assert(v.contains((&g, &self.kanaele@[g])));
                let j = choose|j: int| 0 <= j < v.len() && v[j] == (&g, &self.kanaele@[g]);
                assert(v.take(v.len() as int)[j] == v[j]);
                assert(alle[j] == g);
            }
            assert(kan.restrict(gueltig).restrict(alle.to_set()) =~= kan.restrict(gueltig));
        }
        r
    }

    /// Die Chats (Kennung, Anzeigename), wie sie zuletzt uebernommen wurden.
    pub fn chats(&self) -> (r: Vec<(String, String)>)
        ensures
            aus_folge(folge_sicht(r@)) == self@.chats,
    {
        self.chats.paare()
    }
}

/// Die Eigenschaften eines Kanals, wie Telepathy sie erwartet.
///
/// TargetID ist das Schild, nicht die Kennung: die Nachrichten-App
/// zeigt es als Namen des Gespraechs an, und `aufloesen` findet den
/// Griff dazu zurueck. Text ist die Art des Kanals, keine zusaetzliche
/// Schnittstelle; die Liste der Schnittstellen bleibt leer.
///
/// Der Pfad des Kanals aendert daran nichts; er wird nur mitgegeben.
pub fn kanal_eigenschaften(z: &Zustand, griff: u32, _pfad: &str) -> (r: Vec<(String, Eigenschaft)>)
    ensures
        r@.len() == 8,
        r@[0].0@ == eigenschaftsname("ChannelType"@) && (r@[0].1 matches Eigenschaft::Text(t)
            && t@ == IF_TEXT@),
        r@[1].0@ == eigenschaftsname("TargetHandleType"@) && r@[1].1 matches Eigenschaft::Zahl(
            GRIFF_KONTAKT,
        ),
        r@[2].0@ == eigenschaftsname("TargetHandle"@) && (r@[2].1 matches Eigenschaft::Zahl(g)
            && g == griff),
        r@[3].0@ == eigenschaftsname("TargetID"@) && (r@[3].1 matches Eigenschaft::Text(t) && t@
            == z@.kennungen.name_von(griff)),
        r@[4].0@ == eigenschaftsname("Requested"@) && r@[4].1 matches Eigenschaft::Wahrheit(
            false,
        ),
        r@[5].0@ == eigenschaftsname("InitiatorHandle"@) && (r@[5].1 matches Eigenschaft::Zahl(g)
            && g == griff),
        r@[6].0@ == eigenschaftsname("InitiatorID"@) && (r@[6].1 matches Eigenschaft::Text(t)
            && t@ == z@.kennungen.name_von(griff)),
        r@[7].0@ == eigenschaftsname("Interfaces"@) && (r@[7].1 matches Eigenschaft::Texte(l)
            && l@.len() == 0),
{
    let schild = z.kennungen.name(griff);
    let mut r: Vec<(String, Eigenschaft)> = Vec::new();
    r.push((eigenschaftsname_bauen("ChannelType"), Eigenschaft::Text(text_aus(IF_TEXT))));
    r.push((eigenschaftsname_bauen("TargetHandleType"), Eigenschaft::Zahl(GRIFF_KONTAKT)));
    r.push((eigenschaftsname_bauen("TargetHandle"), Eigenschaft::Zahl(griff)));
    r.push((eigenschaftsname_bauen("TargetID"), Eigenschaft::Text(schild.clone())));
    r.push((eigenschaftsname_bauen("Requested"), Eigenschaft::Wahrheit(false)));
    r.push((eigenschaftsname_bauen("InitiatorHandle"), Eigenschaft::Zahl(griff)));
    r.push((eigenschaftsname_bauen("InitiatorID"), Eigenschaft::Text(schild)));
    r.push((eigenschaftsname_bauen("Interfaces"), Eigenschaft::Texte(Vec::new())));
    r
}

/// Die Schnittstellen einer Verbindung neben Connection selbst.
pub fn schnittstellen() -> (r: Vec<String>)
    ensures
        r@.len() == 4,
        r@[0]@ == IF_REQUESTS@,
        r@[1]@ == IF_PRESENCE@,
        r@[2]@ == IF_CONTACTS@,
        r@[3]@ == IF_ALIASING@,
{
    let mut r: Vec<String> = Vec::new();
    r.push(text_aus(IF_REQUESTS));
    r.push(text_aus(IF_PRESENCE));
    r.push(text_aus(IF_CONTACTS));
    r.push(text_aus(IF_ALIASING));
    r
}

/// SetPresence: "offline" trennt, alles andere verbindet.
pub fn auftrag_fuer_anwesenheit(status: &str) -> (r: Auftrag)
    ensures
        status@ == "offline"@ ==> r is Trennen,
        status@ != "offline"@ ==> r is Verbinden,
{
    if gleich(status, "offline") {
        Auftrag::Trennen
    } else {
        Auftrag::Verbinden
    }
}

/// Die Statusarten: (Name, (Art, darf man sich selbst so setzen, hat eine
/// Meldung)); 1 ist offline, 2 verfuegbar.
pub fn statusarten() -> (r: Vec<(String, (u32, bool, bool))>)
    ensures
        r@.len() == 2,
        r@[0].0@ == "offline"@ && r@[0].1 == (1u32, true, false),
        r@[1].0@ == "available"@ && r@[1].1 == (2u32, true, true),
{
    let mut r: Vec<(String, (u32, bool, bool))> = Vec::new();
    r.push((text_aus("offline"), (1, true, false)));
    r.push((text_aus("available"), (2, true, true)));
    r
}

/// Welche Kanaele sich anfordern lassen: Textkanaele an Kontakte, mit
/// Griff oder Kennung. Die festen Eigenschaften und die erlaubten.
pub fn anforderbare_kanaele() -> (r: (Vec<(String, Eigenschaft)>, Vec<String>))
    ensures
        r.0@.len() == 2,
        r.0@[0].0@ == eigenschaftsname("ChannelType"@) && (r.0@[0].1 matches Eigenschaft::Text(t)
            && t@ == IF_TEXT@),
        r.0@[1].0@ == eigenschaftsname("TargetHandleType"@) && r.0@[1].1 matches Eigenschaft::Zahl(
            GRIFF_KONTAKT,
        ),
        r.1@.len() == 2,
        r.1@[0]@ == eigenschaftsname("TargetHandle"@),
        r.1@[1]@ == eigenschaftsname("TargetID"@),
{
    let mut feste: Vec<(String, Eigenschaft)> = Vec::new();
    feste.push((eigenschaftsname_bauen("ChannelType"), Eigenschaft::Text(text_aus(IF_TEXT))));
    feste.push((eigenschaftsname_bauen("TargetHandleType"), Eigenschaft::Zahl(GRIFF_KONTAKT)));
    let mut erlaubt: Vec<String> = Vec::new();
    erlaubt.push(eigenschaftsname_bauen("TargetHandle"));
    erlaubt.push(eigenschaftsname_bauen("TargetID"));
    (feste, erlaubt)
}

/// Ein vorgemerkter Pfad ist der, unter dem der Kanal erscheint: wer mit
/// EnsureChannel einen Pfad bekommen hat, findet den Kanal, den die
/// Hauptschleife danach anlegt, genau dort. Wird er noch einmal
/// angelegt, bleibt es derselbe Kanal unter demselben Pfad.
pub proof fn vorgemerkter_pfad_wird_angelegt(
    z: ZustandSicht,
    art: Seq<char>,
    griffart: u32,
    griff: u32,
    kennung: Seq<char>,
)
    requires
        z.naechster_kanal < u32::MAX - 1,
        kanal_erbitten_spec(z, art, griffart, griff, kennung).1 is Ok,
    ensures
        ({
            let (z1, e) = kanal_erbitten_spec(z, art, griffart, griff, kennung);
            let (_, p, g) = e->Ok_0;
            let (z2, (q, _)) = kanal_sichern_spec(z1, g);
            &&& q == p
            &&& z2.kanaele.contains_key(g)
            &&& kanal_sichern_spec(z2, g) == (z2, (p, false))
        }),
{
}

} // verus!
