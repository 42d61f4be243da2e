//! Die sichtbare Meldung ueber eine neue Nachricht.
//!
//! Je Chat eine Meldung, nicht je Nachricht: fuenf Zeilen in einem
//! Gespraech sind ein Ereignis, keine fuenf. Hier steht, was gemeldet wird
//! und welche Meldung zu welchem Chat gehoert; das Absetzen selbst geht
//! ueber den Bus.
use vstd::prelude::*;

use crate::karte::Karte;
use crate::text::{text_aus, zeichen_anhaengen};
use crate::{CM_BUS, IF_MELDUNG};

verus! {

/// Der Ereignistyp der Meldungen.
pub const TYP: &'static str = "bruecke.nachricht";

/// Was eine Meldung sagen soll, und ob sie eine bestehende ersetzt.
pub struct Meldungsplan {
    pub titel: String,
    pub koerper: String,
    /// Beim Antippen: Dienst, Pfad, Schnittstelle, Methode.
    pub aktion: String,
    pub kennzeichen: String,
    pub ungelesen: u32,
    /// Die Nummer der Meldung, die schon fuer diesen Chat steht.
    pub bestehend: Option<u32>,
}

/// Die offenen Meldungen: Chat-Kennung -> (Nummer, Ungelesene).
pub struct Meldungen {
    benutzer: u32,
    offen: Karte<String, (u32, u32)>,
}

/// Der Titel einer Meldung: der Chatname, sonst die Kennung.
pub open spec fn meldungstitel(kennung: Seq<char>, chat_name: Seq<char>) -> Seq<char> {
    if chat_name.len() == 0 {
        kennung
    } else {
        chat_name
    }
}

/// Der Text einer Meldung: in einer Gruppe mit dem Absender davor.
pub open spec fn meldungstext(absender: Seq<char>, text: Seq<char>) -> Seq<char> {
    if absender.len() == 0 {
        text
    } else {
        absender + ": "@ + text
    }
}

/// Die Aktion beim Antippen: das Gespraech oeffnen.
pub open spec fn meldungsaktion(kanalpfad: Seq<char>) -> Seq<char> {
    CM_BUS@ + seq![' '] + kanalpfad + seq![' '] + IF_MELDUNG@ + " Oeffnen"@
}

impl Meldungen {
    /// Die offenen Meldungen als Zuordnung.
    pub closed spec fn offen(self) -> Map<Seq<char>, (u32, u32)> {
        self.offen.tiefe_sicht()
    }

    /// Der Benutzer, unter dem gemeldet wird.
    pub closed spec fn benutzer_spec(self) -> u32 {
        self.benutzer
    }

    /// Noch keine Meldung.
    pub fn neu(benutzer: u32) -> (r: Self)
        ensures
            r.benutzer_spec() == benutzer,
            r.offen() == Map::<Seq<char>, (u32, u32)>::empty(),
    {
        let r = Meldungen { benutzer, offen: Karte::neu() };
        assert(r.offen() =~= Map::<Seq<char>, (u32, u32)>::empty());
        r
    }

    pub fn benutzer(&self) -> (r: u32)
        ensures
            r == self.benutzer_spec(),
    {
        self.benutzer
    }

    /// Die Meldung, die fuer einen Chat steht: (Nummer, Ungelesene).
    pub fn offen_fuer(&self, kennung: &str) -> (r: Option<(u32, u32)>)
        ensures
            match r {
                Some(x) => self.offen().contains_key(kennung@) && x == self.offen()[kennung@],
                None => !self.offen().contains_key(kennung@),
            },
    {
        match self.offen.hole(&text_aus(kennung)) {
            Some(x) => Some(*x),
            None => None,
        }
    }

    /// Was fuer eine neue Nachricht gemeldet wird.
    ///
    /// Steht fuer den Chat schon eine Meldung, wird sie hochgezaehlt;
    /// sonst ist es die erste Ungelesene.
    pub fn planen(
        &self,
        kennung: &str,
        chat_name: &str,
        absender: &str,
        text: &str,
        kanalpfad: &str,
    ) -> (r: Meldungsplan)
        requires
            self.offen().contains_key(kennung@) ==> self.offen()[kennung@].1 < u32::MAX,
        ensures
            r.titel@ == meldungstitel(kennung@, chat_name@),
            r.koerper@ == meldungstext(absender@, text@),
            r.aktion@ == meldungsaktion(kanalpfad@),
            r.kennzeichen@ == "bruecke-"@ + kennung@,
            self.offen().contains_key(kennung@) ==> r.ungelesen == self.offen()[kennung@].1 + 1
                && r.bestehend == Some(self.offen()[kennung@].0),
            !self.offen().contains_key(kennung@) ==> r.ungelesen == 1 && r.bestehend is None,
    {
        let titel = if chat_name.is_empty() {
            text_aus(kennung)
        } else {
            text_aus(chat_name)
        };
        let koerper = if absender.is_empty() {
            text_aus(text)
        } else {
            let mut k = text_aus(absender);
            k.append(": ");
            k.append(text);
            k
        };
        let mut aktion = text_aus(CM_BUS);
        zeichen_anhaengen(&mut aktion, ' ');
        aktion.append(kanalpfad);
        zeichen_anhaengen(&mut aktion, ' ');
        aktion.append(IF_MELDUNG);
        aktion.append(" Oeffnen");
        assert(aktion@ =~= meldungsaktion(kanalpfad@));
        let mut kennzeichen = text_aus("bruecke-");
        kennzeichen.append(kennung);
        let (ungelesen, bestehend) = match self.offen.hole(&text_aus(kennung)) {
            Some(st) => (st.1 + 1, Some(st.0)),
            None => (1, None),
        };
        Meldungsplan { titel, koerper, aktion, kennzeichen, ungelesen, bestehend }
    }

    /// Nach dem Versuch, eine bestehende Meldung zu aktualisieren: gelang
    /// es, steht sie mit der neuen Zahl; sonst gibt es sie nicht mehr.
    pub fn aktualisiert(&mut self, kennung: &str, gelungen: bool, nummer: u32, ungelesen: u32)
        ensures
            final(self).benutzer_spec() == old(self).benutzer_spec(),
            gelungen ==> final(self).offen() == old(self).offen().insert(
                kennung@,
                (nummer, ungelesen),
            ),
            !gelungen ==> final(self).offen() == old(self).offen().remove(kennung@),
    {
        let mut o = Karte::neu();
        std::mem::swap(&mut o, &mut self.offen);
        if gelungen {
            o.setzen(text_aus(kennung), (nummer, ungelesen));
        } else {
            o.entfernen(&text_aus(kennung));
        }
        self.offen = o;
        proof {
            if gelungen {
                assert(self.offen() =~= old(self).offen().insert(kennung@, (nummer, ungelesen)));
            } else {
                assert(self.offen() =~= old(self).offen().remove(kennung@));
            }
        }
    }

    /// Nach dem Absetzen einer neuen Meldung: mit ihrer Nummer steht sie
    /// als eine Ungelesene; ohne Nummer steht nichts.
    pub fn hinzugefuegt(&mut self, kennung: &str, nummer: Option<u32>)
        ensures
            final(self).benutzer_spec() == old(self).benutzer_spec(),
            match nummer {
                Some(n) => final(self).offen() == old(self).offen().insert(kennung@, (n, 1u32)),
                None => final(self).offen() == old(self).offen(),
            },
    {
        match nummer {
            Some(n) => {
                let mut o = Karte::neu();
                std::mem::swap(&mut o, &mut self.offen);
                o.setzen(text_aus(kennung), (n, 1));
                self.offen = o;
                assert(self.offen() =~= old(self).offen().insert(kennung@, (n, 1u32)));
            },
            None => {},
        }
    }

    /// Nimmt die Meldung eines gelesenen Chats weg; ihre Nummer, wenn es
    /// eine gab.
    pub fn schliessen(&mut self, kennung: &str) -> (r: Option<u32>)
        ensures
            final(self).benutzer_spec() == old(self).benutzer_spec(),
            final(self).offen() == old(self).offen().remove(kennung@),
            old(self).offen().contains_key(kennung@) ==> r == Some(
                old(self).offen()[kennung@].0,
            ),
            !old(self).offen().contains_key(kennung@) ==> r is None,
    {
        let k = text_aus(kennung);
        let r = match self.offen.hole(&k) {
            Some(st) => Some(st.0),
            None => None,
        };
        let mut o = Karte::neu();
        std::mem::swap(&mut o, &mut self.offen);
        o.entfernen(&k);
        self.offen = o;
        assert(self.offen() =~= old(self).offen().remove(kennung@));
        r
    }
}

} // verus!
