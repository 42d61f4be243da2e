//! Die HTTP-Seite: der Draht zu den Diensten von WhatsApp und Signal.
//!
//! Beide Dienste bieten dieselbe HTTP-Schnittstelle auf 127.0.0.1. Hier
//! steht, was sich daran berechnen laesst: welche Ports probiert werden,
//! wie eine Anfrage aussieht und wie eine Antwort gelesen wird.
use vstd::prelude::*;

use vstd::string::StringSliceAdditionalSpecFns;

use crate::text::{
    dezimal_mit_vorzeichen, enthaelt, enthaelt_teil, erste_stelle, erstes_vorkommen, getrimmt_zwischen, gleich,
    text_aus, text_aus_zeichen, trimmen, vorkommen, zeichen_anhaengen, zeichen_von,
    ziffern_mit_vorzeichen,
};

verus! {

/// Was ein Dienst ueber einen Chat sagt.
#[derive(Clone, Debug, Default)]
pub struct Chat {
    pub jid: String,
    pub name: String,
    pub is_group: bool,
    pub last_message: String,
    pub last_time: u64,
    pub from_me: bool,
}

/// Eine Nachricht aus dem Verlauf eines Chats.
#[derive(Clone, Debug, Default)]
pub struct Nachricht {
    pub id: String,
    pub chat_jid: String,
    pub sender: String,
    pub text: String,
    pub from_me: bool,
    pub timestamp: u64,
    pub media_type: String,
    pub file_name: String,
}

/// Ein Byte, das in einem Abfrageparameter fuer sich selbst stehen darf.
pub open spec fn unreserviert(b: u8) -> bool {
    (65 <= b <= 90) || (97 <= b <= 122) || (48 <= b <= 57) || b == 45 || b == 95 || b == 46 || b
        == 126
}

/// Eine Hexziffer in Grossbuchstaben.
pub open spec fn hexziffer(d: nat) -> char {
    if d < 10 {
        (48 + d) as char
    } else {
        (55 + d) as char
    }
}

/// Wie ein Byte kodiert wird: es selbst, oder "%" und zwei Hexziffern.
pub open spec fn byte_kodiert(b: u8) -> Seq<char> {
    if unreserviert(b) {
        seq![b as char]
    } else {
        seq!['%', hexziffer((b / 16) as nat), hexziffer((b % 16) as nat)]
    }
}

/// Die Prozentkodierung einer Bytefolge.
pub open spec fn kodiert(bs: Seq<u8>) -> Seq<char>
    decreases bs.len(),
{
    if bs.len() == 0 {
        Seq::empty()
    } else {
        kodiert(bs.drop_last()) + byte_kodiert(bs.last())
    }
}

fn hex(d: u8) -> (c: char)
    requires
        d < 16,
    ensures
        c == hexziffer(d as nat),
{
    if d < 10 {
        (48u8 + d) as char
    } else {
        (55u8 + d) as char
    }
}

/// Prozentkodierung fuer einen Abfrageparameter.
///
/// Buchstaben, Ziffern und `-_.~` bleiben; jedes andere Byte der UTF-8-Form
/// wird zu "%" und zwei Hexziffern in Grossbuchstaben.
pub fn kodieren(s: &str) -> (r: String)
    ensures
        r@ == kodiert(s.spec_bytes()),
{
    let b = s.as_bytes();
    let mut aus = String::new();
    let mut i: usize = 0;
    while i < b.len()
        invariant
            i <= b@.len(),
            b@ == s.spec_bytes(),
            aus@ == kodiert(b@.subrange(0, i as int)),
        decreases b@.len() - i,
    {
        let x: u8 = b[i];
        let ghost vorher = aus@;
        if (65 <= x && x <= 90) || (97 <= x && x <= 122) || (48 <= x && x <= 57) || x == 45 || x
            == 95 || x == 46 || x == 126 {
            zeichen_anhaengen(&mut aus, x as char);
        } else {
            zeichen_anhaengen(&mut aus, '%');
            zeichen_anhaengen(&mut aus, hex(x / 16));
            zeichen_anhaengen(&mut aus, hex(x % 16));
        }
        proof {
            let t = b@.subrange(0, i + 1);
            assert(t.drop_last() =~= b@.subrange(0, i as int));
            assert(aus@ =~= vorher + byte_kodiert(x));
        }
        i = i + 1;
    }
    assert(b@.subrange(0, b@.len() as int) =~= b@);
    aus
}

/// Der Wert einer Hexziffer in Grossbuchstaben.
pub open spec fn hexwert(c: char) -> int {
    if '0' <= c <= '9' {
        c as int - 48
    } else {
        c as int - 55
    }
}

/// Prozentdekodierung: "%" mit zwei Hexziffern wird das Byte, jedes andere
/// Zeichen sein eigenes Byte.
pub open spec fn dekodiert(t: Seq<char>) -> Seq<u8>
    decreases t.len(),
{
    if t.len() == 0 {
        Seq::empty()
    } else if t[0] == '%' && t.len() >= 3 {
        seq![(hexwert(t[1]) * 16 + hexwert(t[2])) as u8] + dekodiert(t.skip(3))
    } else {
        seq![t[0] as u8] + dekodiert(t.skip(1))
    }
}

proof fn kodiert_vorne(b: u8, r: Seq<u8>)
    ensures
        kodiert(seq![b] + r) == byte_kodiert(b) + kodiert(r),
    decreases r.len(),
{
    if r.len() == 0 {
        let s = seq![b] + r;
        assert(s.drop_last() =~= Seq::<u8>::empty());
        assert(s.last() == b);
        assert(kodiert(s.drop_last()) =~= Seq::<char>::empty());
        assert(kodiert(s) =~= byte_kodiert(b));
        assert(kodiert(r) =~= Seq::<char>::empty());
        assert(byte_kodiert(b) + kodiert(r) =~= byte_kodiert(b));
    } else {
        let s = seq![b] + r;
        assert(s.drop_last() =~= seq![b] + r.drop_last());
        assert(s.last() == r.last());
        kodiert_vorne(b, r.drop_last());
        assert(kodiert(s) =~= byte_kodiert(b) + kodiert(r));
    }
}

proof fn byte_zurueck(b: u8, t: Seq<char>)
    ensures
        dekodiert(byte_kodiert(b) + t) == seq![b] + dekodiert(t),
{
    let u = byte_kodiert(b) + t;
    if unreserviert(b) {
        assert(u[0] == b as char);
        assert(u.skip(1) =~= t);
    } else {
        let hi = (b / 16) as nat;
        let lo = (b % 16) as nat;
        assert(u[0] == '%');
        assert(u[1] == hexziffer(hi));
        assert(u[2] == hexziffer(lo));
        assert(hexwert(hexziffer(hi)) == hi);
        assert(hexwert(hexziffer(lo)) == lo);
        assert(u.skip(3) =~= t);
        assert(hi * 16 + lo == b);
    }
}

/// Wie viele Bytes einer Folge als "%" und zwei Hexziffern kodiert werden.
pub open spec fn anzahl_kodiert(bs: Seq<u8>) -> nat
    decreases bs.len(),
{
    if bs.len() == 0 {
        0
    } else {
        anzahl_kodiert(bs.drop_last()) + if unreserviert(bs.last()) {
            0nat
        } else {
            1nat
        }
    }
}

proof fn kodiert_laenge(bs: Seq<u8>)
    ensures
        kodiert(bs).len() == bs.len() + 2 * anzahl_kodiert(bs),
    decreases bs.len(),
{
    if bs.len() > 0 {
        kodiert_laenge(bs.drop_last());
    }
}

/// Prozentkodierung ist umkehrbar: wer das Ergebnis dekodiert, bekommt die
/// Bytes zurueck, nichts doppelt kodiert. Jedes kodierte Byte wird zu drei
/// Zeichen, jedes andere zu einem.
pub proof fn kodieren_ist_umkehrbar(bs: Seq<u8>)
    ensures
        dekodiert(kodiert(bs)) == bs,
        kodiert(bs).len() == bs.len() + 2 * anzahl_kodiert(bs),
    decreases bs.len(),
{
    kodiert_laenge(bs);
    if bs.len() > 0 {
        let rest = bs.skip(1);
        assert(bs =~= seq![bs[0]] + rest);
        kodiert_vorne(bs[0], rest);
        byte_zurueck(bs[0], kodiert(rest));
        kodieren_ist_umkehrbar(rest);
    }
}

/// Eine Hexziffer, wie sie nach "%" steht.
pub open spec fn ist_hexzeichen(c: char) -> bool {
    ('0' <= c <= '9') || ('A' <= c <= 'F')
}

/// Ein Zeichen, das in einem Abfrageparameter fuer sich stehen darf.
pub open spec fn ist_sicheres_zeichen(c: char) -> bool {
    ||| ('A' <= c <= 'Z')
    ||| ('a' <= c <= 'z')
    ||| ('0' <= c <= '9')
    ||| c == '-'
    ||| c == '_'
    ||| c == '.'
    ||| c == '~'
}

proof fn byte_kodiert_ist_sicher(b: u8)
    ensures
        ({
            let r = byte_kodiert(b);
            forall|i: int|
                0 <= i < r.len() ==> ist_sicheres_zeichen(#[trigger] r[i]) || (r[i] == '%' && i + 2
                    < r.len() && ist_hexzeichen(r[i + 1]) && ist_hexzeichen(r[i + 2]))
        }),
        unreserviert(b) ==> byte_kodiert(b) == seq![b as char],
        !unreserviert(b) ==> byte_kodiert(b).len() == 3 && byte_kodiert(b)[0] == '%',
{
    let r = byte_kodiert(b);
    if unreserviert(b) {
        assert((b as char) as int == b as int);
        assert(ist_sicheres_zeichen(r[0]));
    } else {
        let hi = (b / 16) as nat;
        let lo = (b % 16) as nat;
        assert(hi < 16 && lo < 16);
        assert(ist_hexzeichen(hexziffer(hi)));
        assert(ist_hexzeichen(hexziffer(lo)));
        assert(ist_hexzeichen(r[1]) && ist_sicheres_zeichen(r[1]));
        assert(ist_hexzeichen(r[2]) && ist_sicheres_zeichen(r[2]));
    }
}

/// Die Prozentkodierung laesst nur Sicheres stehen: jedes Zeichen ist ein
/// Buchstabe, eine Ziffer oder eines von `-_.~`, oder ein "%", dem zwei
/// Hexziffern folgen. Ein "&", "=", "#", "%" oder Leerzeichen der Eingabe
/// steht nie unkodiert da und kann den Parameter nicht teilen. Buchstaben,
/// Ziffern und `-_.~` bleiben, wie sie sind; jedes andere Byte wird drei
/// Zeichen, die mit "%" beginnen.
pub proof fn kodiertes_ist_sicher(bs: Seq<u8>)
    ensures
        forall|i: int|
            0 <= i < kodiert(bs).len() ==> ist_sicheres_zeichen(#[trigger] kodiert(bs)[i]) || (
            kodiert(bs)[i] == '%' && i + 2 < kodiert(bs).len() && ist_hexzeichen(kodiert(bs)[i + 1])
                && ist_hexzeichen(kodiert(bs)[i + 2])),
        forall|i: int| 0 <= i < kodiert(bs).len() ==> #[trigger] kodiert(bs)[i] != '&'
            && kodiert(bs)[i] != '=' && kodiert(bs)[i] != '#' && kodiert(bs)[i] != ' ',
        forall|b: u8| #[trigger]
            ist_sicheres_zeichen(b as char) && b < 128 ==> byte_kodiert(b) == seq![b as char],
        forall|b: u8| #[trigger]
            byte_kodiert(b)[0] == '%' <==> !ist_sicheres_zeichen(b as char) || b >= 128,
    decreases bs.len(),
{
    if bs.len() > 0 {
        kodiertes_ist_sicher(bs.drop_last());
        let v = kodiert(bs.drop_last());
        let w = byte_kodiert(bs.last());
        byte_kodiert_ist_sicher(bs.last());
        let r = kodiert(bs);
        assert(r =~= v + w);
        assert forall|i: int|
            0 <= i < r.len() implies ist_sicheres_zeichen(#[trigger] r[i]) || (r[i] == '%' && i + 2
                < r.len() && ist_hexzeichen(r[i + 1]) && ist_hexzeichen(r[i + 2])) by {
            if i < v.len() {
                assert(r[i] == v[i]);
                if !ist_sicheres_zeichen(v[i]) {
                    assert(r[i + 1] == v[i + 1]);
                    assert(r[i + 2] == v[i + 2]);
                }
            } else {
                assert(r[i] == w[i - v.len()]);
                if !ist_sicheres_zeichen(w[i - v.len()]) {
                    assert(r[i + 1] == w[i + 1 - v.len()]);
                    assert(r[i + 2] == w[i + 2 - v.len()]);
                }
            }
        }
    }
    assert forall|b: u8| #[trigger]
        byte_kodiert(b)[0] == '%' <==> !ist_sicheres_zeichen(b as char) || b >= 128 by {
        byte_kodiert_ist_sicher(b);
        assert((b as char) as int == b as int);
    }
    assert forall|b: u8| #[trigger]
        ist_sicheres_zeichen(b as char) && b < 128 implies byte_kodiert(b) == seq![b as char] by {
        byte_kodiert_ist_sicher(b);
        assert((b as char) as int == b as int);
    }
}

/// Ein Dienst, erreichbar auf einem von wenigen Ports.
pub struct Dienst {
    pub protokoll: &'static str,
    ports: [u16; 5],
    port: u16,
}

impl Dienst {
    /// Die Ports, auf denen der Dienst liegen kann.
    pub closed spec fn ports_spec(&self) -> Seq<u16> {
        self.ports@
    }

    /// Das Protokoll des Dienstes.
    pub closed spec fn protokoll_spec(&self) -> Seq<char> {
        self.protokoll@
    }

    /// Der Port, auf dem er zuletzt gefunden wurde; 0, wenn keiner.
    pub closed spec fn port_spec(&self) -> u16 {
        self.port
    }

    /// Der Dienst eines Protokolls: WhatsApp auf 8085 bis 8089, Signal auf
    /// 8095 bis 8099. Andere Protokolle haben keinen.
    pub fn neu(protokoll: &'static str) -> (r: Option<Self>)
        ensures
            protokoll@ == "whatsapp"@ ==> r is Some && r->0.ports_spec() == seq![
                8085u16,
                8086,
                8087,
                8088,
                8089,
            ],
            protokoll@ == "signal"@ ==> r is Some && r->0.ports_spec() == seq![
                8095u16,
                8096,
                8097,
                8098,
                8099,
            ],
            protokoll@ != "whatsapp"@ && protokoll@ != "signal"@ ==> r is None,
            r is Some ==> r->0.port_spec() == 0 && r->0.protokoll_spec() == protokoll@,
    {
        proof {
            reveal_strlit("whatsapp");
            reveal_strlit("signal");
            assert("whatsapp"@.len() != "signal"@.len());
        }
        let ports: [u16; 5] = if gleich(protokoll, "whatsapp") {
            [8085, 8086, 8087, 8088, 8089]
        } else if gleich(protokoll, "signal") {
            [8095, 8096, 8097, 8098, 8099]
        } else {
            return None;
        };
        let r = Dienst { protokoll, ports, port: 0 };
        assert(r.ports_spec() =~= if protokoll@ == "whatsapp"@ {
            seq![8085u16, 8086, 8087, 8088, 8089]
        } else {
            seq![8095u16, 8096, 8097, 8098, 8099]
        });
        Some(r)
    }

    /// Der Port, auf dem der Dienst zuletzt gefunden wurde; 0, wenn keiner.
    pub fn port(&self) -> (r: u16)
        ensures
            r == self.port_spec(),
    {
        self.port
    }

    /// Merkt sich den Port, auf dem als naechstes gefragt wird.
    pub fn port_setzen(&mut self, p: u16)
        ensures
            final(self).port_spec() == p,
            final(self).ports_spec() == old(self).ports_spec(),
            final(self).protokoll_spec() == old(self).protokoll_spec(),
    {
        self.port = p;
    }

    /// In welcher Reihe die Ports probiert werden: der zuletzt gefundene
    /// zuerst, dann alle der Reihe nach.
    pub fn suchreihe(&self) -> (r: Vec<u16>)
        ensures
            r@ == if self.port_spec() != 0 {
                seq![self.port_spec()] + self.ports_spec()
            } else {
                self.ports_spec()
            },
    {
        let mut r: Vec<u16> = Vec::new();
        if self.port != 0 {
            r.push(self.port);
        }
        let ghost anfang = r@;
        let mut i: usize = 0;
        while i < 5
            invariant
                i <= 5,
                r@ == anfang + self.ports@.subrange(0, i as int),
            decreases 5 - i,
        {
            r.push(self.ports[i]);
            assert(r@ =~= anfang + self.ports@.subrange(0, i + 1));
            i = i + 1;
        }
        assert(self.ports@.subrange(0, 5) =~= self.ports@);
        r
    }
}

/// Die Anfrage: GET auf 127.0.0.1, ohne Umleitungen, ohne Anmeldung; der
/// Dienst schliesst danach die Verbindung.
pub open spec fn anfrage_spec(pfad: Seq<char>) -> Seq<char> {
    "GET "@ + pfad + " HTTP/1.1\r\nHost: 127.0.0.1\r\nConnection: close\r\n\r\n"@
}

/// Die Anfrage auf einen Pfad.
pub fn anfrage(pfad: &str) -> (r: String)
    ensures
        r@ == anfrage_spec(pfad@),
{
    let mut r = text_aus("GET ");
    r.append(pfad);
    r.append(" HTTP/1.1\r\nHost: 127.0.0.1\r\nConnection: close\r\n\r\n");
    r
}

/// Die erste Zeile eines Textes, ohne ihr Zeilenende (wie `str::lines`);
/// leer, wenn der Text leer ist.
pub open spec fn erste_zeile(k: Seq<char>) -> Seq<char> {
    match erstes_vorkommen(k, seq!['\n']) {
        None => k,
        Some(j) => if j > 0 && k[j - 1] == '\r' {
            k.subrange(0, j - 1)
        } else {
            k.subrange(0, j)
        },
    }
}

/// Was eine Antwort ergibt: der Koerper, wenn die Statuszeile " 200 "
/// enthaelt; sonst ein Fehler mit der Statuszeile.
pub open spec fn antwort_spec(t: Seq<char>) -> Result<Seq<char>, Seq<char>> {
    match erstes_vorkommen(t, "\r\n\r\n"@) {
        None => Err("Antwort ohne Kopf"@),
        Some(i) => {
            let erste = erste_zeile(t.subrange(0, i));
            if enthaelt_teil(erste, " 200 "@) {
                Ok(t.subrange(i + 4, t.len() as int))
            } else {
                Err("HTTP: "@ + erste)
            }
        },
    }
}

/// Liest eine HTTP-Antwort: Kopf und Koerper trennt die erste Leerzeile.
pub fn antwort_lesen(text: &str) -> (r: Result<String, String>)
    ensures
        match r {
            Ok(k) => antwort_spec(text@) == Ok::<Seq<char>, Seq<char>>(k@),
            Err(e) => antwort_spec(text@) == Err::<Seq<char>, Seq<char>>(e@),
        },
{
    let z = zeichen_von(text);
    let trenner = zeichen_von("\r\n\r\n");
    proof {
        reveal_strlit("\r\n\r\n");
    }
    let i = match vorkommen(&z, &trenner) {
        Some(i) => i,
        None => {
            return Err(text_aus("Antwort ohne Kopf"));
        },
    };
    assert(erste_stelle(z@, trenner@, i as int));
    assert(trenner@.len() == 4);
    let mut nl: Vec<char> = Vec::new();
    nl.push('\n');
    let kopf = text_aus_zeichen(&z, 0, i);
    let kz = zeichen_von(kopf.as_str());
    let ende = match vorkommen(&kz, &nl) {
        None => i,
        Some(j) => if j > 0 && kz[j - 1] == '\r' {
            j - 1
        } else {
            j
        },
    };
    assert(nl@ =~= seq!['\n']);
    let erste = text_aus_zeichen(&kz, 0, ende);
    assert(erste@ == erste_zeile(z@.subrange(0, i as int)));
    if enthaelt(erste.as_str(), " 200 ") {
        let n = z.len();
        assert(i + 4 <= n);
        Ok(text_aus_zeichen(&z, i + 4, n))
    } else {
        let mut e = text_aus("HTTP: ");
        e.append(erste.as_str());
        Err(e)
    }
}

/// Die Antwort auf eine Sendung: das WhatsApp-Backend antwortet mit dem
/// blanken Wort "ok", das von Signal mit JSON, in dem "ok" vorkommt.
/// Beides gilt; sonst ist der getrimmte Text der Fehler.
pub fn sendeantwort(roh: &str) -> (r: Result<(), String>)
    ensures
        exists|a: int, b: int|
            getrimmt_zwischen(roh@, a, b) && {
                let t = roh@.subrange(a, b);
                match r {
                    Ok(_) => t == "ok"@ || enthaelt_teil(t, "\"ok\""@),
                    Err(e) => t != "ok"@ && !enthaelt_teil(t, "\"ok\""@) && e@ == t,
                }
            },
{
    let t = trimmen(roh);
    if gleich(t.as_str(), "ok") || enthaelt(t.as_str(), "\"ok\"") {
        Ok(())
    } else {
        Err(t)
    }
}

/// Der Pfad der Chatliste.
pub fn pfad_chats() -> (r: String)
    ensures
        r@ == "/chats"@,
{
    text_aus("/chats")
}

/// Der Pfad des Status; er sagt auch die eigene Nummer.
pub fn pfad_status() -> (r: String)
    ensures
        r@ == "/status"@,
{
    text_aus("/status")
}

/// Der Pfad des Verlaufs eines Chats.
pub fn pfad_nachrichten(jid: &str) -> (r: String)
    ensures
        r@ == "/messages?jid="@ + kodiert(jid.spec_bytes()),
{
    let mut r = text_aus("/messages?jid=");
    r.append(kodieren(jid).as_str());
    r
}

/// Der Pfad einer Sendung.
pub fn pfad_senden(an: &str, text: &str) -> (r: String)
    ensures
        r@ == "/send?to="@ + kodiert(an.spec_bytes()) + "&text="@ + kodiert(text.spec_bytes()),
{
    let mut r = text_aus("/send?to=");
    r.append(kodieren(an).as_str());
    r.append("&text=");
    r.append(kodieren(text).as_str());
    r
}

/// Der Pfad der langen Abfrage: kehrt zurueck, sobald sich seit der
/// Folgenummer etwas getan hat.
pub fn pfad_ereignisse(seit: i64) -> (r: String)
    ensures
        r@ == "/events?since="@ + ziffern_mit_vorzeichen(seit as int),
{
    let mut r = text_aus("/events?since=");
    r.append(dezimal_mit_vorzeichen(seit).as_str());
    r
}

} // verus!
