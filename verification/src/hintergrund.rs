//! Der Hintergrund eines Protokolls: auf beiden Wegen dasselbe Bild.
//!
//! Nach aussen gibt es nur: Chatliste, eigene Kennung, senden, und ein
//! Strom neuer Nachrichten. Hier stehen die Entscheidungen dazwischen:
//! welche Chats neu sind, welche Nachrichten schon ausgeliefert wurden,
//! wer in einer Gruppe spricht.
use vstd::prelude::*;

use crate::dienst::{Chat, Nachricht};
use crate::karte::{aus_folge, Karte};
use crate::socketdienst::{eines_von, text_oder_leer, wert_als_text};
use crate::text::{
    dezimal, dezimal_mit_vorzeichen, ganzzahl_gelesen, ganzzahl_lesen, gleich, text_aus,
    zahl_gelesen, zahl_lesen, zeichen_anhaengen, ziffern, ziffern_mit_vorzeichen,
};
use crate::json::{json_gelesen, json_lesen};
use crate::wert::{erstes_feld, Wert};

verus! {

/// Eine Nachricht, wie die Bruecke sie weiterreicht.
pub struct NeueNachricht {
    pub chat: String,
    pub chat_name: String,
    /// Anzeigename des Absenders; leer im Einzelchat.
    pub absender: String,
    pub text: String,
    pub zeit: u64,
}

/// Eine weitergereichte Nachricht als Mathematik.
pub struct NeueNachrichtSicht {
    pub chat: Seq<char>,
    pub chat_name: Seq<char>,
    pub absender: Seq<char>,
    pub text: Seq<char>,
    pub zeit: u64,
}

impl View for NeueNachricht {
    type V = NeueNachrichtSicht;

    open spec fn view(&self) -> NeueNachrichtSicht {
        NeueNachrichtSicht {
            chat: self.chat@,
            chat_name: self.chat_name@,
            absender: self.absender@,
            text: self.text@,
            zeit: self.zeit,
        }
    }
}

/// Der Wert zu einem Schluessel, sonst leer.
pub open spec fn oder_leer(m: Map<Seq<char>, Seq<char>>, k: Seq<char>) -> Seq<char> {
    if m.contains_key(k) {
        m[k]
    } else {
        Seq::empty()
    }
}

fn hole_oder_leer(m: &Karte<String, String>, k: &str) -> (r: String)
    ensures
        r@ == oder_leer(m.tiefe_sicht(), k@),
{
    match m.hole(&text_aus(k)) {
        Some(v) => v.clone(),
        None => String::new(),
    }
}

/// Eine Zeit in Sekunden: Werte ueber 9999999999 sind Millisekunden.
pub open spec fn in_sekunden(z: u64) -> u64 {
    if z > 9_999_999_999 {
        (z / 1000) as u64
    } else {
        z
    }
}

/// Was aus einer Daemon-Nachricht weitergereicht wird.
pub open spec fn socket_nachricht(
    m: Map<Seq<char>, Seq<char>>,
    namen: Map<Seq<char>, Seq<char>>,
) -> NeueNachrichtSicht {
    let chat = oder_leer(m, "chat"@);
    let kennung = oder_leer(m, "sender"@);
    let n = oder_leer(m, "sender_name"@);
    NeueNachrichtSicht {
        chat: chat,
        chat_name: oder_leer(m, "chat_name"@),
        absender: if kennung == chat || kennung.len() == 0 {
            Seq::empty()
        } else if n.len() != 0 {
            n
        } else if namen.contains_key(kennung) {
            namen[kennung]
        } else {
            kennung
        },
        text: oder_leer(m, "text"@),
        zeit: match zahl_gelesen(oder_leer(m, "zeit"@)) {
            Some(z) => in_sekunden(z),
            None => 0,
        },
    }
}

/// Baut aus den Feldern einer Daemon-Nachricht die weitergereichte.
///
/// In einer Gruppe gehoert der Absender ueber die Nachricht; im
/// Einzelchat, wo er der Chat selbst ist, bleibt er leer.
pub fn socket_nachricht_bilden(m: &Karte<String, String>, namen: &Karte<String, String>) -> (r:
    NeueNachricht)
    ensures
        r@ == socket_nachricht(m.tiefe_sicht(), namen.tiefe_sicht()),
{
    let chat = hole_oder_leer(m, "chat");
    let kennung = hole_oder_leer(m, "sender");
    let absender = if kennung == chat || kennung.as_str().is_empty() {
        String::new()
    } else {
        let n = hole_oder_leer(m, "sender_name");
        if n.as_str().is_empty() {
            match namen.hole(&kennung) {
                Some(x) => x.clone(),
                None => kennung,
            }
        } else {
            n
        }
    };
    let zeittext = hole_oder_leer(m, "zeit");
    let zeit: u64 = match zahl_lesen(zeittext.as_str()) {
        Some(z) => if z > 9_999_999_999 {
            z / 1000
        } else {
            z
        },
        None => 0,
    };
    NeueNachricht {
        chat,
        chat_name: hole_oder_leer(m, "chat_name"),
        absender,
        text: hole_oder_leer(m, "text"),
        zeit,
    }
}

/// Die Sicht einer Folge weitergereichter Nachrichten.
pub open spec fn sichten(v: Seq<NeueNachricht>) -> Seq<NeueNachrichtSicht> {
    v.map_values(|n: NeueNachricht| n@)
}

/// Die Kennung einer Nachricht: ihre eigene, sonst "<chat>:<zeit>".
pub open spec fn nachrichten_kennung(c: Chat, m: Nachricht) -> Seq<char> {
    if m.id@.len() == 0 {
        c.jid@ + seq![':'] + ziffern(m.timestamp as nat)
    } else {
        m.id@
    }
}

/// Der Text einer Nachricht; ohne Text die Medienart in Klammern; ohne
/// beides nichts.
pub open spec fn nachrichten_text(m: Nachricht) -> Option<Seq<char>> {
    if m.text@.len() == 0 {
        if m.media_type@.len() == 0 {
            None
        } else {
            Some(seq!['['] + m.media_type@ + seq![']'])
        }
    } else {
        Some(m.text@)
    }
}

/// Der Titel eines Chats: sein Name, sonst seine Kennung.
pub open spec fn chat_titel(c: Chat) -> Seq<char> {
    if c.name@.len() == 0 {
        c.jid@
    } else {
        c.name@
    }
}

/// Der Absender, wie er in einer Gruppe ueber der Nachricht steht.
///
/// Gruppen erkennt man am Merkmal des Dienstes, nicht an der Laenge der
/// Kennung.
pub open spec fn gruppen_absender(c: Chat, m: Nachricht, namen: Map<Seq<char>, Seq<char>>) -> Seq<
    char,
> {
    if c.is_group && m.sender@.len() != 0 {
        if namen.contains_key(m.sender@) {
            namen[m.sender@]
        } else {
            m.sender@
        }
    } else {
        Seq::empty()
    }
}

/// Die letzten vierzig Nachrichten eines Verlaufs, in ihrer Reihenfolge.
pub open spec fn letzte_vierzig(v: Seq<Nachricht>) -> Seq<Nachricht> {
    if v.len() > 40 {
        v.subrange(v.len() - 40, v.len() as int)
    } else {
        v
    }
}

/// Was aus einem Verlauf neu ist, und welche Kennungen danach gesehen sind.
pub open spec fn auswertung(
    c: Chat,
    marke: u64,
    ms: Seq<Nachricht>,
    namen: Map<Seq<char>, Seq<char>>,
    gesehen: Set<Seq<char>>,
) -> (Seq<NeueNachrichtSicht>, Set<Seq<char>>)
    decreases ms.len(),
{
    if ms.len() == 0 {
        (Seq::empty(), gesehen)
    } else {
        let (aus, g) = auswertung(c, marke, ms.drop_last(), namen, gesehen);
        let m = ms.last();
        if m.timestamp <= marke || m.from_me {
            (aus, g)
        } else {
            let k = nachrichten_kennung(c, m);
            if g.contains(k) {
                (aus, g)
            } else {
                match nachrichten_text(m) {
                    None => (aus, g.insert(k)),
                    Some(t) => (
                        aus.push(
                            NeueNachrichtSicht {
                                chat: c.jid@,
                                chat_name: chat_titel(c),
                                absender: gruppen_absender(c, m, namen),
                                text: t,
                                zeit: m.timestamp,
                            },
                        ),
                        g.insert(k),
                    ),
                }
            }
        }
    }
}

/// Die Marke eines Chats: der zuletzt gesehene Stand, sonst 0.
pub open spec fn marke(stand: Map<Seq<char>, u64>, jid: Seq<char>) -> u64 {
    if stand.contains_key(jid) {
        stand[jid]
    } else {
        0
    }
}

/// Die Marken nach einem Erstlauf: jeder Chat mit seinem letzten Stand.
pub open spec fn marken_setzen(stand: Map<Seq<char>, u64>, chats: Seq<Chat>) -> Map<Seq<char>, u64>
    decreases chats.len(),
{
    if chats.len() == 0 {
        stand
    } else {
        marken_setzen(stand, chats.drop_last()).insert(chats.last().jid@, chats.last().last_time)
    }
}

/// `i` ist die erste Stelle mit der kleinsten Zeit.
pub open spec fn ist_erste_kleinste(a: Seq<NeueNachrichtSicht>, i: int) -> bool {
    &&& 0 <= i < a.len()
    &&& forall|j: int| 0 <= j < a.len() ==> a[i].zeit <= #[trigger] a[j].zeit
    &&& forall|j: int| 0 <= j < i ==> #[trigger] a[j].zeit > a[i].zeit
}

/// Die erste Stelle mit der kleinsten Zeit.
pub open spec fn erste_kleinste(a: Seq<NeueNachrichtSicht>) -> int {
    choose|i: int| #[trigger] ist_erste_kleinste(a, i)
}

/// Stabil nach Zeit geordnet: immer die frueheste der kleinsten zuerst.
pub open spec fn nach_zeit(a: Seq<NeueNachrichtSicht>) -> Seq<NeueNachrichtSicht>
    decreases a.len(),
{
    if a.len() == 0 {
        Seq::empty()
    } else {
        let i = erste_kleinste(a);
        if 0 <= i < a.len() {
            seq![a[i]] + nach_zeit(a.remove(i))
        } else {
            Seq::empty()
        }
    }
}

/// Was die HTTP-Seite zwischen zwei Abfragen weiss.
pub struct HttpSicht {
    /// Zuletzt gesehener Stand je Chat.
    pub stand: Map<Seq<char>, u64>,
    /// Schon ausgelieferte Nachrichten.
    pub gesehen: Set<Seq<char>>,
    /// Die Folgenummer des letzten Ereignisses.
    pub folge: i64,
    /// Ob der Erstlauf vorbei ist.
    pub eingerichtet: bool,
}

/// Der Stand der HTTP-Seite.
pub struct HttpStand {
    stand: Karte<String, u64>,
    gesehen: Karte<String, ()>,
    folge: i64,
    eingerichtet: bool,
}

impl View for HttpStand {
    type V = HttpSicht;

    closed spec fn view(&self) -> HttpSicht {
        HttpSicht {
            stand: self.stand.tiefe_sicht(),
            gesehen: self.gesehen@.dom(),
            folge: self.folge,
            eingerichtet: self.eingerichtet,
        }
    }
}

impl HttpStand {
    /// Die gesehenen Kennungen sind endlich viele.
    #[verifier::type_invariant]
    spec fn endlich(self) -> bool {
        self.gesehen@.dom().finite()
    }

    /// Noch nichts gesehen, noch kein Erstlauf.
    pub fn neu() -> (r: Self)
        ensures
            r@.stand == Map::<Seq<char>, u64>::empty(),
            r@.gesehen == Set::<Seq<char>>::empty(),
            r@.folge == -1,
            !r@.eingerichtet,
    {
        let r = HttpStand { stand: Karte::neu(), gesehen: Karte::neu(), folge: -1, eingerichtet: false };
        assert(r@.stand =~= Map::<Seq<char>, u64>::empty());
        assert(r@.gesehen =~= Set::<Seq<char>>::empty());
        r
    }

    /// Die Folgenummer, ab der gefragt wird.
    pub fn folge(&self) -> (r: i64)
        ensures
            r == self@.folge,
    {
        self.folge
    }

    /// Nimmt die Antwort der langen Abfrage; wahr, wenn sich etwas getan hat.
    pub fn ereignis_nehmen(&mut self, neu: i64) -> (r: bool)
        ensures
            r == (neu != old(self)@.folge),
            final(self)@ == (HttpSicht { folge: neu, ..old(self)@ }),
    {
        proof {
            use_type_invariant(&*self);
        }
        let r = neu != self.folge;
        self.folge = neu;
        r
    }

    /// Beim ersten Lauf nur Marken setzen: der Dienst haelt den ganzen
    /// Verlauf vor, und ohne diese Sperre kippte er beim ersten Verbinden
    /// vollstaendig in die Nachrichten-App. Wahr, wenn es der Erstlauf war.
    pub fn einrichten(&mut self, chats: &Vec<Chat>) -> (r: bool)
        ensures
            r == !old(self)@.eingerichtet,
            old(self)@.eingerichtet ==> final(self)@ == old(self)@,
            !old(self)@.eingerichtet ==> final(self)@ == (HttpSicht {
                stand: marken_setzen(old(self)@.stand, chats@),
                eingerichtet: true,
                ..old(self)@
            }),
    {
        proof {
            use_type_invariant(&*self);
        }
        if self.eingerichtet {
            return false;
        }
        let ghost alt = self@;
        let mut st = Karte::neu();
        std::mem::swap(&mut st, &mut self.stand);
        let mut i: usize = 0;
        while i < chats.len()
            invariant
                i <= chats@.len(),
                st.tiefe_sicht() == marken_setzen(alt.stand, chats@.subrange(0, i as int)),
            decreases chats@.len() - i,
        {
            st.setzen(chats[i].jid.clone(), chats[i].last_time);
            proof {
                assert(chats@.subrange(0, i + 1).drop_last() =~= chats@.subrange(0, i as int));
                assert(st.tiefe_sicht() =~= marken_setzen(alt.stand, chats@.subrange(0, i + 1)));
            }
            i = i + 1;
        }
        assert(chats@.subrange(0, chats@.len() as int) =~= chats@);
        self.stand = st;
        self.eingerichtet = true;
        true
    }

    /// Ob ein Chat seit seiner Marke Neues hat.
    pub fn zu_holen(&self, c: &Chat) -> (r: bool)
        ensures
            r == (c.last_time > marke(self@.stand, c.jid@)),
    {
        match self.stand.hole(&c.jid) {
            Some(m) => c.last_time > *m,
            None => c.last_time > 0,
        }
    }

    /// Wertet den Verlauf eines Chats aus: was neu ist, in der Reihenfolge
    /// des Verlaufs, von den letzten vierzig Nachrichten. Danach steht die
    /// Marke des Chats auf seinem letzten Stand.
    pub fn verlauf_auswerten(
        &mut self,
        c: &Chat,
        verlauf: &Vec<Nachricht>,
        namen: &Karte<String, String>,
    ) -> (r: Vec<NeueNachricht>)
        ensures
            ({
                let (aus, g) = auswertung(
                    *c,
                    marke(old(self)@.stand, c.jid@),
                    letzte_vierzig(verlauf@),
                    namen.tiefe_sicht(),
                    old(self)@.gesehen,
                );
                &&& sichten(r@) == aus
                &&& final(self)@ == (HttpSicht {
                    stand: old(self)@.stand.insert(c.jid@, c.last_time),
                    gesehen: g,
                    ..old(self)@
                })
            }),
    {
        let ghost alt = self@;
        let m0: u64 = match self.stand.hole(&c.jid) {
            Some(m) => *m,
            None => 0,
        };
        let titel = if c.name.as_str().is_empty() {
            c.jid.clone()
        } else {
            c.name.clone()
        };
        let start: usize = if verlauf.len() > 40 {
            verlauf.len() - 40
        } else {
            0
        };
        let ghost ms = letzte_vierzig(verlauf@);
        assert(ms =~= verlauf@.subrange(start as int, verlauf@.len() as int));
        let mut gesehen = Karte::neu();
        std::mem::swap(&mut gesehen, &mut self.gesehen);
        let mut aus: Vec<NeueNachricht> = Vec::new();
        let mut i: usize = start;
        while i < verlauf.len()
            invariant
                start <= i <= verlauf@.len(),
                titel@ == chat_titel(*c),
                ({
                    let (a, g) = auswertung(
                        *c,
                        m0,
                        verlauf@.subrange(start as int, i as int),
                        namen.tiefe_sicht(),
                        alt.gesehen,
                    );
                    sichten(aus@) == a && gesehen@.dom() == g
                }),
            decreases verlauf@.len() - i,
        {
            let m = &verlauf[i];
            let ghost vorher = verlauf@.subrange(start as int, i as int);
            assert(verlauf@.subrange(start as int, i + 1).drop_last() =~= vorher);
            assert(verlauf@.subrange(start as int, i + 1).last() == *m);
            if !(m.timestamp <= m0 || m.from_me) {
                let kennung = if m.id.as_str().is_empty() {
                    let mut k = c.jid.clone();
                    zeichen_anhaengen(&mut k, ':');
                    k.append(dezimal(m.timestamp).as_str());
                    assert(k@ =~= c.jid@ + seq![':'] + ziffern(m.timestamp as nat));
                    k
                } else {
                    m.id.clone()
                };
                if !gesehen.enthaelt(&kennung) {
                    gesehen.setzen(kennung, ());
                    proof {
                        assert(gesehen@.dom() =~= auswertung(
                            *c,
                            m0,
                            vorher,
                            namen.tiefe_sicht(),
                            alt.gesehen,
                        ).1.insert(nachrichten_kennung(*c, *m)));
                    }
                    let text_da = !m.text.as_str().is_empty();
                    let medien_da = !m.media_type.as_str().is_empty();
                    if text_da || medien_da {
                        let text = if text_da {
                            m.text.clone()
                        } else {
                            let mut t = String::new();
                            zeichen_anhaengen(&mut t, '[');
                            t.append(m.media_type.as_str());
                            zeichen_anhaengen(&mut t, ']');
                            assert(t@ =~= seq!['['] + m.media_type@ + seq![']']);
                            t
                        };
                        let absender = if c.is_group && !m.sender.as_str().is_empty() {
                            match namen.hole(&m.sender) {
                                Some(n) => n.clone(),
                                None => m.sender.clone(),
                            }
                        } else {
                            String::new()
                        };
                        aus.push(
                            NeueNachricht {
                                chat: c.jid.clone(),
                                chat_name: titel.clone(),
                                absender,
                                text,
                                zeit: m.timestamp,
                            },
                        );
                        proof {
                            let (a0, g0) = auswertung(
                                *c,
                                m0,
                                vorher,
                                namen.tiefe_sicht(),
                                alt.gesehen,
                            );
                            assert(sichten(aus@) =~= a0.push(aus@.last()@));
                        }
                    }
                }
            }
            i = i + 1;
        }
        assert(verlauf@.subrange(start as int, verlauf@.len() as int) =~= ms);
        proof {
            use_type_invariant(&gesehen);
            gesehen.anzahl_ist_laenge();
        }
        self.gesehen = gesehen;
        let mut st = Karte::neu();
        std::mem::swap(&mut st, &mut self.stand);
        st.setzen(c.jid.clone(), c.last_time);
        self.stand = st;
        proof {
            assert(self@.stand =~= alt.stand.insert(c.jid@, c.last_time));
        }
        aus
    }

    /// Schliesst einen Durchlauf ab: die Liste der gesehenen Kennungen
    /// wird geleert, wenn sie mehr als 4000 haelt, und die Nachrichten
    /// kommen stabil nach Zeit geordnet zurueck.
    pub fn abschliessen(&mut self, aus: Vec<NeueNachricht>) -> (r: Vec<NeueNachricht>)
        ensures
            sichten(r@) == nach_zeit(sichten(aus@)),
            final(self)@ == (HttpSicht {
                gesehen: if old(self)@.gesehen.len() > 4000 {
                    Set::<Seq<char>>::empty()
                } else {
                    old(self)@.gesehen
                },
                ..old(self)@
            }),
    {
        proof {
            use_type_invariant(&self.gesehen);
            self.gesehen.anzahl_ist_laenge();
        }
        let ghost alt = self@;
        if self.gesehen.laenge() > 4000 {
            let mut g = Karte::neu();
            std::mem::swap(&mut g, &mut self.gesehen);
            g.leeren();
            self.gesehen = g;
            assert(self@.gesehen =~= Set::<Seq<char>>::empty());
        }
        nach_zeit_ordnen(aus)
    }
}

proof fn erste_kleinste_eindeutig(a: Seq<NeueNachrichtSicht>, i: int)
    requires
        ist_erste_kleinste(a, i),
    ensures
        erste_kleinste(a) == i,
{
    let k = erste_kleinste(a);
    assert(ist_erste_kleinste(a, k));
    if k < i {
        assert(a[k].zeit > a[i].zeit);
        assert(a[i].zeit <= a[k].zeit);
    }
    if i < k {
        assert(a[i].zeit > a[k].zeit);
        assert(a[k].zeit <= a[i].zeit);
    }
}

/// Ordnet Nachrichten stabil nach Zeit: bei gleicher Zeit bleibt die
/// Reihenfolge, in der sie kamen.
pub fn nach_zeit_ordnen(v: Vec<NeueNachricht>) -> (r: Vec<NeueNachricht>)
    ensures
        sichten(r@) == nach_zeit(sichten(v@)),
{
    let mut rest = v;
    let mut aus: Vec<NeueNachricht> = Vec::new();
    let ghost ziel = nach_zeit(sichten(v@));
    while rest.len() > 0
        invariant
            sichten(aus@) + nach_zeit(sichten(rest@)) == ziel,
        decreases rest@.len(),
    {
        let mut k: usize = 0;
        let mut j: usize = 1;
        while j < rest.len()
            invariant
                0 <= k < j <= rest@.len(),
                forall|x: int| 0 <= x < j ==> rest@[k as int].zeit <= #[trigger] rest@[x].zeit,
                forall|x: int| 0 <= x < k ==> #[trigger] rest@[x].zeit > rest@[k as int].zeit,
            decreases rest@.len() - j,
        {
            if rest[j].zeit < rest[k].zeit {
                k = j;
            }
            j = j + 1;
        }
        let ghost s = sichten(rest@);
        proof {
            assert(ist_erste_kleinste(s, k as int));
            erste_kleinste_eindeutig(s, k as int);
        }
        let n = rest.remove(k);
        proof {
            assert(sichten(rest@) =~= s.remove(k as int));
            assert(nach_zeit(s) == seq![s[k as int]] + nach_zeit(s.remove(k as int)));
        }
        let ghost vor = sichten(aus@);
        aus.push(n);
        proof {
            assert(sichten(aus@) =~= vor.push(n@));
            assert(n@ == s[k as int]);
            assert(vor.push(n@) + nach_zeit(s.remove(k as int)) =~= vor + (seq![s[k as int]]
                + nach_zeit(s.remove(k as int))));
        }
    }
    aus
}

proof fn es_gibt_erste_kleinste(a: Seq<NeueNachrichtSicht>)
    requires
        a.len() > 0,
    ensures
        ist_erste_kleinste(a, erste_kleinste(a)),
    decreases a.len(),
{
    if a.len() == 1 {
        assert(ist_erste_kleinste(a, 0));
    } else {
        let d = a.drop_last();
        es_gibt_erste_kleinste(d);
        let k = erste_kleinste(d);
        let n = a.len() - 1;
        if a[n].zeit < a[k].zeit {
            assert(ist_erste_kleinste(a, n)) by {
                assert forall|j: int| 0 <= j < a.len() implies a[n].zeit <= #[trigger] a[j].zeit by {
                    if j < n {
                        assert(d[j] == a[j]);
                    }
                }
                assert forall|j: int| 0 <= j < n implies #[trigger] a[j].zeit > a[n].zeit by {
                    assert(d[j] == a[j]);
                }
            }
        } else {
            assert(ist_erste_kleinste(a, k)) by {
                assert forall|j: int| 0 <= j < a.len() implies a[k].zeit <= #[trigger] a[j].zeit by {
                    if j < n {
                        assert(d[j] == a[j]);
                    }
                }
                assert forall|j: int| 0 <= j < k implies #[trigger] a[j].zeit > a[k].zeit by {
                    assert(d[j] == a[j]);
                }
            }
        }
    }
}

/// Neue Nachrichten kommen nach Zeit geordnet, und keine geht verloren
/// oder kommt doppelt: die Ordnung ist eine Umordnung.
pub proof fn nach_zeit_ist_geordnete_umordnung(a: Seq<NeueNachrichtSicht>)
    ensures
        nach_zeit(a).to_multiset() == a.to_multiset(),
        forall|i: int, j: int|
            0 <= i < j < nach_zeit(a).len() ==> (#[trigger] nach_zeit(a)[i]).zeit <= (
            #[trigger] nach_zeit(a)[j]).zeit,
    decreases a.len(),
{
    broadcast use vstd::seq_lib::group_to_multiset_ensures;

    if a.len() == 0 {
        assert(nach_zeit(a) =~= a);
    } else {
        es_gibt_erste_kleinste(a);
        let i = erste_kleinste(a);
        let rem = a.remove(i);
        nach_zeit_ist_geordnete_umordnung(rem);
        let t = nach_zeit(rem);
        let r = nach_zeit(a);
        assert(r == seq![a[i]] + t);
        vstd::seq_lib::lemma_multiset_commutative(seq![a[i]], t);
        assert(seq![a[i]] =~= Seq::<NeueNachrichtSicht>::empty().push(a[i]));
        assert(Seq::<NeueNachrichtSicht>::empty().to_multiset() =~= vstd::multiset::Multiset::empty());
        assert(a.contains(a[i]));
        assert(r.to_multiset() =~= a.to_multiset());
        assert forall|x: int, y: int| 0 <= x < y < r.len() implies (#[trigger] r[x]).zeit <= (
        #[trigger] r[y]).zeit by {
            if x == 0 {
                let e = r[y];
                assert(e == t[y - 1]);
                assert(t.contains(e));
                assert(t.to_multiset().count(e) > 0);
                assert(rem.contains(e));
                let m = choose|m: int| 0 <= m < rem.len() && rem[m] == e;
                let ma = if m < i {
                    m
                } else {
                    m + 1
                };
                assert(a[ma] == e);
            } else {
                assert(r[x] == t[x - 1]);
                assert(r[y] == t[y - 1]);
            }
        }
    }
}

/// Ob eine Nachricht die Marke und die eigene Herkunft passiert.
pub open spec fn durchgelassen(m: Nachricht, marke: u64) -> bool {
    !(m.timestamp <= marke || m.from_me)
}

proof fn auswertung_merkt(
    c: Chat,
    marke: u64,
    ms: Seq<Nachricht>,
    namen: Map<Seq<char>, Seq<char>>,
    gesehen: Set<Seq<char>>,
)
    ensures
        gesehen.subset_of(auswertung(c, marke, ms, namen, gesehen).1),
        forall|i: int|
            0 <= i < ms.len() && durchgelassen(#[trigger] ms[i], marke) ==> auswertung(
                c,
                marke,
                ms,
                namen,
                gesehen,
            ).1.contains(nachrichten_kennung(c, ms[i])),
    decreases ms.len(),
{
    if ms.len() > 0 {
        let d = ms.drop_last();
        auswertung_merkt(c, marke, d, namen, gesehen);
        let g0 = auswertung(c, marke, d, namen, gesehen).1;
        let g1 = auswertung(c, marke, ms, namen, gesehen).1;
        assert(g0.subset_of(g1));
        assert forall|i: int| 0 <= i < ms.len() && durchgelassen(#[trigger] ms[i], marke) implies g1.contains(
            nachrichten_kennung(c, ms[i]),
        ) by {
            if i < ms.len() - 1 {
                assert(ms[i] == d[i]);
            }
        }
    }
}

proof fn schon_gesehenes_bleibt_aus(
    c: Chat,
    marke: u64,
    ms: Seq<Nachricht>,
    namen: Map<Seq<char>, Seq<char>>,
    gesehen: Set<Seq<char>>,
)
    requires
        forall|i: int|
            0 <= i < ms.len() && durchgelassen(#[trigger] ms[i], marke) ==> gesehen.contains(
                nachrichten_kennung(c, ms[i]),
            ),
    ensures
        auswertung(c, marke, ms, namen, gesehen) == (Seq::<NeueNachrichtSicht>::empty(), gesehen),
    decreases ms.len(),
{
    if ms.len() > 0 {
        let d = ms.drop_last();
        assert forall|i: int| 0 <= i < d.len() && durchgelassen(#[trigger] d[i], marke) implies gesehen.contains(
            nachrichten_kennung(c, d[i]),
        ) by {
            assert(d[i] == ms[i]);
        }
        schon_gesehenes_bleibt_aus(c, marke, d, namen, gesehen);
        let m = ms.last();
        if durchgelassen(m, marke) {
            assert(ms[ms.len() - 1] == m);
        }
    }
}

/// Keine Nachricht wird zweimal ausgeliefert: wer denselben Verlauf mit
/// den danach gesehenen Kennungen noch einmal auswertet, bekommt nichts
/// Neues, und was vorher gesehen war, bleibt gesehen.
pub proof fn keine_nachricht_doppelt(
    c: Chat,
    marke: u64,
    ms: Seq<Nachricht>,
    namen: Map<Seq<char>, Seq<char>>,
    gesehen: Set<Seq<char>>,
)
    ensures
        gesehen.subset_of(auswertung(c, marke, ms, namen, gesehen).1),
        auswertung(c, marke, ms, namen, auswertung(c, marke, ms, namen, gesehen).1).0 == Seq::<
            NeueNachrichtSicht,
        >::empty(),
{
    auswertung_merkt(c, marke, ms, namen, gesehen);
    schon_gesehenes_bleibt_aus(c, marke, ms, namen, auswertung(c, marke, ms, namen, gesehen).1);
}

/// `a` ist, was aus der Nachricht `m` des Chats `c` geliefert wird: sie ist
/// neuer als die Marke und nicht die eigene; Zeit und Text sind ihre, ohne
/// Text die Medienart in Klammern; in einer Gruppe steht ueber ihr der
/// bekannte Name des Absenders, sonst seine Kennung, im Einzelchat nichts.
pub open spec fn geliefert_aus(
    c: Chat,
    marke: u64,
    m: Nachricht,
    namen: Map<Seq<char>, Seq<char>>,
    a: NeueNachrichtSicht,
) -> bool {
    &&& m.timestamp > marke
    &&& !m.from_me
    &&& a.zeit == m.timestamp
    &&& (m.text@.len() != 0 ==> a.text == m.text@)
    &&& (m.text@.len() == 0 ==> m.media_type@.len() != 0 && a.text == seq!['['] + m.media_type@
        + seq![']'])
    &&& (c.is_group && m.sender@.len() != 0 && namen.contains_key(m.sender@) ==> a.absender
        == namen[m.sender@])
    &&& (c.is_group && m.sender@.len() != 0 && !namen.contains_key(m.sender@) ==> a.absender
        == m.sender@)
    &&& (!c.is_group || m.sender@.len() == 0 ==> a.absender.len() == 0)
}

/// `a` stammt aus einer Nachricht des Verlaufs `ms`.
pub open spec fn aus_dem_verlauf(
    c: Chat,
    marke: u64,
    ms: Seq<Nachricht>,
    namen: Map<Seq<char>, Seq<char>>,
    a: NeueNachrichtSicht,
) -> bool {
    exists|j: int| 0 <= j < ms.len() && #[trigger] geliefert_aus(c, marke, ms[j], namen, a)
}

/// Was aus dem Verlauf eines Chats geliefert wird, gehoert zu diesem Chat:
/// jede Nachricht traegt seine Kennung und als Chatnamen seinen Namen, oder,
/// wenn der leer ist, seine Kennung. Jede stammt aus einer Nachricht des
/// Verlaufs, die neuer als die Marke und nicht die eigene ist, mit deren
/// Zeit und Text; in einer Gruppe ist der Absender einer Nachricht mit
/// Absender nie weggelassen, sondern sein bekannter Name oder seine Kennung.
pub proof fn gelieferte_nachrichten_gehoeren_zum_chat(
    c: Chat,
    marke: u64,
    ms: Seq<Nachricht>,
    namen: Map<Seq<char>, Seq<char>>,
    gesehen: Set<Seq<char>>,
)
    ensures
        forall|i: int|
            0 <= i < auswertung(c, marke, ms, namen, gesehen).0.len() ==> (#[trigger] auswertung(
                c,
                marke,
                ms,
                namen,
                gesehen,
            ).0[i]).chat == c.jid@ && auswertung(c, marke, ms, namen, gesehen).0[i].chat_name == (
            if c.name@.len() == 0 {
                c.jid@
            } else {
                c.name@
            }) && aus_dem_verlauf(c, marke, ms, namen, auswertung(c, marke, ms, namen, gesehen).0[i]),
    decreases ms.len(),
{
    if ms.len() > 0 {
        let vorn = ms.drop_last();
        gelieferte_nachrichten_gehoeren_zum_chat(c, marke, vorn, namen, gesehen);
        let aus0 = auswertung(c, marke, vorn, namen, gesehen).0;
        let aus = auswertung(c, marke, ms, namen, gesehen).0;
        assert forall|i: int| 0 <= i < aus.len() implies (#[trigger] aus[i]).chat == c.jid@
            && aus[i].chat_name == (if c.name@.len() == 0 {
            c.jid@
        } else {
            c.name@
        }) && aus_dem_verlauf(c, marke, ms, namen, aus[i]) by {
            if i < aus0.len() {
                assert(aus[i] == aus0[i]);
                assert(aus_dem_verlauf(c, marke, vorn, namen, aus0[i]));
                let j = choose|j: int|
                    0 <= j < vorn.len() && #[trigger] geliefert_aus(c, marke, vorn[j], namen, aus0[i]);
                assert(vorn[j] == ms[j]);
                assert(geliefert_aus(c, marke, ms[j], namen, aus[i]));
            } else {
                assert(geliefert_aus(c, marke, ms[ms.len() - 1], namen, aus[i]));
            }
        }
    }
}

/// Die Nachricht eines Daemons nimmt Chat, Chatnamen und Text unveraendert
/// aus den gleichnamigen Feldern, leer, wo eines fehlt. Ueber ihr steht kein
/// Absender, wenn er fehlt oder der Chat selbst ist; sonst sein
/// mitgeschickter Name, ohne den sein bekannter Name, ohne den seine
/// Kennung.
pub proof fn daemon_nachricht_nimmt_die_felder(
    m: Map<Seq<char>, Seq<char>>,
    namen: Map<Seq<char>, Seq<char>>,
)
    ensures
        ({
            let r = socket_nachricht(m, namen);
            let chat = if m.contains_key("chat"@) {
                m["chat"@]
            } else {
                Seq::empty()
            };
            let sender = if m.contains_key("sender"@) {
                m["sender"@]
            } else {
                Seq::<char>::empty()
            };
            let sender_name = if m.contains_key("sender_name"@) {
                m["sender_name"@]
            } else {
                Seq::<char>::empty()
            };
            &&& r.chat == chat
            &&& m.contains_key("chat_name"@) ==> r.chat_name == m["chat_name"@]
            &&& !m.contains_key("chat_name"@) ==> r.chat_name.len() == 0
            &&& m.contains_key("text"@) ==> r.text == m["text"@]
            &&& !m.contains_key("text"@) ==> r.text.len() == 0
            &&& (sender.len() == 0 || sender == chat) ==> r.absender.len() == 0
            &&& (sender.len() != 0 && sender != chat && sender_name.len() != 0) ==> r.absender
                == sender_name
            &&& (sender.len() != 0 && sender != chat && sender_name.len() == 0
                && namen.contains_key(sender)) ==> r.absender == namen[sender]
            &&& (sender.len() != 0 && sender != chat && sender_name.len() == 0
                && !namen.contains_key(sender)) ==> r.absender == sender
            &&& m.contains_key("zeit"@) && zahl_gelesen(m["zeit"@]) is Some ==> r.zeit == if zahl_gelesen(
                m["zeit"@],
            )->0 > 9_999_999_999 {
                (zahl_gelesen(m["zeit"@])->0 / 1000) as u64
            } else {
                zahl_gelesen(m["zeit"@])->0
            }
            &&& (!m.contains_key("zeit"@) || zahl_gelesen(m["zeit"@]) is None) ==> r.zeit == 0
        }),
{
}

/// Die Chatliste der HTTP-Seite als (Kennung, Name), der Name notfalls die
/// Kennung.
pub open spec fn chat_paare(l: Seq<Chat>) -> Seq<(Seq<char>, Seq<char>)> {
    l.map_values(|c: Chat| (c.jid@, chat_titel(c)))
}

/// Die Chatliste eines Dienstes als Kennung -> Name.
pub fn chatliste_aus_chats(liste: &Vec<Chat>) -> (r: Karte<String, String>)
    ensures
        r.tiefe_sicht() == aus_folge(chat_paare(liste@)),
{
    let mut r = Karte::neu();
    let mut i: usize = 0;
    while i < liste.len()
        invariant
            i <= liste@.len(),
            r.tiefe_sicht() == aus_folge(chat_paare(liste@.subrange(0, i as int))),
        decreases liste@.len() - i,
    {
        let c = &liste[i];
        let name = if c.name.as_str().is_empty() {
            c.jid.clone()
        } else {
            c.name.clone()
        };
        r.setzen(c.jid.clone(), name);
        proof {
            assert(chat_paare(liste@.subrange(0, i + 1)).drop_last() =~= chat_paare(
                liste@.subrange(0, i as int),
            ));
            assert(r.tiefe_sicht() =~= aus_folge(chat_paare(liste@.subrange(0, i + 1))));
        }
        i = i + 1;
    }
    assert(liste@.subrange(0, liste@.len() as int) =~= liste@);
    r
}

/// Die Dialoge eines Daemons als (Kennung, Name), der Name notfalls die
/// Kennung.
pub open spec fn dialog_paare(l: Seq<(String, String)>) -> Seq<(Seq<char>, Seq<char>)> {
    l.map_values(
        |d: (String, String)|
            (
                d.0@,
                if d.1@.len() == 0 {
                    d.0@
                } else {
                    d.1@
                },
            ),
    )
}

/// Die Chatliste eines Daemons als Kennung -> Name.
pub fn chatliste_aus_dialogen(liste: &Vec<(String, String)>) -> (r: Karte<String, String>)
    ensures
        r.tiefe_sicht() == aus_folge(dialog_paare(liste@)),
{
    let mut r = Karte::neu();
    let mut i: usize = 0;
    while i < liste.len()
        invariant
            i <= liste@.len(),
            r.tiefe_sicht() == aus_folge(dialog_paare(liste@.subrange(0, i as int))),
        decreases liste@.len() - i,
    {
        let d = &liste[i];
        let name = if d.1.as_str().is_empty() {
            d.0.clone()
        } else {
            d.1.clone()
        };
        r.setzen(d.0.clone(), name);
        proof {
            assert(dialog_paare(liste@.subrange(0, i + 1)).drop_last() =~= dialog_paare(
                liste@.subrange(0, i as int),
            ));
            assert(r.tiefe_sicht() =~= aus_folge(dialog_paare(liste@.subrange(0, i + 1))));
        }
        i = i + 1;
    }
    assert(liste@.subrange(0, liste@.len() as int) =~= liste@);
    r
}

/// Die eigene Kennung aus der Antwort auf get_me: "id", sonst "user_id".
pub fn eigene_kennung_aus(v: &Wert) -> (r: String)
    ensures
        r@ == text_oder_leer(eines_von(*v, "id"@, "user_id"@)),
{
    match v.feld("id") {
        Some(w) => wert_als_text(w),
        None => match v.feld("user_id") {
            Some(w) => wert_als_text(w),
            None => String::new(),
        },
    }
}

/// Die Nummer in einer Statusantwort: "phone", wenn es ein Text ist.
pub open spec fn status_nummer(v: Wert) -> Option<Seq<char>> {
    match v.feld_spec("phone"@) {
        Some(Wert::Text(t)) => Some(t@),
        _ => None,
    }
}

/// Die eigene Nummer aus der Statusantwort eines Dienstes: "phone", wenn
/// es ein Text ist.
pub fn nummer_aus_status(v: &Wert) -> (r: Option<String>)
    ensures
        match status_nummer(*v) {
            Some(t) => r matches Some(s) && s@ == t,
            None => r is None,
        },
{
    match v.feld("phone") {
        Some(w) => match w.als_text() {
            Some(t) => Some(text_aus(t)),
            None => None,
        },
        None => None,
    }
}

/// Die eigene Nummer aus dem Text einer Statusantwort; nichts, wenn er
/// kein JSON ist.
pub fn nummer_aus_statustext(roh: &str) -> (r: Option<String>)
    ensures
        match json_gelesen(roh@) {
            None => r is None,
            Some(v) => match status_nummer(v) {
                Some(t) => r matches Some(s) && s@ == t,
                None => r is None,
            },
        },
{
    match json_lesen(roh) {
        None => None,
        Some(v) => nummer_aus_status(&v),
    }
}

/// Die Argumente einer Sendung an einen Daemon.
///
/// Matrix will {"room_id", "body"}, Telegram {"chat_id", "text"}; eine
/// Telegram-Kennung, die eine Zahl ist, geht als Zahl, sonst als Text.
pub fn sendeargumente(protokoll: &str, an: &str, text: &str) -> (r: Wert)
    ensures
        protokoll@ == "matrix"@ ==> (r.feld_spec("room_id"@) matches Some(Wert::Text(s)) && s@
            == an@) && (r.feld_spec("body"@) matches Some(Wert::Text(s)) && s@ == text@),
        protokoll@ != "matrix"@ ==> (r.feld_spec("text"@) matches Some(Wert::Text(s)) && s@
            == text@) && match ganzzahl_gelesen(an@) {
            Some(n) => r.feld_spec("chat_id"@) matches Some(Wert::Zahl(z)) && z@
                == ziffern_mit_vorzeichen(n as int),
            None => r.feld_spec("chat_id"@) matches Some(Wert::Text(s)) && s@ == an@,
        },
        (r matches Wert::Objekt(f) && f@.len() == 2),
{
    let mut felder: Vec<(String, Wert)> = Vec::new();
    proof {
        reveal_strlit("room_id");
        reveal_strlit("body");
        reveal_strlit("chat_id");
        reveal_strlit("text");
    }
    if gleich(protokoll, "matrix") {
        felder.push((text_aus("room_id"), Wert::Text(text_aus(an))));
        felder.push((text_aus("body"), Wert::Text(text_aus(text))));
        let r = Wert::Objekt(felder);
        proof {
            assert(felder@.drop_first()[0] == felder@[1]);
            assert(felder@[0].0@ == "room_id"@);
            assert("room_id"@.len() != "body"@.len());
            assert(erstes_feld(felder@, "body"@) == erstes_feld(felder@.drop_first(), "body"@));
        }
        r
    } else {
        let kennung = match ganzzahl_lesen(an) {
            Some(n) => Wert::Zahl(dezimal_mit_vorzeichen(n)),
            None => Wert::Text(text_aus(an)),
        };
        felder.push((text_aus("chat_id"), kennung));
        felder.push((text_aus("text"), Wert::Text(text_aus(text))));
        let r = Wert::Objekt(felder);
        proof {
            assert(felder@.drop_first()[0] == felder@[1]);
            assert(felder@[0].0@ == "chat_id"@);
            assert("chat_id"@.len() != "text"@.len());
            assert(erstes_feld(felder@, "text"@) == erstes_feld(felder@.drop_first(), "text"@));
        }
        r
    }
}

/// Auf welchem Weg ein Protokoll seinen Dienst erreicht.
pub enum Weg {
    /// HTTP zu unseren eigenen Diensten: WhatsApp und Signal.
    Http,
    /// Zeilen-JSON ueber einen Unix-Socket zu den Daemons: Telegram und Matrix.
    Socket,
}

/// Der Weg eines Protokolls; ein unbekanntes hat keinen.
pub fn weg(protokoll: &str) -> (r: Option<Weg>)
    ensures
        (protokoll@ == "whatsapp"@ || protokoll@ == "signal"@) ==> r matches Some(Weg::Http),
        (protokoll@ == "telegram"@ || protokoll@ == "matrix"@) ==> r matches Some(Weg::Socket),
        !(protokoll@ == "whatsapp"@ || protokoll@ == "signal"@ || protokoll@ == "telegram"@
            || protokoll@ == "matrix"@) ==> r is None,
{
    proof {
        reveal_strlit("whatsapp");
        reveal_strlit("signal");
        reveal_strlit("telegram");
        reveal_strlit("matrix");
        assert("whatsapp"@.len() != "telegram"@.len() || "whatsapp"@[0] != "telegram"@[0]);
        assert("signal"@.len() != "telegram"@.len());
        assert("signal"@.len() == "matrix"@.len() ==> "signal"@[0] != "matrix"@[0]);
        assert("whatsapp"@.len() != "matrix"@.len());
    }
    if gleich(protokoll, "whatsapp") || gleich(protokoll, "signal") {
        Some(Weg::Http)
    } else if gleich(protokoll, "telegram") || gleich(protokoll, "matrix") {
        Some(Weg::Socket)
    } else {
        None
    }
}

/// Mit welcher Frage ein Daemon seine Chatliste nennt.
pub fn dialog_befehl(protokoll: &str) -> (r: &'static str)
    ensures
        protokoll@ == "matrix"@ ==> r@ == "get_rooms"@,
        protokoll@ != "matrix"@ ==> r@ == "get_dialogs"@,
{
    if gleich(protokoll, "matrix") {
        "get_rooms"
    } else {
        "get_dialogs"
    }
}

/// Die Argumente der Frage nach der Chatliste: hoechstens 200 Chats.
pub fn dialogargumente() -> (r: Wert)
    ensures
        r.feld_spec("limit"@) matches Some(Wert::Zahl(z)) && z@ == "200"@,
        (r matches Wert::Objekt(f) && f@.len() == 1),
{
    let mut felder: Vec<(String, Wert)> = Vec::new();
    felder.push((text_aus("limit"), Wert::Zahl(text_aus("200"))));
    proof {
        reveal_strlit("limit");
        assert(felder@[0].0@ == "limit"@);
    }
    Wert::Objekt(felder)
}

/// Was nach einer Antwort auf die Frage nach der Chatliste geschieht.
pub enum ChatlistenSchritt {
    /// Die Liste ist da.
    Nehmen,
    /// Leer: zwei Sekunden warten und noch einmal fragen.
    Nochmal,
}

/// Eine leere Chatliste wird nicht als Ergebnis hingenommen: der Dienst
/// faehrt vielleicht gerade hoch und weiss noch nichts. Sie wird
/// nachgeladen, solange sie leer ist.
pub fn chatliste_schritt(leer: bool) -> (r: ChatlistenSchritt)
    ensures
        !leer ==> r is Nehmen,
        leer ==> r is Nochmal,
{
    if leer {
        ChatlistenSchritt::Nochmal
    } else {
        ChatlistenSchritt::Nehmen
    }
}

} // verus!
