//! Der zweite Weg: die Python-Daemons von Telegram und Matrix.
//!
//! Sie sprechen Zeilen-JSON ueber einen Unix-Socket. Eine Zeile mit
//! "event" ist ein Ereignis, jede andere die Antwort auf die zuletzt
//! gestellte Frage. Hier steht, wie Fragen aussehen und wie Antworten und
//! Ereignisse gelesen werden.
use vstd::prelude::*;

use crate::karte::Karte;
use crate::text::{gleich, text_aus, zeichen_anhaengen};
use crate::json::{json_gelesen, json_lesen};
use crate::wert::{erstes_feld, Wert};

verus! {

/// Wo ein Daemon liegt und wie er gestartet wird.
pub struct Beschreibung {
    pub skript: &'static str,
    pub socket: &'static str,
}

/// Der Daemon eines Protokolls; nur Telegram und Matrix haben einen.
pub fn beschreibung(protokoll: &str) -> (r: Option<Beschreibung>)
    ensures
        protokoll@ == "telegram"@ ==> r is Some && r->0.skript@
            == "/opt/pytelegram/telegram_daemon.py"@ && r->0.socket@
            == ".pytelegram/daemon.sock"@,
        protokoll@ == "matrix"@ ==> r is Some && r->0.skript@ == "/opt/pymatrix/matrix_daemon.py"@
            && r->0.socket@ == ".pymatrix/daemon.sock"@,
        protokoll@ != "telegram"@ && protokoll@ != "matrix"@ ==> r is None,
{
    proof {
        reveal_strlit("telegram");
        reveal_strlit("matrix");
        assert("telegram"@.len() != "matrix"@.len());
    }
    if gleich(protokoll, "telegram") {
        Some(
            Beschreibung {
                skript: "/opt/pytelegram/telegram_daemon.py",
                socket: ".pytelegram/daemon.sock",
            },
        )
    } else if gleich(protokoll, "matrix") {
        Some(
            Beschreibung {
                skript: "/opt/pymatrix/matrix_daemon.py",
                socket: ".pymatrix/daemon.sock",
            },
        )
    } else {
        None
    }
}

/// Der Text eines Werts: ein Text selbst, eine Zahl in ihrer Textform,
/// alles andere leer.
pub open spec fn wert_text(v: Wert) -> Seq<char> {
    match v {
        Wert::Text(s) => s@,
        Wert::Zahl(n) => n@,
        _ => Seq::empty(),
    }
}

/// Kennungen kommen mal als Zahl, mal als Zeichenkette.
pub fn wert_als_text(v: &Wert) -> (r: String)
    ensures
        r@ == wert_text(*v),
{
    match v {
        Wert::Text(s) => s.clone(),
        Wert::Zahl(n) => n.clone(),
        _ => String::new(),
    }
}

/// Der Text eines Werts, wenn er ein Text ist, sonst leer.
pub open spec fn nur_text(v: Option<Wert>) -> Seq<char> {
    match v {
        Some(Wert::Text(s)) => s@,
        _ => Seq::empty(),
    }
}

fn nur_text_von(v: Option<&Wert>) -> (r: String)
    ensures
        r@ == nur_text(
            match v {
                Some(w) => Some(*w),
                None => None,
            },
        ),
{
    match v {
        Some(w) => match w.als_text() {
            Some(s) => text_aus(s),
            None => String::new(),
        },
        None => String::new(),
    }
}

/// Das erste vorhandene von zwei Feldern.
pub open spec fn eines_von(d: Wert, a: Seq<char>, b: Seq<char>) -> Option<Wert> {
    match d.feld_spec(a) {
        Some(w) => Some(w),
        None => d.feld_spec(b),
    }
}

/// Die Kennung eines Dialogs: "id", sonst "room_id", als Text.
pub open spec fn dialog_kennung(d: Wert) -> Seq<char> {
    match eines_von(d, "id"@, "room_id"@) {
        Some(w) => wert_text(w),
        None => Seq::empty(),
    }
}

/// Der Titel eines Dialogs: das erste vorhandene von "title", "name",
/// "first_name", wenn es ein Text ist.
pub open spec fn dialog_titel(d: Wert) -> Seq<char> {
    nur_text(
        match eines_von(d, "title"@, "name"@) {
            Some(w) => Some(w),
            None => d.feld_spec("first_name"@),
        },
    )
}

/// Die Dialoge einer Liste, ohne die ohne Kennung.
pub open spec fn dialoge_aus(l: Seq<Wert>) -> Seq<(Seq<char>, Seq<char>)>
    decreases l.len(),
{
    if l.len() == 0 {
        Seq::empty()
    } else {
        let rest = dialoge_aus(l.drop_last());
        let d = l.last();
        if dialog_kennung(d).len() == 0 {
            rest
        } else {
            rest.push((dialog_kennung(d), dialog_titel(d)))
        }
    }
}

/// Was `dialoge_lesen` aus einer Antwort macht.
pub open spec fn dialoge_spec(matrix: bool, v: Wert) -> Seq<(Seq<char>, Seq<char>)> {
    match v.feld_spec(if matrix {
        "rooms"@
    } else {
        "dialogs"@
    }) {
        Some(Wert::Liste(l)) => dialoge_aus(l@),
        _ => Seq::empty(),
    }
}

/// Die Antwort auf get_dialogs, so verschieden sie ausfaellt.
///
/// Telegram nennt sie "dialogs" mit "id"/"title", Matrix "rooms" mit
/// "room_id"/"name". Beides wird auf (Kennung, Titel) gebracht.
pub fn dialoge_lesen(protokoll: &str, v: &Wert) -> (r: Vec<(String, String)>)
    ensures
        r@.len() == dialoge_spec(protokoll@ == "matrix"@, *v).len(),
        forall|i: int|
            0 <= i < r@.len() ==> (#[trigger] r@[i]).0@ == dialoge_spec(
                protokoll@ == "matrix"@,
                *v,
            )[i].0 && r@[i].1@ == dialoge_spec(protokoll@ == "matrix"@, *v)[i].1,
{
    let matrix = gleich(protokoll, "matrix");
    let feld = if matrix {
        "rooms"
    } else {
        "dialogs"
    };
    let mut aus: Vec<(String, String)> = Vec::new();
    let liste = match v.feld(feld) {
        Some(w) => match w.als_liste() {
            Some(l) => l,
            None => {
                return aus;
            },
        },
        None => {
            return aus;
        },
    };
    let ghost ziel = dialoge_aus(liste@);
    let mut i: usize = 0;
    while i < liste.len()
        invariant
            i <= liste@.len(),
            ziel == dialoge_aus(liste@),
            dialoge_aus(liste@.subrange(0, i as int)).len() == aus@.len(),
            forall|j: int|
                0 <= j < aus@.len() ==> (#[trigger] aus@[j]).0@ == dialoge_aus(
                    liste@.subrange(0, i as int),
                )[j].0 && aus@[j].1@ == dialoge_aus(liste@.subrange(0, i as int))[j].1,
        decreases liste@.len() - i,
    {
        let d = &liste[i];
        let kennung = match d.feld("id") {
            Some(w) => wert_als_text(w),
            None => match d.feld("room_id") {
                Some(w) => wert_als_text(w),
                None => String::new(),
            },
        };
        assert(kennung@ == dialog_kennung(*d));
        let ghost vorher = liste@.subrange(0, i as int);
        assert(liste@.subrange(0, i + 1).drop_last() =~= vorher);
        if !kennung.as_str().is_empty() {
            let titel = match d.feld("title") {
                Some(w) => nur_text_von(Some(w)),
                None => match d.feld("name") {
                    Some(w) => nur_text_von(Some(w)),
                    None => nur_text_von(d.feld("first_name")),
                },
            };
            assert(titel@ == dialog_titel(*d));
            aus.push((kennung, titel));
        }
        i = i + 1;
    }
    assert(liste@.subrange(0, liste@.len() as int) =~= liste@);
    aus
}

/// Ob eine Zeile ein Ereignis ist und keine Antwort.
pub fn ist_ereignis(v: &Wert) -> (r: bool)
    ensures
        r == v.feld_spec("event"@) is Some,
{
    v.feld("event").is_some()
}

/// Eine Zeile vom Daemon: ihr Wert, und ob sie ein Ereignis ist (jede
/// andere ist die Antwort auf die offene Frage); nichts, wenn sie kein JSON
/// ist.
pub fn zeile_einordnen(zeile: &str) -> (r: Option<(Wert, bool)>)
    ensures
        match json_gelesen(zeile@) {
            None => r is None,
            Some(v) => r == Some((v, v.feld_spec("event"@) is Some)),
        },
{
    match json_lesen(zeile) {
        None => None,
        Some(v) => {
            let e = ist_ereignis(&v);
            Some((v, e))
        },
    }
}

/// Eine Frage an den Daemon: {"cmd": befehl} und, wenn es welche gibt,
/// "args".
pub fn frage(befehl: &str, args: Wert) -> (r: Wert)
    ensures
        r.feld_spec("cmd"@) matches Some(Wert::Text(s)) && s@ == befehl@,
        args is Null ==> r.feld_spec("args"@) is None,
        !(args is Null) ==> r.feld_spec("args"@) == Some(args),
        (r matches Wert::Objekt(f) && f@.len() == if args is Null {
            1int
        } else {
            2int
        }),
{
    let mut felder: Vec<(String, Wert)> = Vec::new();
    let cmd = text_aus("cmd");
    let argsname = text_aus("args");
    felder.push((cmd, Wert::Text(text_aus(befehl))));
    let ist_null = match args {
        Wert::Null => true,
        _ => false,
    };
    if !ist_null {
        felder.push((argsname, args));
    }
    let r = Wert::Objekt(felder);
    proof {
        reveal_strlit("cmd");
        reveal_strlit("args");
        assert(felder@[0].0@ == "cmd"@);
        assert("cmd"@ != "args"@);
        assert(erstes_feld(felder@, "args"@) == erstes_feld(felder@.drop_first(), "args"@));
        if !ist_null {
            assert(felder@.drop_first()[0].0@ == "args"@);
            assert(erstes_feld(felder@.drop_first(), "args"@) == Some(args));
        } else {
            assert(felder@.drop_first().len() == 0);
        }
    }
    r
}

/// Der Text eines vielleicht vorhandenen Werts, sonst leer.
pub open spec fn text_oder_leer(v: Option<Wert>) -> Seq<char> {
    match v {
        Some(w) => wert_text(w),
        None => Seq::empty(),
    }
}

/// Was ein Matrix-Ereignis als Nachricht ergibt.
pub open spec fn matrix_nachricht(art: Seq<char>, daten: Wert) -> Option<
    Map<Seq<char>, Seq<char>>,
> {
    if art != "room_event"@ {
        None
    } else {
        match daten.feld_spec("type"@) {
            Some(Wert::Text(t)) => if t@ != "m.room.message"@ {
                None
            } else {
                match (
                    daten.feld_spec("room_id"@),
                    daten.feld_spec("sender"@),
                    daten.feld_spec("content"@),
                    daten.feld_spec("origin_server_ts"@),
                ) {
                    (Some(c), Some(a), Some(inhalt), Some(z)) => Some(
                        Map::empty().insert("chat"@, wert_text(c)).insert(
                            "sender"@,
                            wert_text(a),
                        ).insert("text"@, nur_text(inhalt.feld_spec("body"@))).insert(
                            "zeit"@,
                            wert_text(z),
                        ),
                    ),
                    _ => None,
                }
            },
            _ => None,
        }
    }
}

/// Was ein Telegram-Ereignis als Nachricht ergibt.
pub open spec fn telegram_nachricht(art: Seq<char>, daten: Wert) -> Option<
    Map<Seq<char>, Seq<char>>,
> {
    if art != "new_message"@ && art != "message_edited"@ {
        None
    } else if daten.feld_spec("out"@) == Some(Wert::Wahrheit(true)) {
        None
    } else {
        match daten.feld_spec("chat_id"@) {
            None => None,
            Some(c) => {
                let text = nur_text(daten.feld_spec("text"@));
                let art_der_medien = nur_text(daten.feld_spec("media_type"@));
                if text.len() == 0 && art_der_medien.len() == 0 {
                    None
                } else {
                    Some(
                        Map::empty().insert("chat"@, wert_text(c)).insert(
                            "sender"@,
                            text_oder_leer(daten.feld_spec("sender_id"@)),
                        ).insert("sender_name"@, nur_text(daten.feld_spec("sender_name"@))).insert(
                            "chat_name"@,
                            nur_text(daten.feld_spec("chat_name"@)),
                        ).insert(
                            "text"@,
                            if text.len() == 0 {
                                seq!['['] + art_der_medien + seq![']']
                            } else {
                                text
                            },
                        ).insert("zeit"@, text_oder_leer(daten.feld_spec("date"@))),
                    )
                }
            },
        }
    }
}

/// Was ein Ereignis als Nachricht ergibt.
pub open spec fn ereignis_nachricht(matrix: bool, v: Wert) -> Option<Map<Seq<char>, Seq<char>>> {
    match v.feld_spec("event"@) {
        Some(Wert::Text(art)) => match v.feld_spec("data"@) {
            Some(daten) => if matrix {
                matrix_nachricht(art@, daten)
            } else {
                telegram_nachricht(art@, daten)
            },
            None => None,
        },
        _ => None,
    }
}

fn text_von(v: Option<&Wert>) -> (r: String)
    ensures
        r@ == text_oder_leer(
            match v {
                Some(w) => Some(*w),
                None => None,
            },
        ),
{
    match v {
        Some(w) => wert_als_text(w),
        None => String::new(),
    }
}

fn matrix_lesen(art: &str, daten: &Wert) -> (r: Option<Karte<String, String>>)
    ensures
        match r {
            Some(k) => k.gut() && matrix_nachricht(art@, *daten) == Some(k.tiefe_sicht()),
            None => matrix_nachricht(art@, *daten) is None,
        },
{
    if !gleich(art, "room_event") {
        return None;
    }
    let typ = match daten.feld("type") {
        Some(w) => match w.als_text() {
            Some(t) => t,
            None => {
                return None;
            },
        },
        None => {
            return None;
        },
    };
    if !gleich(typ, "m.room.message") {
        return None;
    }
    let c = match daten.feld("room_id") {
        Some(w) => w,
        None => {
            return None;
        },
    };
    let a = match daten.feld("sender") {
        Some(w) => w,
        None => {
            return None;
        },
    };
    let inhalt = match daten.feld("content") {
        Some(w) => w,
        None => {
            return None;
        },
    };
    let z = match daten.feld("origin_server_ts") {
        Some(w) => w,
        None => {
            return None;
        },
    };
    let mut m: Karte<String, String> = Karte::neu();
    m.setzen(text_aus("chat"), wert_als_text(c));
    m.setzen(text_aus("sender"), wert_als_text(a));
    m.setzen(text_aus("text"), nur_text_von(inhalt.feld("body")));
    m.setzen(text_aus("zeit"), wert_als_text(z));
    proof {
        let ziel = matrix_nachricht(art@, *daten)->0;
        assert(m.tiefe_sicht() =~= ziel);
    }
    Some(m)
}

fn telegram_lesen(art: &str, daten: &Wert) -> (r: Option<Karte<String, String>>)
    ensures
        match r {
            Some(k) => k.gut() && telegram_nachricht(art@, *daten) == Some(k.tiefe_sicht()),
            None => telegram_nachricht(art@, *daten) is None,
        },
{
    if !gleich(art, "new_message") && !gleich(art, "message_edited") {
        return None;
    }
    let raus = match daten.feld("out") {
        Some(w) => match w.als_wahrheit() {
            Some(b) => b,
            None => false,
        },
        None => false,
    };
    if raus {
        return None;
    }
    let c = match daten.feld("chat_id") {
        Some(w) => w,
        None => {
            return None;
        },
    };
    let text = nur_text_von(daten.feld("text"));
    let medien = nur_text_von(daten.feld("media_type"));
    let text_leer = text.as_str().is_empty();
    if text_leer && medien.as_str().is_empty() {
        return None;
    }
    let mut m: Karte<String, String> = Karte::neu();
    m.setzen(text_aus("chat"), wert_als_text(c));
    m.setzen(text_aus("sender"), text_von(daten.feld("sender_id")));
    m.setzen(text_aus("sender_name"), nur_text_von(daten.feld("sender_name")));
    m.setzen(text_aus("chat_name"), nur_text_von(daten.feld("chat_name")));
    let inhalt = if text_leer {
        let mut t = String::new();
        zeichen_anhaengen(&mut t, '[');
        t.append(medien.as_str());
        zeichen_anhaengen(&mut t, ']');
        assert(t@ =~= seq!['['] + medien@ + seq![']']);
        t
    } else {
        text
    };
    m.setzen(text_aus("text"), inhalt);
    m.setzen(text_aus("zeit"), text_von(daten.feld("date")));
    proof {
        let ziel = telegram_nachricht(art@, *daten)->0;
        assert(m.tiefe_sicht() =~= ziel);
    }
    Some(m)
}

/// Eine neue oder geaenderte Telegram-Nachricht eines fremden Absenders mit
/// Chat wird gelesen. Ihr Text ist genau der mitgeschickte, wenn er nicht
/// leer ist, gleich ob eine Medienart dabei ist; nur ohne Text steht die
/// Medienart in eckigen Klammern da. Der Chat und der Chatname sind die
/// mitgeschickten.
pub proof fn telegram_text_bleibt(v: Wert, art: String, daten: Wert, chat: Wert)
    requires
        v.feld_spec("event"@) == Some(Wert::Text(art)),
        art@ == "new_message"@ || art@ == "message_edited"@,
        v.feld_spec("data"@) == Some(daten),
        daten.feld_spec("out"@) != Some(Wert::Wahrheit(true)),
        daten.feld_spec("chat_id"@) == Some(chat),
    ensures
        ({
            let text = match daten.feld_spec("text"@) {
                Some(Wert::Text(t)) => t@,
                _ => Seq::<char>::empty(),
            };
            let medien = match daten.feld_spec("media_type"@) {
                Some(Wert::Text(t)) => t@,
                _ => Seq::<char>::empty(),
            };
            let r = ereignis_nachricht(false, v);
            &&& text.len() != 0 ==> (r matches Some(m) && m.contains_key("text"@) && m["text"@]
                == text)
            &&& (text.len() == 0 && medien.len() != 0) ==> (r matches Some(m) && m.contains_key(
                "text"@,
            ) && m["text"@] == seq!['['] + medien + seq![']'])
            &&& (text.len() == 0 && medien.len() == 0) ==> r is None
            &&& r matches Some(m) ==> m.contains_key("chat"@) && m["chat"@] == wert_text(chat)
                && m.contains_key("chat_name"@) && m["chat_name"@] == match daten.feld_spec(
                "chat_name"@,
            ) {
                Some(Wert::Text(t)) => t@,
                _ => Seq::<char>::empty(),
            }
        }),
{
    reveal_strlit("text");
    reveal_strlit("zeit");
    reveal_strlit("chat");
    reveal_strlit("chat_name");
    reveal_strlit("sender");
    reveal_strlit("sender_name");
    reveal_strlit("matrix");
    reveal_strlit("new_message");
    reveal_strlit("message_edited");
    assert("text"@[0] != "zeit"@[0]);
    assert("chat"@[0] != "zeit"@[0] && "chat"@[0] != "text"@[0]);
    assert("chat"@.len() != "chat_name"@.len());
    assert("chat"@.len() != "sender"@.len() && "chat"@.len() != "sender_name"@.len());
    assert("chat_name"@.len() != "zeit"@.len() && "chat_name"@.len() != "text"@.len());
    assert("chat_name"@.len() != "sender"@.len() && "chat_name"@.len() != "sender_name"@.len());
    assert("text"@.len() != "sender"@.len() && "text"@.len() != "sender_name"@.len());
}

/// Aus einem Ereignis das herausholen, was eine Nachricht ausmacht.
///
/// Das Ergebnis ordnet "chat", "sender", "text" und "zeit" zu, bei
/// Telegram auch "sender_name" und "chat_name".
pub fn nachricht_aus_ereignis(protokoll: &str, v: &Wert) -> (r: Option<Karte<String, String>>)
    ensures
        match r {
            Some(k) => k.gut() && ereignis_nachricht(protokoll@ == "matrix"@, *v) == Some(
                k.tiefe_sicht(),
            ),
            None => ereignis_nachricht(protokoll@ == "matrix"@, *v) is None,
        },
{
    let art = match v.feld("event") {
        Some(w) => match w.als_text() {
            Some(a) => a,
            None => {
                return None;
            },
        },
        None => {
            return None;
        },
    };
    let daten = match v.feld("data") {
        Some(d) => d,
        None => {
            return None;
        },
    };
    if gleich(protokoll, "matrix") {
        matrix_lesen(art, daten)
    } else {
        telegram_lesen(art, daten)
    }
}

} // verus!
