//! Der Verbindungsmanager: welche Protokolle es gibt und welche
//! Verbindungen schon angefordert sind.
use vstd::prelude::*;

use crate::karte::Karte;
use crate::text::{gleich, text_aus};
use crate::verbindung::verbindungspfad;

verus! {

/// Die Protokolle, die dieser Manager traegt.
pub open spec fn protokolle_spec() -> Seq<Seq<char>> {
    seq!["whatsapp"@, "signal"@, "telegram"@, "matrix"@]
}

/// Die Protokolle, die dieser Manager traegt: WhatsApp und Signal ueber
/// HTTP, Telegram und Matrix ueber die Daemons. Ob ein Dienst gerade
/// laeuft, spielt keine Rolle: das Protokoll gibt es trotzdem.
pub fn protokolle() -> (r: Vec<String>)
    ensures
        r@.len() == 4,
        forall|i: int| 0 <= i < 4 ==> (#[trigger] r@[i])@ == protokolle_spec()[i],
{
    let mut r: Vec<String> = Vec::new();
    r.push(text_aus("whatsapp"));
    r.push(text_aus("signal"));
    r.push(text_aus("telegram"));
    r.push(text_aus("matrix"));
    r
}

/// Ob dieser Manager ein Protokoll traegt.
pub fn protokoll_bekannt(p: &str) -> (r: bool)
    ensures
        r == protokolle_spec().contains(p@),
{
    let r = gleich(p, "whatsapp") || gleich(p, "signal") || gleich(p, "telegram") || gleich(
        p,
        "matrix",
    );
    proof {
        let s = protokolle_spec();
        if r {
            if p@ == "whatsapp"@ {
                assert(s[0] == p@);
            } else if p@ == "signal"@ {
                assert(s[1] == p@);
            } else if p@ == "telegram"@ {
                assert(s[2] == p@);
            } else {
                assert(s[3] == p@);
            }
        }
    }
    r
}

/// Die Parameter, nach denen die Kontoverwaltung fragt: (Name, Flags,
/// Signatur); Flag 4 heisst "erforderlich". Ein unbekanntes Protokoll hat
/// keine.
pub fn parameter(protokoll: &str) -> (r: Vec<(String, u32, String)>)
    ensures
        !protokolle_spec().contains(protokoll@) ==> r@.len() == 0,
        protokolle_spec().contains(protokoll@) ==> r@.len() == 1 && r@[0].0@ == "account"@
            && r@[0].1 == 4 && r@[0].2@ == "s"@,
{
    let mut r: Vec<(String, u32, String)> = Vec::new();
    if protokoll_bekannt(protokoll) {
        r.push((text_aus("account"), 4, text_aus("s")));
    }
    r
}

/// Der Bus-Name einer Verbindung.
pub open spec fn verbindungsname(protokoll: Seq<char>) -> Seq<char> {
    "org.freedesktop.Telepathy.Connection.bruecke."@ + protokoll + seq!['.'] + protokoll
}

/// Bus-Name und Pfad der Verbindung eines Protokolls.
pub fn verbindungsadresse(protokoll: &str) -> (r: (String, String))
    ensures
        r.0@ == verbindungsname(protokoll@),
        r.1@ == verbindungspfad(protokoll@),
{
    let mut name = text_aus("org.freedesktop.Telepathy.Connection.bruecke.");
    name.append(protokoll);
    name.append(".");
    name.append(protokoll);
    let mut pfad = text_aus("/org/freedesktop/Telepathy/Connection/bruecke/");
    pfad.append(protokoll);
    pfad.append("/");
    pfad.append(protokoll);
    proof {
        reveal_strlit(".");
        reveal_strlit("/");
    }
    assert(name@ =~= verbindungsname(protokoll@));
    assert(pfad@ =~= verbindungspfad(protokoll@));
    (name, pfad)
}

/// Was eine Anforderung ergibt: die Verbindungen danach und Bus-Name,
/// Pfad und ob sie neu ist, oder der Grund der Ablehnung.
pub open spec fn anforderung(v: Map<Seq<char>, (Seq<char>, Seq<char>)>, p: Seq<char>) -> (
    Map<Seq<char>, (Seq<char>, Seq<char>)>,
    Result<(Seq<char>, Seq<char>, bool), Seq<char>>,
) {
    if !protokolle_spec().contains(p) {
        (v, Err("kein solches Protokoll: "@ + p))
    } else if v.contains_key(p) {
        (v, Ok((v[p].0, v[p].1, false)))
    } else {
        (
            v.insert(p, (verbindungsname(p), verbindungspfad(p))),
            Ok((verbindungsname(p), verbindungspfad(p), true)),
        )
    }
}

/// Wer dieselbe Verbindung zweimal anfordert, bekommt beim zweiten Mal
/// dieselbe Adresse, als nicht neu, und es entsteht keine zweite.
pub proof fn zweite_anforderung_gibt_dieselbe(
    v: Map<Seq<char>, (Seq<char>, Seq<char>)>,
    p: Seq<char>,
)
    requires
        protokolle_spec().contains(p),
    ensures
        ({
            let (v1, r1) = anforderung(v, p);
            let (v2, r2) = anforderung(v1, p);
            &&& v2 == v1
            &&& match (r1, r2) {
                (Ok(a), Ok(b)) => a.0 == b.0 && a.1 == b.1 && !b.2,
                _ => false,
            }
        }),
{
}

/// Die angeforderten Verbindungen: Protokoll -> (Bus-Name, Pfad).
pub struct Verbindungen {
    liste: Karte<String, (String, String)>,
}

/// Jede Verbindung hat den ueblichen Bus-Namen und Pfad ihres Protokolls.
pub open spec fn ueblich(v: Map<Seq<char>, (Seq<char>, Seq<char>)>) -> bool {
    forall|p: Seq<char>| #[trigger]
        v.contains_key(p) ==> v[p] == (verbindungsname(p), verbindungspfad(p))
}

/// Ein bekanntes Protokoll bekommt immer den ueblichen Bus-Namen und Pfad,
/// beim ersten Mal als neue Verbindung, danach als dieselbe; und alle
/// Verbindungen bleiben ueblich.
pub proof fn anforderung_gibt_die_uebliche(v: Map<Seq<char>, (Seq<char>, Seq<char>)>, p: Seq<char>)
    requires
        ueblich(v),
        protokolle_spec().contains(p),
    ensures
        anforderung(v, p).1 == Ok::<_, Seq<char>>(
            (verbindungsname(p), verbindungspfad(p), !v.contains_key(p)),
        ),
        ueblich(anforderung(v, p).0),
        anforderung(v, p).0.contains_key(p),
{
}

impl Verbindungen {
    #[verifier::type_invariant]
    spec fn nur_uebliche(self) -> bool {
        ueblich(self.sicht())
    }

    /// Die angeforderten Verbindungen als Zuordnung.
    pub closed spec fn sicht(self) -> Map<Seq<char>, (Seq<char>, Seq<char>)> {
        self.liste.tiefe_sicht()
    }

    /// Noch keine Verbindung.
    pub fn neu() -> (r: Self)
        ensures
            r.sicht() == Map::<Seq<char>, (Seq<char>, Seq<char>)>::empty(),
    {
        let l = Karte::neu();
        assert(l.tiefe_sicht() =~= Map::<Seq<char>, (Seq<char>, Seq<char>)>::empty());
        let r = Verbindungen { liste: l };
        assert(r.sicht() =~= Map::<Seq<char>, (Seq<char>, Seq<char>)>::empty());
        r
    }

    /// RequestConnection: die Verbindung eines Protokolls.
    ///
    /// Wurde sie schon einmal angefordert, kommt dieselbe zurueck: eine
    /// zweite Verbindung desselben Kontos waere ein zweiter Draht zum
    /// Dienst. Der zweite Teil sagt, ob sie neu ist und eingerichtet
    /// werden muss. Ein unbekanntes Protokoll wird abgelehnt.
    pub fn anfordern(&mut self, protokoll: &str) -> (r: Result<((String, String), bool), String>)
        ensures
            anforderung(old(self).sicht(), protokoll@) == (final(self).sicht(), match r {
                Ok(x) => Ok::<_, Seq<char>>((x.0.0@, x.0.1@, x.1)),
                Err(m) => Err::<(Seq<char>, Seq<char>, bool), _>(m@),
            }),
            ueblich(final(self).sicht()),
            protokolle_spec().contains(protokoll@) ==> (r matches Ok(x) && x.0.0@ == verbindungsname(
                protokoll@,
            ) && x.0.1@ == verbindungspfad(protokoll@)),
    {
        proof {
            use_type_invariant(&*self);
        }
        if !protokoll_bekannt(protokoll) {
            let mut m = text_aus("kein solches Protokoll: ");
            m.append(protokoll);
            return Err(m);
        }
        let k = text_aus(protokoll);
        match self.liste.hole(&k) {
            Some(v) => {
                return Ok(((v.0.clone(), v.1.clone()), false));
            },
            None => {},
        }
        let (name, pfad) = verbindungsadresse(protokoll);
        let mut l = Karte::neu();
        proof {
            assert(l.tiefe_sicht() =~= Map::<Seq<char>, (Seq<char>, Seq<char>)>::empty());
        }
        std::mem::swap(&mut l, &mut self.liste);
        l.setzen(k, (name.clone(), pfad.clone()));
        proof {
            assert(l.tiefe_sicht() =~= old(self).sicht().insert(
                protokoll@,
                (verbindungsname(protokoll@), verbindungspfad(protokoll@)),
            ));
        }
        self.liste = l;
        assert(self.sicht() =~= old(self).sicht().insert(
            protokoll@,
            (verbindungsname(protokoll@), verbindungspfad(protokoll@)),
        ));
        Ok(((name, pfad), true))
    }
}

} // verus!
