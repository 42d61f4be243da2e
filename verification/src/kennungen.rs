//! Kennungen: die Zuordnung zwischen Telepathy-Griffen und Chat-Kennungen.
//!
//! Telepathy adressiert alles ueber Griffe, kleine Zahlen, die eine
//! Verbindung vergibt. Sie muessen ueber Neustarts hinweg gleich bleiben,
//! sonst zeigt der Verlauf der Nachrichten-App ins Leere.
//!
//! Der Schluessel ist die Chat-Kennung, der Anzeigename nur eine
//! Beschriftung: zwei Kontakte gleichen Namens fallen nicht zusammen, und
//! wer seinen Namen aendert, behaelt seinen Griff.
use std::collections::HashMap;

use vstd::prelude::*;
use vstd::std_specs::hash::spec_hash_map_iter;
use vstd::std_specs::iter::IteratorSpec;

use crate::karte::{aus_folge, folge_sicht, zahlkarte_aus, zahlpaare, zahlsicht, Karte};
use crate::text::{
    dezimal, ist_ziffer, text_aus, zeichen_anhaengen, ziffern, ziffern_lesen_sich_zurueck,
};

verus! {

broadcast use vstd::std_specs::hash::group_hash_axioms;

/// Die Kennungen als Mathematik.
#[verifier::ext_equal]
pub struct KennungenSicht {
    /// Chat-Kennung -> Griff.
    pub griffe: Map<Seq<char>, u32>,
    /// Griff -> Chat-Kennung.
    pub kennungen: Map<u32, Seq<char>>,
    /// Der naechste freie Griff.
    pub naechster: u32,
    /// Griff -> Anzeigename.
    pub namen: Map<u32, Seq<char>>,
    /// "<art>:<name>" -> Griff, fuer alles, was kein Kontakt ist.
    pub sonstige: Map<Seq<char>, u32>,
    /// Griff -> Name, fuer alles, was kein Kontakt ist.
    pub sonstige_namen: Map<u32, Seq<char>>,
}

/// Der Schluessel eines Griffs, der kein Kontakt ist: "<art>:<name>".
pub open spec fn sonstiger_schluessel(art: u32, name: Seq<char>) -> Seq<char> {
    ziffern(art as nat) + seq![':'] + name
}

impl KennungenSicht {
    /// Der Griff, den die naechste Vergabe bekommt.
    pub open spec fn frei(self) -> u32 {
        if self.naechster < 1 {
            1
        } else {
            self.naechster
        }
    }

    /// Der Griff zu einer Chat-Kennung; ein neuer, wenn sie fehlt.
    pub open spec fn nach_griff(self, k: Seq<char>) -> (KennungenSicht, u32) {
        if self.griffe.contains_key(k) {
            (self, self.griffe[k])
        } else {
            let g = self.frei();
            (
                KennungenSicht {
                    griffe: self.griffe.insert(k, g),
                    kennungen: self.kennungen.insert(g, k),
                    naechster: (g + 1) as u32,
                    ..self
                },
                g,
            )
        }
    }

    /// Der Griff fuer etwas, das kein Kontakt ist; ein neuer, wenn er fehlt.
    pub open spec fn nach_sonstigem_griff(self, art: u32, name: Seq<char>) -> (
        KennungenSicht,
        u32,
    ) {
        let s = sonstiger_schluessel(art, name);
        if self.sonstige.contains_key(s) {
            (self, self.sonstige[s])
        } else {
            let g = self.frei();
            (
                KennungenSicht {
                    sonstige: self.sonstige.insert(s, g),
                    sonstige_namen: self.sonstige_namen.insert(g, name),
                    naechster: (g + 1) as u32,
                    ..self
                },
                g,
            )
        }
    }

    /// `g` ist der einzige Griff, der den Anzeigenamen `text` traegt.
    pub open spec fn name_eindeutig(self, text: Seq<char>, g: u32) -> bool {
        &&& self.namen.contains_key(g)
        &&& self.namen[g] == text
        &&& forall|h: u32| #[trigger]
            self.namen.contains_key(h) && self.namen[h] == text ==> h == g
    }

    /// Der Griff zu einer Kennung oder einem eindeutigen Anzeigenamen; der
    /// zweite Teil sagt, ob er ueber den Namen gefunden wurde.
    pub open spec fn nach_aufloesen(self, text: Seq<char>) -> (KennungenSicht, (u32, bool)) {
        if self.griffe.contains_key(text) {
            (self, (self.griffe[text], false))
        } else if exists|g: u32| self.name_eindeutig(text, g) {
            (self, (choose|g: u32| self.name_eindeutig(text, g), true))
        } else {
            let (n, g) = self.nach_griff(text);
            (n, (g, false))
        }
    }

    /// Ein Anzeigename wird gesetzt, ein leerer nicht.
    pub open spec fn nach_name(self, g: u32, name: Seq<char>) -> KennungenSicht {
        if name.len() == 0 {
            self
        } else {
            KennungenSicht { namen: self.namen.insert(g, name), ..self }
        }
    }

    /// Der Name zu einem Griff: der Anzeigename, sonst die Kennung, sonst leer.
    pub open spec fn name_von(self, g: u32) -> Seq<char> {
        if self.namen.contains_key(g) {
            self.namen[g]
        } else if self.kennungen.contains_key(g) {
            self.kennungen[g]
        } else {
            Seq::empty()
        }
    }

    /// Griffe und Kennungen passen zueinander, und jeder vergebene Griff
    /// liegt unter dem naechsten freien.
    pub open spec fn stimmig(self) -> bool {
        &&& 1 <= self.naechster
        &&& forall|k: Seq<char>| #[trigger]
            self.griffe.contains_key(k) ==> self.kennungen.contains_key(self.griffe[k])
                && self.kennungen[self.griffe[k]] == k
        &&& forall|g: u32| #[trigger]
            self.kennungen.contains_key(g) ==> self.griffe.contains_key(self.kennungen[g])
                && self.griffe[self.kennungen[g]] == g && 1 <= g < self.naechster
        &&& forall|s: Seq<char>| #[trigger]
            self.sonstige.contains_key(s) ==> 1 <= self.sonstige[s] < self.naechster
                && !self.kennungen.contains_key(self.sonstige[s])
                && self.sonstige_namen.contains_key(self.sonstige[s])
        &&& forall|s1: Seq<char>, s2: Seq<char>|
            #![trigger self.sonstige[s1], self.sonstige[s2]]
            self.sonstige.contains_key(s1) && self.sonstige.contains_key(s2) && s1 != s2
                ==> self.sonstige[s1] != self.sonstige[s2]
        &&& forall|g: u32| #[trigger]
            self.sonstige_namen.contains_key(g) ==> 1 <= g < self.naechster
                && !self.kennungen.contains_key(g)
        &&& forall|art: u32, name: Seq<char>| #[trigger]
            self.sonstige.contains_key(sonstiger_schluessel(art, name))
                ==> self.sonstige_namen[self.sonstige[sonstiger_schluessel(art, name)]] == name
    }
}

/// Die Kennungen als schlichte Paare, so wie sie auf der Platte liegen.
pub struct KennungenTeile {
    pub zu_griff: Vec<(String, u32)>,
    pub zu_kennung: Vec<(u32, String)>,
    pub naechster: u32,
    pub namen: Vec<(u32, String)>,
    pub sonstige: Vec<(String, u32)>,
    pub sonstige_namen: Vec<(u32, String)>,
}

/// Was gelesene Teile bedeuten: spaetere Paare ueberschreiben fruehere, und
/// ein naechster Griff unter 1 wird 1.
pub open spec fn sicht_aus_teilen(t: KennungenTeile) -> KennungenSicht {
    KennungenSicht {
        griffe: aus_folge(folge_sicht(t.zu_griff@)),
        kennungen: aus_folge(folge_sicht(t.zu_kennung@)),
        naechster: if t.naechster < 1 {
            1
        } else {
            t.naechster
        },
        namen: aus_folge(folge_sicht(t.namen@)),
        sonstige: aus_folge(folge_sicht(t.sonstige@)),
        sonstige_namen: aus_folge(folge_sicht(t.sonstige_namen@)),
    }
}

/// Die Teile geben die Kennungen `k` wieder.
pub open spec fn teile_zeigen(t: KennungenTeile, k: KennungenSicht) -> bool {
    &&& aus_folge(folge_sicht(t.zu_griff@)) == k.griffe
    &&& aus_folge(folge_sicht(t.zu_kennung@)) == k.kennungen
    &&& t.naechster == k.naechster
    &&& aus_folge(folge_sicht(t.namen@)) == k.namen
    &&& aus_folge(folge_sicht(t.sonstige@)) == k.sonstige
    &&& aus_folge(folge_sicht(t.sonstige_namen@)) == k.sonstige_namen
}

/// Die Zuordnung zwischen Griffen und Chat-Kennungen eines Protokolls.
pub struct Kennungen {
    zu_griff: Karte<String, u32>,
    zu_kennung: HashMap<u32, String>,
    naechster: u32,
    namen: HashMap<u32, String>,
    sonstige: Karte<String, u32>,
    sonstige_namen: HashMap<u32, String>,
}

impl View for Kennungen {
    type V = KennungenSicht;

    closed spec fn view(&self) -> KennungenSicht {
        KennungenSicht {
            griffe: self.zu_griff.tiefe_sicht(),
            kennungen: zahlsicht(self.zu_kennung),
            naechster: self.naechster,
            namen: zahlsicht(self.namen),
            sonstige: self.sonstige.tiefe_sicht(),
            sonstige_namen: zahlsicht(self.sonstige_namen),
        }
    }
}

impl Kennungen {
    /// Keine Kennungen; der erste Griff wird 1.
    pub fn leer() -> (r: Self)
        ensures
            r@.griffe == Map::<Seq<char>, u32>::empty(),
            r@.kennungen == Map::<u32, Seq<char>>::empty(),
            r@.naechster == 1,
            r@.namen == Map::<u32, Seq<char>>::empty(),
            r@.sonstige == Map::<Seq<char>, u32>::empty(),
            r@.sonstige_namen == Map::<u32, Seq<char>>::empty(),
            r@.stimmig(),
    {
        let r = Kennungen {
            zu_griff: Karte::neu(),
            zu_kennung: HashMap::new(),
            naechster: 1,
            namen: HashMap::new(),
            sonstige: Karte::neu(),
            sonstige_namen: HashMap::new(),
        };
        assert(r@.griffe =~= Map::<Seq<char>, u32>::empty());
        assert(r@.kennungen =~= Map::<u32, Seq<char>>::empty());
        assert(r@.namen =~= Map::<u32, Seq<char>>::empty());
        assert(r@.sonstige =~= Map::<Seq<char>, u32>::empty());
        assert(r@.sonstige_namen =~= Map::<u32, Seq<char>>::empty());
        r
    }

    /// Ob eine Chat-Kennung schon einen Griff hat.
    pub fn hat_griff(&self, kennung: &str) -> (r: bool)
        ensures
            r == self@.griffe.contains_key(kennung@),
    {
        self.zu_griff.enthaelt(&text_aus(kennung))
    }

    /// Der naechste freie Griff.
    pub fn naechster(&self) -> (r: u32)
        ensures
            r == self@.naechster,
    {
        self.naechster
    }

    /// Ob kein Griff mehr vergeben werden kann.
    pub fn erschoepft(&self) -> (r: bool)
        ensures
            r == (self@.naechster == u32::MAX),
    {
        self.naechster == u32::MAX
    }

    /// Der Griff zu einer Chat-Kennung; legt ihn an, wenn er fehlt.
    pub fn griff(&mut self, kennung: &str) -> (g: u32)
        requires
            old(self)@.griffe.contains_key(kennung@) || old(self)@.naechster < u32::MAX,
        ensures
            (final(self)@, g) == old(self)@.nach_griff(kennung@),
    {
        let k = text_aus(kennung);
        match self.zu_griff.hole(&k) {
            Some(g) => {
                return *g;
            },
            None => {},
        }
        let g: u32 = if self.naechster < 1 {
            1
        } else {
            self.naechster
        };
        let k2 = k.clone();
        let ghost alt = self@;
        let mut zg = Karte::neu();
        std::mem::swap(&mut zg, &mut self.zu_griff);
        zg.setzen(k2, g);
        self.zu_kennung.insert(g, k);
        self.zu_griff = zg;
        self.naechster = g + 1;
        proof {
            assert(self@ =~= alt.nach_griff(kennung@).0);
        }
        g
    }

    /// Ein Griff fuer etwas, das kein Kontakt ist (Griffart nicht 1).
    ///
    /// Eigene Nummern aus demselben Zaehler, aber getrennt gefuehrt, damit
    /// `kennung` sie nie zurueckgibt.
    pub fn sonstiger_griff(&mut self, art: u32, name: &str) -> (g: u32)
        requires
            old(self)@.sonstige.contains_key(sonstiger_schluessel(art, name@))
                || old(self)@.naechster < u32::MAX,
        ensures
            (final(self)@, g) == old(self)@.nach_sonstigem_griff(art, name@),
    {
        let mut schluessel = dezimal(art as u64);
        zeichen_anhaengen(&mut schluessel, ':');
        schluessel.append(name);
        assert(schluessel@ =~= sonstiger_schluessel(art, name@));
        match self.sonstige.hole(&schluessel) {
            Some(g) => {
                return *g;
            },
            None => {},
        }
        let g: u32 = if self.naechster < 1 {
            1
        } else {
            self.naechster
        };
        let ghost alt = self@;
        let mut so = Karte::neu();
        std::mem::swap(&mut so, &mut self.sonstige);
        so.setzen(schluessel, g);
        self.sonstige_namen.insert(g, text_aus(name));
        self.sonstige = so;
        self.naechster = g + 1;
        proof {
            assert(self@ =~= alt.nach_sonstigem_griff(art, name@).0);
        }
        g
    }

    /// Wie ein solcher Griff heisst; fuer InspectHandles.
    pub fn sonstiger_name(&self, griff: u32) -> (r: Option<&str>)
        ensures
            r is Some <==> self@.sonstige_namen.contains_key(griff),
            r is Some ==> r->0@ == self@.sonstige_namen[griff],
    {
        match self.sonstige_namen.get(&griff) {
            Some(n) => Some(n.as_str()),
            None => None,
        }
    }

    /// Die Chat-Kennung zu einem Griff.
    pub fn kennung(&self, griff: u32) -> (r: Option<&str>)
        ensures
            r is Some <==> self@.kennungen.contains_key(griff),
            r is Some ==> r->0@ == self@.kennungen[griff],
    {
        match self.zu_kennung.get(&griff) {
            Some(k) => Some(k.as_str()),
            None => None,
        }
    }

    /// Setzt den Anzeigenamen eines Griffs; ein leerer Name aendert nichts.
    pub fn name_setzen(&mut self, griff: u32, name: &str)
        ensures
            final(self)@ == old(self)@.nach_name(griff, name@),
    {
        let ghost alt = self@;
        if !name.is_empty() {
            self.namen.insert(griff, text_aus(name));
        }
        proof {
            assert(self@ =~= alt.nach_name(griff, name@));
        }
    }

    /// Der einzige Griff, der den Anzeigenamen `k` traegt, wenn es genau
    /// einen gibt.
    fn namen_treffer(&self, k: &String) -> (r: Option<u32>)
        ensures
            match r {
                Some(g) => self@.name_eindeutig(k@, g),
                None => !(exists|g: u32| self@.name_eindeutig(k@, g)),
            },
    {
        let ghost sicht = self@;
        let ghost alle_e = spec_hash_map_iter(&self.namen).remaining();
        let mut treffer: Option<u32> = None;
        let mut mehrdeutig = false;
        for e in it: self.namen.iter()
            invariant
                sicht == self@,
                alle_e == spec_hash_map_iter(&self.namen).remaining(),
                it.seq() == alle_e,
                !mehrdeutig ==> match treffer {
                    None => forall|j: int|
                        0 <= j < it.index() ==> sicht.namen[#[trigger] *alle_e[j].0] != k@,
                    Some(g) => sicht.namen.contains_key(g) && sicht.namen[g] == k@ && forall|j: int|
                        0 <= j < it.index() && sicht.namen[#[trigger] *alle_e[j].0] == k@
                            ==> *alle_e[j].0 == g,
                },
                mehrdeutig ==> treffer is None,
                mehrdeutig ==> exists|g1: u32, g2: u32|
                    g1 != g2 && sicht.namen.contains_key(g1) && sicht.namen.contains_key(g2)
                        && sicht.namen[g1] == k@ && sicht.namen[g2] == k@,
        {
            let (g, name) = e;
            proof {
                assert(alle_e[it.index() as int] == e);
                assert(self.namen@.contains_key(*g) && self.namen@[*g] == *name);
                assert(sicht.namen[*g] == name@);
            }
            if !mehrdeutig && *name == *k {
                match treffer {
                    Some(t) => {
                        if t != *g {
                            assert(sicht.namen.contains_key(t) && sicht.namen[t] == k@);
                            assert(sicht.namen.contains_key(*g) && sicht.namen[*g] == k@);
                            mehrdeutig = true;
                            treffer = None;
                        }
                    },
                    None => {
                        treffer = Some(*g);
                    },
                }
            }
        }
        proof {
            assert forall|h: u32| #[trigger]
                sicht.namen.contains_key(h) && sicht.namen[h] == k@ implies exists|j: int|
                0 <= j < alle_e.len() && *alle_e[j].0 == h by {
                assert(self.namen@.contains_key(h));
                assert(alle_e.contains((&h, &self.namen@[h])));
                let j = choose|j: int| 0 <= j < alle_e.len() && alle_e[j] == (&h, &self.namen@[h]);
                assert(*alle_e[j].0 == h);
            }
            assert forall|g: u32| #[trigger] sicht.name_eindeutig(k@, g) implies (!mehrdeutig
                && treffer == Some(g)) by {
                if !mehrdeutig {
                    let j = choose|j: int| 0 <= j < alle_e.len() && *alle_e[j].0 == g;
                    assert(sicht.namen[*alle_e[j].0] == k@);
                }
            }
        }
        match treffer {
            Some(g) => {
                proof {
                    assert forall|h: u32| #[trigger]
                        sicht.namen.contains_key(h) && sicht.namen[h] == k@ implies h == g by {
                        let j = choose|j: int| 0 <= j < alle_e.len() && *alle_e[j].0 == h;
                        assert(sicht.namen[*alle_e[j].0] == k@);
                    }
                    assert(sicht.name_eindeutig(k@, g));
                }
                Some(g)
            },
            None => None,
        }
    }

    /// Der Griff, den `aufloesen(text)` ohne neuen Griff findet: ueber die
    /// Kennung oder einen eindeutigen Anzeigenamen; nichts, wo `aufloesen`
    /// einen neuen vergeben wuerde. Aendert nichts.
    pub fn gefunden(&self, text: &str) -> (r: Option<(u32, bool)>)
        ensures
            r is Some <==> (self@.griffe.contains_key(text@) || exists|g: u32|
                self@.name_eindeutig(text@, g)),
            r matches Some(x) ==> self@.nach_aufloesen(text@) == (self@, x),
    {
        let k = text_aus(text);
        match self.zu_griff.hole(&k) {
            Some(g) => {
                return Some((*g, false));
            },
            None => {},
        }
        match self.namen_treffer(&k) {
            Some(g) => {
                proof {
                    let c = choose|h: u32| self@.name_eindeutig(text@, h);
                    assert(self@.name_eindeutig(text@, c));
                    assert(c == g);
                }
                Some((g, true))
            },
            None => None,
        }
    }

    /// Der Griff zu einer Kennung ODER einem Anzeigenamen.
    ///
    /// Erst die Kennung, dann der Name, und nur wenn beides nichts findet
    /// ein neuer Griff. Ist der Name mehrdeutig, wird er nicht benutzt.
    /// Der zweite Teil sagt, ob der Griff ueber den Namen gefunden wurde.
    pub fn aufloesen(&mut self, text: &str) -> (r: (u32, bool))
        requires
            old(self)@.griffe.contains_key(text@) || (exists|g: u32|
                old(self)@.name_eindeutig(text@, g)) || old(self)@.naechster < u32::MAX,
        ensures
            (final(self)@, r) == old(self)@.nach_aufloesen(text@),
    {
        match self.gefunden(text) {
            Some(x) => x,
            None => {
                let g = self.griff(text);
                (g, false)
            },
        }
    }

    /// Kennungen aus gelesenen Teilen. Ein naechster Griff unter 1 wird 1.
    pub fn aus_teilen(t: &KennungenTeile) -> (r: Self)
        ensures
            r@ == sicht_aus_teilen(*t),
    {
        let r = Kennungen {
            zu_griff: Karte::aus_paaren(&t.zu_griff),
            zu_kennung: zahlkarte_aus(&t.zu_kennung),
            naechster: if t.naechster < 1 {
                1
            } else {
                t.naechster
            },
            namen: zahlkarte_aus(&t.namen),
            sonstige: Karte::aus_paaren(&t.sonstige),
            sonstige_namen: zahlkarte_aus(&t.sonstige_namen),
        };
        assert(r@ =~= sicht_aus_teilen(*t));
        r
    }

    /// Die Kennungen als Teile, zum Sichern.
    pub fn teile(&self) -> (r: KennungenTeile)
        ensures
            teile_zeigen(r, self@),
    {
        KennungenTeile {
            zu_griff: self.zu_griff.paare(),
            zu_kennung: zahlpaare(&self.zu_kennung),
            naechster: self.naechster,
            namen: zahlpaare(&self.namen),
            sonstige: self.sonstige.paare(),
            sonstige_namen: zahlpaare(&self.sonstige_namen),
        }
    }

    /// Der Name zu einem Griff: der Anzeigename, sonst die Kennung, sonst leer.
    pub fn name(&self, griff: u32) -> (r: String)
        ensures
            r@ == self@.name_von(griff),
    {
        match self.namen.get(&griff) {
            Some(n) => n.clone(),
            None => match self.zu_kennung.get(&griff) {
                Some(k) => k.clone(),
                None => String::new(),
            },
        }
    }
}

/// Ein vergebener Griff bleibt: wer dieselbe Kennung noch einmal nennt,
/// bekommt denselben Griff, und nichts aendert sich.
pub proof fn griff_ist_bestaendig(s: KennungenSicht, k: Seq<char>)
    ensures
        ({
            let (t, g) = s.nach_griff(k);
            t.nach_griff(k) == (t, g)
        }),
{
}

/// Die Vergabe eines Griffs haelt die Kennungen stimmig, und der Griff
/// fuehrt zur Kennung zurueck.
pub proof fn griff_fuehrt_zur_kennung(s: KennungenSicht, k: Seq<char>)
    requires
        s.stimmig(),
        s.griffe.contains_key(k) || s.naechster < u32::MAX,
    ensures
        ({
            let (t, g) = s.nach_griff(k);
            &&& t.stimmig()
            &&& t.kennungen.contains_key(g)
            &&& t.kennungen[g] == k
            &&& t.griffe[k] == g
        }),
{
    let (t, g) = s.nach_griff(k);
    if !s.griffe.contains_key(k) {
        assert forall|x: Seq<char>| #[trigger] t.griffe.contains_key(x) implies t.kennungen.contains_key(
            t.griffe[x],
        ) && t.kennungen[t.griffe[x]] == x by {
            if x != k {
                assert(s.griffe.contains_key(x));
                assert(s.griffe[x] < s.naechster);
            }
        }
        assert forall|h: u32| #[trigger] t.kennungen.contains_key(h) implies t.griffe.contains_key(
            t.kennungen[h],
        ) && t.griffe[t.kennungen[h]] == h && h < t.naechster by {
            if h != g {
                assert(s.kennungen.contains_key(h));
                assert(s.kennungen[h] != k);
            }
        }
    }
}

/// Zwei verschiedene Kennungen bekommen nacheinander zwei verschiedene
/// Griffe.
pub proof fn verschiedene_kennungen_verschiedene_griffe(
    s: KennungenSicht,
    k1: Seq<char>,
    k2: Seq<char>,
)
    requires
        s.stimmig(),
        k1 != k2,
        s.naechster < u32::MAX - 1,
    ensures
        ({
            let (t1, g1) = s.nach_griff(k1);
            let (t2, g2) = t1.nach_griff(k2);
            g1 != g2 && t2.stimmig()
        }),
{
    griff_fuehrt_zur_kennung(s, k1);
    let (t1, g1) = s.nach_griff(k1);
    griff_fuehrt_zur_kennung(t1, k2);
}

/// Ein Griff fuer etwas, das kein Kontakt ist, ist nie der Griff eines
/// Kontakts: `kennung` gibt zu ihm nichts zurueck. Er traegt den Namen, mit
/// dem er erbeten wurde, auch wenn er schon da war und nur wiedergefunden
/// wird.
pub proof fn sonstige_griffe_sind_keine_kontakte(s: KennungenSicht, art: u32, name: Seq<char>)
    requires
        s.stimmig(),
        s.sonstige.contains_key(sonstiger_schluessel(art, name)) || s.naechster < u32::MAX,
    ensures
        ({
            let (t, g) = s.nach_sonstigem_griff(art, name);
            &&& t.stimmig()
            &&& !t.kennungen.contains_key(g)
            &&& t.griffe == s.griffe
            &&& t.kennungen == s.kennungen
            &&& t.sonstige_namen.contains_key(g)
            &&& t.sonstige_namen[g] == name
            &&& t.sonstige[sonstiger_schluessel(art, name)] == g
            &&& 1 <= g < t.naechster
        }),
{
    let sk = sonstiger_schluessel(art, name);
    let (t, g) = s.nach_sonstigem_griff(art, name);
    if s.sonstige.contains_key(sk) {
        assert(s.sonstige_namen[s.sonstige[sk]] == name);
    } else {
        assert forall|a: u32, n: Seq<char>| #[trigger]
            t.sonstige.contains_key(sonstiger_schluessel(a, n)) implies t.sonstige_namen[t.sonstige[sonstiger_schluessel(
            a,
            n,
        )]] == n by {
            let k = sonstiger_schluessel(a, n);
            if k == sk {
                schluessel_eindeutig(a, n, art, name);
            } else {
                assert(s.sonstige.contains_key(k));
                assert(s.sonstige[k] < s.naechster);
                assert(s.sonstige_namen[s.sonstige[k]] == n);
            }
        }
        assert forall|s1: Seq<char>, s2: Seq<char>|
            #![trigger t.sonstige[s1], t.sonstige[s2]]
            t.sonstige.contains_key(s1) && t.sonstige.contains_key(s2) && s1 != s2
                implies t.sonstige[s1] != t.sonstige[s2] by {
            if s1 != sk {
                assert(s.sonstige[s1] < s.naechster);
            }
            if s2 != sk {
                assert(s.sonstige[s2] < s.naechster);
            }
        }
    }
}

/// Ein Anzeigename aendert keinen Griff: wer seinen Namen aendert, behaelt
/// seinen Gespraechsfaden.
pub proof fn name_aendert_keinen_griff(s: KennungenSicht, g: u32, name: Seq<char>, k: Seq<char>)
    ensures
        s.stimmig() ==> s.nach_name(g, name).stimmig(),
        s.nach_name(g, name).nach_griff(k).1 == s.nach_griff(k).1,
        s.nach_name(g, name).griffe == s.griffe,
        s.nach_name(g, name).kennungen == s.kennungen,
{
}

/// Aufloesen haelt die Kennungen stimmig; wird ueber eine Kennung oder
/// einen Namen gefunden, so aendert sich nichts.
pub proof fn aufloesen_bleibt_stimmig(s: KennungenSicht, text: Seq<char>)
    requires
        s.stimmig(),
        s.griffe.contains_key(text) || (exists|g: u32| s.name_eindeutig(text, g)) || s.naechster
            < u32::MAX,
    ensures
        s.nach_aufloesen(text).0.stimmig(),
        s.nach_aufloesen(text).1.1 ==> s.nach_aufloesen(text).0 == s,
        s.griffe.contains_key(text) ==> s.nach_aufloesen(text) == (s, (s.griffe[text], false)),
{
    if !s.griffe.contains_key(text) && !(exists|g: u32| s.name_eindeutig(text, g)) {
        griff_fuehrt_zur_kennung(s, text);
    }
}

/// Ein mehrdeutiger Name wird nie benutzt: tragen zwei Griffe denselben
/// Anzeigenamen, so fuehrt er zu keinem von beiden.
pub proof fn mehrdeutiger_name_wird_nicht_benutzt(
    s: KennungenSicht,
    text: Seq<char>,
    g1: u32,
    g2: u32,
)
    requires
        g1 != g2,
        s.namen.contains_key(g1),
        s.namen.contains_key(g2),
        s.namen[g1] == text,
        s.namen[g2] == text,
    ensures
        !s.nach_aufloesen(text).1.1,
{
    assert forall|g: u32| !s.name_eindeutig(text, g) by {
        if s.name_eindeutig(text, g) {
            assert(g1 == g);
            assert(g2 == g);
        }
    }
}

/// Sichern und wieder Laden gibt dieselben Kennungen: die Griffe bleiben
/// ueber einen Neustart hinweg gleich.
pub proof fn sichern_und_laden_behalten_griffe(k: KennungenSicht, t: KennungenTeile)
    requires
        teile_zeigen(t, k),
        k.stimmig(),
    ensures
        sicht_aus_teilen(t) == k,
{
    assert(sicht_aus_teilen(t) =~= k);
}

/// Das Schild eines Kanals taugt zum Adressieren: wer mit dem Namen eines
/// Griffs anfragt, bekommt den Griff zurueck, solange der Name eindeutig
/// ist und keine Kennung eines anderen Chats; ohne Namen ist das Schild die
/// Kennung selbst.
pub proof fn schild_findet_griff(s: KennungenSicht, g: u32)
    requires
        s.stimmig(),
        s.kennungen.contains_key(g),
        s.namen.contains_key(g) ==> s.name_eindeutig(s.namen[g], g) && !s.griffe.contains_key(
            s.namen[g],
        ),
    ensures
        s.nach_aufloesen(s.name_von(g)) == (s, (g, s.namen.contains_key(g))),
{
    if s.namen.contains_key(g) {
        let t = s.namen[g];
        assert(s.name_eindeutig(t, g));
        let c = choose|h: u32| s.name_eindeutig(t, h);
        assert(s.name_eindeutig(t, c));
        assert(c == g);
    }
}

/// Ein Aufruf, der die Kennungen aendern kann.
pub enum KennungenAufruf {
    /// `griff(kennung)`
    Griff(Seq<char>),
    /// `sonstiger_griff(art, name)`
    Sonstiger(u32, Seq<char>),
    /// `name_setzen(griff, name)`
    Name(u32, Seq<char>),
    /// `aufloesen(text)`
    Aufloesen(Seq<char>),
}

/// Die Kennungen nach einem Aufruf.
pub open spec fn nach_aufruf(s: KennungenSicht, a: KennungenAufruf) -> KennungenSicht {
    match a {
        KennungenAufruf::Griff(k) => s.nach_griff(k).0,
        KennungenAufruf::Sonstiger(art, name) => s.nach_sonstigem_griff(art, name).0,
        KennungenAufruf::Name(g, name) => s.nach_name(g, name),
        KennungenAufruf::Aufloesen(t) => s.nach_aufloesen(t).0,
    }
}

/// Die Kennungen nach einer Folge von Aufrufen.
pub open spec fn nach_aufrufen(s: KennungenSicht, l: Seq<KennungenAufruf>) -> KennungenSicht
    decreases l.len(),
{
    if l.len() == 0 {
        s
    } else {
        nach_aufruf(nach_aufrufen(s, l.drop_last()), l.last())
    }
}

proof fn aufruf_haelt(s: KennungenSicht, a: KennungenAufruf)
    requires
        s.stimmig(),
        s.naechster < u32::MAX,
    ensures
        nach_aufruf(s, a).stimmig(),
        s.naechster <= nach_aufruf(s, a).naechster <= s.naechster + 1,
        forall|x: Seq<char>| #[trigger]
            s.griffe.contains_key(x) ==> nach_aufruf(s, a).griffe.contains_key(x)
                && nach_aufruf(s, a).griffe[x] == s.griffe[x],
        forall|y: Seq<char>| #[trigger]
            s.sonstige.contains_key(y) ==> nach_aufruf(s, a).sonstige.contains_key(y)
                && nach_aufruf(s, a).sonstige[y] == s.sonstige[y],
{
    match a {
        KennungenAufruf::Griff(k) => {
            griff_fuehrt_zur_kennung(s, k);
        },
        KennungenAufruf::Sonstiger(art, name) => {
            sonstige_griffe_sind_keine_kontakte(s, art, name);
        },
        KennungenAufruf::Name(g, name) => {},
        KennungenAufruf::Aufloesen(t) => {
            aufloesen_bleibt_stimmig(s, t);
            if !s.griffe.contains_key(t) && !(exists|g: u32| s.name_eindeutig(t, g)) {
                griff_fuehrt_zur_kennung(s, t);
            }
        },
    }
}

/// Ein vergebener Griff bleibt ueber jede Folge von Aufrufen hinweg: die
/// Chat-Kennung ist der Schluessel, kein Anzeigename, kein anderer Griff und
/// kein Aufloesen gibt ihr einen neuen. Die Kennungen bleiben dabei stimmig,
/// und jeder Aufruf verbraucht hoechstens einen neuen Griff.
pub proof fn griff_bleibt_ueber_alle_aufrufe(
    s: KennungenSicht,
    l: Seq<KennungenAufruf>,
    x: Seq<char>,
)
    requires
        s.stimmig(),
        s.naechster + l.len() < u32::MAX,
    ensures
        nach_aufrufen(s, l).stimmig(),
        s.naechster <= nach_aufrufen(s, l).naechster <= s.naechster + l.len(),
        s.griffe.contains_key(x) ==> nach_aufrufen(s, l).griffe.contains_key(x)
            && nach_aufrufen(s, l).griffe[x] == s.griffe[x],
        s.griffe.contains_key(x) ==> nach_aufrufen(s, l).nach_griff(x) == (
            nach_aufrufen(s, l),
            s.griffe[x],
        ),
    decreases l.len(),
{
    if l.len() > 0 {
        griff_bleibt_ueber_alle_aufrufe(s, l.drop_last(), x);
        aufruf_haelt(nach_aufrufen(s, l.drop_last()), l.last());
    }
}

/// Ein Griff fuer etwas, das kein Kontakt ist, bleibt ueber jede Folge von
/// Aufrufen hinweg: dieselbe Griffart mit demselben Namen findet ihn wieder,
/// ohne etwas zu aendern, er traegt weiter diesen Namen, und er wird nie der
/// Griff einer Kennung, also nie einer, den `griff` oder `aufloesen`
/// zurueckgibt.
pub proof fn sonstiger_griff_bleibt_ueber_alle_aufrufe(
    s: KennungenSicht,
    l: Seq<KennungenAufruf>,
    art: u32,
    name: Seq<char>,
)
    requires
        s.stimmig(),
        s.naechster + l.len() < u32::MAX,
        s.sonstige.contains_key(sonstiger_schluessel(art, name)),
    ensures
        ({
            let t = nach_aufrufen(s, l);
            let g = s.sonstige[sonstiger_schluessel(art, name)];
            &&& t.stimmig()
            &&& t.nach_sonstigem_griff(art, name) == (t, g)
            &&& t.sonstige_namen.contains_key(g)
            &&& t.sonstige_namen[g] == name
            &&& !t.kennungen.contains_key(g)
            &&& forall|x: Seq<char>| #[trigger] t.griffe.contains_key(x) ==> t.griffe[x] != g
        }),
    decreases l.len(),
{
    let k = sonstiger_schluessel(art, name);
    griff_bleibt_ueber_alle_aufrufe(s, l, Seq::empty());
    if l.len() > 0 {
        sonstiger_griff_bleibt_ueber_alle_aufrufe(s, l.drop_last(), art, name);
        griff_bleibt_ueber_alle_aufrufe(s, l.drop_last(), Seq::empty());
        aufruf_haelt(nach_aufrufen(s, l.drop_last()), l.last());
        assert(nach_aufrufen(s, l.drop_last()).sonstige.contains_key(k));
    }
    let t = nach_aufrufen(s, l);
    assert(t.sonstige.contains_key(k));
    assert(t.sonstige_namen[t.sonstige[k]] == name);
    assert forall|x: Seq<char>| #[trigger] t.griffe.contains_key(x) implies t.griffe[x] != t.sonstige[k] by {
        assert(t.kennungen.contains_key(t.griffe[x]));
    }
}

/// Griff und Kennung sind zueinander umkehrbar, und Griff 0 gehoert zu
/// keiner Kennung: `kennung(griff(x)) == x`, und `kennung(g) == x` nur fuer
/// den Griff von `x`.
pub proof fn kennung_ist_umkehrung_des_griffs(s: KennungenSicht, x: Seq<char>, g: u32)
    requires
        s.stimmig(),
    ensures
        !s.kennungen.contains_key(0),
        s.griffe.contains_key(x) ==> s.kennungen.contains_key(s.griffe[x]) && s.kennungen[s.griffe[
            x
        ]] == x,
        s.kennungen.contains_key(g) && s.kennungen[g] == x ==> s.griffe.contains_key(x)
            && s.griffe[x] == g,
{
    if s.kennungen.contains_key(0) {
        assert(1 <= 0u32);
    }
}

/// Ein neuer Griff ist frisch: er gehoert weder einer Kennung noch etwas
/// anderem, das kein Kontakt ist, und ist nicht 0.
pub proof fn neuer_griff_ist_frisch(s: KennungenSicht, h: u32)
    requires
        s.stimmig(),
        s.kennungen.contains_key(h) || (exists|t: Seq<char>| s.sonstige.contains_key(t) && s.sonstige[t] == h),
    ensures
        h != s.frei(),
        h != 0,
{
}

/// Verschiedene Griffart oder verschiedener Name ergeben verschiedene
/// Schluessel.
proof fn schluessel_eindeutig(a1: u32, n1: Seq<char>, a2: u32, n2: Seq<char>)
    requires
        sonstiger_schluessel(a1, n1) == sonstiger_schluessel(a2, n2),
    ensures
        a1 == a2,
        n1 == n2,
{
    let z1 = ziffern(a1 as nat);
    let z2 = ziffern(a2 as nat);
    let k = sonstiger_schluessel(a1, n1);
    ziffern_lesen_sich_zurueck(a1 as nat);
    ziffern_lesen_sich_zurueck(a2 as nat);
    if z1.len() < z2.len() {
        assert(k[z1.len() as int] == ':');
        assert(ist_ziffer(z2[z1.len() as int]));
        assert(false);
    }
    if z2.len() < z1.len() {
        assert(k[z2.len() as int] == ':');
        assert(ist_ziffer(z1[z2.len() as int]));
        assert(false);
    }
    assert(z1 =~= k.subrange(0, z1.len() as int));
    assert(z2 =~= k.subrange(0, z1.len() as int));
    assert(n1 =~= k.subrange(z1.len() as int + 1, k.len() as int));
    assert(n2 =~= k.subrange(z1.len() as int + 1, k.len() as int));
}

/// Verschiedene Dinge, die keine Kontakte sind, haben verschiedene Griffe,
/// und ein wiederholter Aufruf gibt denselben Griff ohne Aenderung.
pub proof fn sonstige_griffe_verschieden(s: KennungenSicht, a1: u32, n1: Seq<char>, a2: u32, n2: Seq<char>)
    requires
        s.stimmig(),
        s.naechster < u32::MAX - 1,
        a1 != a2 || n1 != n2,
    ensures
        ({
            let (t1, g1) = s.nach_sonstigem_griff(a1, n1);
            let (t2, g2) = t1.nach_sonstigem_griff(a2, n2);
            &&& g1 != g2
            &&& t2.nach_sonstigem_griff(a1, n1) == (t2, g1)
            &&& !t2.kennungen.contains_key(g1) && !t2.kennungen.contains_key(g2)
            &&& !s.sonstige.contains_key(sonstiger_schluessel(a1, n1)) ==> t2.sonstige_namen[g1]
                == n1
            &&& !t1.sonstige.contains_key(sonstiger_schluessel(a2, n2)) ==> t2.sonstige_namen[g2]
                == n2
        }),
{
    if sonstiger_schluessel(a1, n1) == sonstiger_schluessel(a2, n2) {
        schluessel_eindeutig(a1, n1, a2, n2);
    }
    sonstige_griffe_sind_keine_kontakte(s, a1, n1);
    let (t1, g1) = s.nach_sonstigem_griff(a1, n1);
    sonstige_griffe_sind_keine_kontakte(t1, a2, n2);
}

} // verus!
