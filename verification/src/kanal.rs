//! Ein Textkanal: ein Gespraechsfaden, wie Telepathy ihn kennt.
//!
//! Eingehende Nachrichten stehen im Kanal aus, bis die Nachrichten-App sie
//! bestaetigt. Geschlossen wird ein Kanal nie: mit ihm ginge der
//! Gespraechsfaden verloren.
use vstd::prelude::*;

use crate::GRIFF_KONTAKT;

verus! {

/// Eine ausstehende Nachricht: (Nummer, Zeit, Absender, Art, Flags, Text).
pub type Ausstehend = (u32, u32, u32, u32, u32, String);

/// Eine ausstehende Nachricht als Mathematik.
pub open spec fn ausstehend_sicht(a: Ausstehend) -> (u32, u32, u32, u32, u32, Seq<char>) {
    (a.0, a.1, a.2, a.3, a.4, a.5@)
}

/// Die Sicht einer Folge ausstehender Nachrichten.
pub open spec fn ausstehende_sicht(s: Seq<Ausstehend>) -> Seq<(u32, u32, u32, u32, u32, Seq<char>)> {
    s.map_values(|a: Ausstehend| ausstehend_sicht(a))
}

/// Die Nachrichten, deren Nummer nicht unter den bestaetigten ist, in
/// ihrer Reihenfolge.
pub open spec fn ohne_bestaetigte(
    s: Seq<(u32, u32, u32, u32, u32, Seq<char>)>,
    nummern: Seq<u32>,
) -> Seq<(u32, u32, u32, u32, u32, Seq<char>)>
    decreases s.len(),
{
    if s.len() == 0 {
        s
    } else {
        let rest = ohne_bestaetigte(s.drop_last(), nummern);
        if nummern.contains(s.last().0) {
            rest
        } else {
            rest.push(s.last())
        }
    }
}

/// Der Zustand eines Textkanals.
pub struct KanalZustand {
    pub pfad: String,
    pub griff: u32,
    pub griffart: u32,
    pub kennung: String,
    pub ausstehend: Vec<Ausstehend>,
    pub naechste_nummer: u32,
    pub geschlossen: bool,
    /// Wann zuletzt an CommHistory gemeldet, in Millisekunden; nie: `None`.
    pub zuletzt_gemeldet: Option<u64>,
}

fn kopie(a: &Ausstehend) -> (r: Ausstehend)
    ensures
        ausstehend_sicht(r) == ausstehend_sicht(*a),
{
    (a.0, a.1, a.2, a.3, a.4, a.5.clone())
}

impl KanalZustand {
    /// Ein frischer Kanal an einen Kontakt: nichts steht aus, nie gemeldet.
    pub fn neu(pfad: String, griff: u32, kennung: String) -> (r: Self)
        ensures
            r.pfad == pfad,
            r.griff == griff,
            r.griffart == GRIFF_KONTAKT,
            r.kennung == kennung,
            r.ausstehend@.len() == 0,
            r.naechste_nummer == 0,
            !r.geschlossen,
            r.zuletzt_gemeldet is None,
    {
        KanalZustand {
            pfad,
            griff,
            griffart: GRIFF_KONTAKT,
            kennung,
            ausstehend: Vec::new(),
            naechste_nummer: 0,
            geschlossen: false,
            zuletzt_gemeldet: None,
        }
    }

    /// Eine Nachricht kommt an: sie bekommt die naechste Nummer und steht
    /// aus. Gibt die Nummer zurueck und wie viele vorher schon ausstanden.
    /// Die Zeit geht wie bei Telepathy als 32 Bit.
    pub fn empfangen(&mut self, zeit: u64, text: String) -> (r: (u32, usize))
        requires
            old(self).naechste_nummer < u32::MAX,
        ensures
            r.0 == old(self).naechste_nummer + 1,
            r.1 == old(self).ausstehend@.len(),
            final(self).naechste_nummer == r.0,
            final(self).ausstehend@ == old(self).ausstehend@.push(
                (r.0, zeit as u32, old(self).griff, 0u32, 0u32, text),
            ),
            final(self).pfad == old(self).pfad,
            final(self).griff == old(self).griff,
            final(self).griffart == old(self).griffart,
            final(self).kennung == old(self).kennung,
            final(self).geschlossen == old(self).geschlossen,
            final(self).zuletzt_gemeldet == old(self).zuletzt_gemeldet,
    {
        self.naechste_nummer = self.naechste_nummer + 1;
        let nummer = self.naechste_nummer;
        let offen = self.ausstehend.len();
        self.ausstehend.push((nummer, #[verifier::truncate] (zeit as u32), self.griff, 0, 0, text));
        (nummer, offen)
    }

    /// ListPendingMessages: alle ausstehenden Nachrichten; auf Wunsch
    /// werden sie dabei geloescht.
    pub fn ausstehende(&mut self, loeschen: bool) -> (r: Vec<Ausstehend>)
        ensures
            ausstehende_sicht(r@) == ausstehende_sicht(old(self).ausstehend@),
            loeschen ==> final(self).ausstehend@.len() == 0,
            !loeschen ==> final(self).ausstehend@ == old(self).ausstehend@,
            final(self).naechste_nummer == old(self).naechste_nummer,
            final(self).pfad == old(self).pfad,
            final(self).griff == old(self).griff,
            final(self).griffart == old(self).griffart,
            final(self).kennung == old(self).kennung,
            final(self).geschlossen == old(self).geschlossen,
            final(self).zuletzt_gemeldet == old(self).zuletzt_gemeldet,
    {
        let mut r: Vec<Ausstehend> = Vec::new();
        let mut i: usize = 0;
        while i < self.ausstehend.len()
            invariant
                i <= self.ausstehend@.len(),
                ausstehende_sicht(r@) == ausstehende_sicht(self.ausstehend@.subrange(0, i as int)),
            decreases self.ausstehend@.len() - i,
        {
            let ghost vor = r@;
            let x = kopie(&self.ausstehend[i]);
            r.push(x);
            assert(ausstehende_sicht(r@) =~= ausstehende_sicht(vor).push(ausstehend_sicht(x)));
            assert(ausstehende_sicht(self.ausstehend@.subrange(0, i + 1)) =~= ausstehende_sicht(
                self.ausstehend@.subrange(0, i as int),
            ).push(ausstehend_sicht(self.ausstehend@[i as int])));
            i = i + 1;
        }
        assert(self.ausstehend@.subrange(0, self.ausstehend@.len() as int) =~= self.ausstehend@);
        if loeschen {
            self.ausstehend.clear();
        }
        r
    }

    /// AcknowledgePendingMessages: die bestaetigten Nummern stehen nicht
    /// mehr aus, alle anderen bleiben in ihrer Reihenfolge.
    pub fn bestaetigen(&mut self, nummern: &Vec<u32>)
        ensures
            ausstehende_sicht(final(self).ausstehend@) == ohne_bestaetigte(
                ausstehende_sicht(old(self).ausstehend@),
                nummern@,
            ),
            final(self).naechste_nummer == old(self).naechste_nummer,
            final(self).pfad == old(self).pfad,
            final(self).griff == old(self).griff,
            final(self).griffart == old(self).griffart,
            final(self).kennung == old(self).kennung,
            final(self).geschlossen == old(self).geschlossen,
            final(self).zuletzt_gemeldet == old(self).zuletzt_gemeldet,
    {
        let mut alt: Vec<Ausstehend> = Vec::new();
        std::mem::swap(&mut alt, &mut self.ausstehend);
        let ghost a = ausstehende_sicht(alt@);
        let mut neu: Vec<Ausstehend> = Vec::new();
        let mut i: usize = 0;
        while i < alt.len()
            invariant
                i <= alt@.len(),
                a == ausstehende_sicht(alt@),
                ausstehende_sicht(neu@) == ohne_bestaetigte(a.subrange(0, i as int), nummern@),
            decreases alt@.len() - i,
        {
            let n = alt[i].0;
            let mut drin = false;
            let mut j: usize = 0;
            while j < nummern.len()
                invariant
                    j <= nummern@.len(),
                    drin == exists|x: int| 0 <= x < j && nummern@[x] == n,
                decreases nummern@.len() - j,
            {
                if nummern[j] == n {
                    drin = true;
                }
                j = j + 1;
            }
            proof {
                assert(a.subrange(0, i + 1).drop_last() =~= a.subrange(0, i as int));
                assert(a.subrange(0, i + 1).last() == a[i as int]);
                assert(drin == nummern@.contains(n));
            }
            if !drin {
                neu.push(kopie(&alt[i]));
                assert(ausstehende_sicht(neu@) =~= ohne_bestaetigte(
                    a.subrange(0, i as int),
                    nummern@,
                ).push(a[i as int]));
            }
            i = i + 1;
        }
        assert(a.subrange(0, alt@.len() as int) =~= a);
        self.ausstehend = neu;
    }

    /// Ob an CommHistory gemeldet werden muss, und wenn ja, vermerkt es.
    ///
    /// Noetig ist es, wenn schon etwas Unbestaetigtes im Kanal lag, dann
    /// hoert offenbar niemand mehr zu, oder wenn die letzte Meldung mehr
    /// als eine Minute her ist. Die Zeiten sind Millisekunden einer Uhr, die
    /// nicht zurueckgeht.
    pub fn melden_noetig(&mut self, offen: usize, jetzt: u64) -> (r: bool)
        ensures
            r == (offen > 0 || match old(self).zuletzt_gemeldet {
                None => true,
                Some(t) => jetzt > t && jetzt - t > 60_000,
            }),
            r ==> final(self).zuletzt_gemeldet == Some(jetzt),
            !r ==> final(self).zuletzt_gemeldet == old(self).zuletzt_gemeldet,
            final(self).ausstehend == old(self).ausstehend,
            final(self).naechste_nummer == old(self).naechste_nummer,
            final(self).pfad == old(self).pfad,
            final(self).griff == old(self).griff,
            final(self).griffart == old(self).griffart,
            final(self).kennung == old(self).kennung,
            final(self).geschlossen == old(self).geschlossen,
    {
        let lange_her = match self.zuletzt_gemeldet {
            None => true,
            Some(t) => jetzt > t && jetzt - t > 60_000,
        };
        if offen > 0 || lange_her {
            self.zuletzt_gemeldet = Some(jetzt);
            true
        } else {
            false
        }
    }
}

proof fn enthalten_nach_anhaengen<T>(r: Seq<T>, x: T, m: T)
    ensures
        r.push(x).contains(m) <==> (r.contains(m) || x == m),
{
    if r.push(x).contains(m) {
        let i = choose|i: int| 0 <= i < r.push(x).len() && r.push(x)[i] == m;
        if i < r.len() {
            assert(r[i] == m);
        }
    }
    if r.contains(m) {
        let i = choose|i: int| 0 <= i < r.len() && r[i] == m;
        assert(r.push(x)[i] == m);
    }
    if x == m {
        assert(r.push(x)[r.len() as int] == m);
    }
}

/// Bestaetigte Nachrichten stehen nicht mehr aus, unbestaetigte bleiben.
pub proof fn bestaetigte_sind_fort(
    s: Seq<(u32, u32, u32, u32, u32, Seq<char>)>,
    nummern: Seq<u32>,
    m: (u32, u32, u32, u32, u32, Seq<char>),
)
    ensures
        ohne_bestaetigte(s, nummern).contains(m) <==> (s.contains(m) && !nummern.contains(m.0)),
    decreases s.len(),
{
    if s.len() > 0 {
        let d = s.drop_last();
        bestaetigte_sind_fort(d, nummern, m);
        let r = ohne_bestaetigte(d, nummern);
        assert(s =~= d.push(s.last()));
        enthalten_nach_anhaengen(d, s.last(), m);
        enthalten_nach_anhaengen(r, s.last(), m);
    }
}

} // verus!
