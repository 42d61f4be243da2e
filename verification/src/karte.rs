//! Kleine Zuordnungen in Einfuegereihenfolge.
//!
//! Eine Karte haelt ihre Eintraege in einem `Vec`, jeden Schluessel
//! hoechstens einmal. Nach aussen ist sie eine `Map` ihrer Schluessel.
use std::collections::HashMap;

use vstd::prelude::*;
use vstd::std_specs::hash::spec_hash_map_iter;
use vstd::std_specs::iter::IteratorSpec;

verus! {

/// Ein Schluessel, den man vergleichen und kopieren kann.
pub trait Schluessel: View + Sized {
    fn gleich(&self, anderer: &Self) -> (r: bool)
        ensures
            r == (self@ == anderer@),
    ;

    fn kopie(&self) -> (r: Self)
        ensures
            r@ == self@,
    ;
}

impl Schluessel for String {
    fn gleich(&self, anderer: &Self) -> (r: bool) {
        *self == *anderer
    }

    fn kopie(&self) -> (r: Self) {
        self.clone()
    }
}

impl Schluessel for u32 {
    fn gleich(&self, anderer: &Self) -> (r: bool) {
        *self == *anderer
    }

    fn kopie(&self) -> (r: Self) {
        *self
    }
}

/// Die Zuordnung, die eine Folge von Paaren beschreibt: spaetere Paare
/// ueberschreiben fruehere mit demselben Schluessel.
pub open spec fn aus_folge<A, B>(s: Seq<(A, B)>) -> Map<A, B>
    decreases s.len(),
{
    if s.len() == 0 {
        Map::empty()
    } else {
        aus_folge(s.drop_last()).insert(s.last().0, s.last().1)
    }
}

/// Die Paare einer Folge, beide Seiten durch ihre Sicht ersetzt.
pub open spec fn folge_sicht<K: View, V: View>(s: Seq<(K, V)>) -> Seq<(K::V, V::V)> {
    s.map_values(|e: (K, V)| (e.0@, e.1@))
}

/// Die Schluessel einer Eintragsfolge, durch ihre Sicht ersetzt.
pub open spec fn schluessel_von<K: View, V>(e: Seq<(K, V)>) -> Seq<K::V> {
    e.map_values(|x: (K, V)| x.0@)
}

/// Wo ein Schluessel in einer Eintragsfolge steht.
pub open spec fn stelle_in<K: View, V>(e: Seq<(K, V)>, k: K::V) -> int {
    choose|i: int| 0 <= i < e.len() && e[i].0@ == k
}

/// Die Zuordnung, die eine Eintragsfolge mit verschiedenen Schluesseln darstellt.
pub open spec fn sicht_von<K: View, V>(e: Seq<(K, V)>) -> Map<K::V, V> {
    Map::new(|k: K::V| schluessel_von(e).contains(k), |k: K::V| e[stelle_in(e, k)].1)
}

proof fn stelle_in_eindeutig<K: View, V>(e: Seq<(K, V)>, i: int)
    requires
        schluessel_von(e).no_duplicates(),
        0 <= i < e.len(),
    ensures
        stelle_in(e, e[i].0@) == i,
        schluessel_von(e).contains(e[i].0@),
{
    let k = e[i].0@;
    assert(schluessel_von(e)[i] == k);
    let j = stelle_in(e, k);
    assert(schluessel_von(e)[j] == k);
}

proof fn enthaelt_in<K: View, V>(e: Seq<(K, V)>, k: K::V)
    ensures
        schluessel_von(e).contains(k) <==> exists|i: int| 0 <= i < e.len() && e[i].0@ == k,
{
    if schluessel_von(e).contains(k) {
        let i = choose|i: int| 0 <= i < schluessel_von(e).len() && schluessel_von(e)[i] == k;
        assert(e[i].0@ == k);
    }
    if exists|i: int| 0 <= i < e.len() && e[i].0@ == k {
        let i = choose|i: int| 0 <= i < e.len() && e[i].0@ == k;
        assert(schluessel_von(e)[i] == k);
    }
}

/// Eine Folge mit verschiedenen Schluesseln ergibt, Paar fuer Paar
/// eingetragen, ihre eigene Sicht.
proof fn folge_ergibt_sicht<K: View, V: View>(e: Seq<(K, V)>)
    requires
        schluessel_von(e).no_duplicates(),
    ensures
        aus_folge(folge_sicht(e)) == sicht_von(e).map_values(|v: V| v@),
    decreases e.len(),
{
    let links = aus_folge(folge_sicht(e));
    let rechts = sicht_von(e).map_values(|v: V| v@);
    if e.len() == 0 {
        assert(links =~= rechts);
    } else {
        let d = e.drop_last();
        assert(schluessel_von(d) =~= schluessel_von(e).drop_last());
        assert(schluessel_von(d).no_duplicates());
        folge_ergibt_sicht(d);
        assert(folge_sicht(e).drop_last() =~= folge_sicht(d));
        let n = e.len() - 1;
        stelle_in_eindeutig(e, n);
        assert forall|k: K::V| links.dom().contains(k) <==> rechts.dom().contains(k) by {
            enthaelt_in(e, k);
            enthaelt_in(d, k);
            if exists|i: int| 0 <= i < e.len() && e[i].0@ == k {
                let i = choose|i: int| 0 <= i < e.len() && e[i].0@ == k;
                if i < n {
                    assert(d[i].0@ == k);
                }
            }
            if exists|i: int| 0 <= i < d.len() && d[i].0@ == k {
                let i = choose|i: int| 0 <= i < d.len() && d[i].0@ == k;
                assert(e[i].0@ == k);
            }
        }
        assert forall|k: K::V| #[trigger] links.dom().contains(k) implies links[k] == rechts[k] by {
            enthaelt_in(e, k);
            let i = stelle_in(e, k);
            stelle_in_eindeutig(e, i);
            if i < n {
                stelle_in_eindeutig(d, i);
                assert(d[i] == e[i]);
            }
        }
        assert(links =~= rechts);
    }
}

/// Eine Zuordnung von Schluesseln auf Werte.
pub struct Karte<K: View, V> {
    eintraege: Vec<(K, V)>,
}

impl<K: View, V> Karte<K, V> {
    /// Die Schluessel in der Reihenfolge ihrer Eintraege.
    pub closed spec fn schluessel(self) -> Seq<K::V> {
        schluessel_von(self.eintraege@)
    }

    /// Jeder Schluessel steht hoechstens einmal darin.
    #[verifier::type_invariant]
    pub closed spec fn gut(self) -> bool {
        self.schluessel().no_duplicates()
    }

    spec fn stelle(self, k: K::V) -> int {
        stelle_in(self.eintraege@, k)
    }

    /// Die Zahl der Eintraege.
    pub closed spec fn anzahl(self) -> nat {
        self.eintraege@.len()
    }

    proof fn stelle_eindeutig(self, i: int)
        requires
            self.gut(),
            0 <= i < self.eintraege@.len(),
        ensures
            self.stelle(self.eintraege@[i].0@) == i,
            self.schluessel().contains(self.eintraege@[i].0@),
    {
        stelle_in_eindeutig(self.eintraege@, i);
    }

    proof fn enthaelt_genau(self, k: K::V)
        ensures
            self.schluessel().contains(k) <==> exists|i: int|
                0 <= i < self.eintraege@.len() && self.eintraege@[i].0@ == k,
    {
        enthaelt_in(self.eintraege@, k);
    }

    /// Die Zahl der Eintraege ist die Zahl der Schluessel.
    pub proof fn anzahl_ist_laenge(self)
        requires
            self.gut(),
        ensures
            self@.dom().finite(),
            self@.len() == self.anzahl(),
    {
        assert(self@.dom() =~= self.schluessel().to_set());
        self.schluessel().unique_seq_to_set();
    }

    /// Verschiedene Stellen tragen verschiedene Schluessel.
    pub proof fn schluessel_verschieden(self, i: int, j: int)
        requires
            self.gut(),
            0 <= i < self.anzahl(),
            0 <= j < self.anzahl(),
            i != j,
        ensures
            self.schluessel()[i] != self.schluessel()[j],
    {
    }

    /// Die Schluessel in Eintragsreihenfolge sind genau die der Zuordnung.
    pub proof fn schluessel_sind_bereich(self)
        requires
            self.gut(),
        ensures
            self.schluessel().len() == self.anzahl(),
            forall|k: K::V| self@.dom().contains(k) <==> self.schluessel().contains(k),
    {
    }
}

impl<K: View, V> View for Karte<K, V> {
    type V = Map<K::V, V>;

    closed spec fn view(&self) -> Map<K::V, V> {
        sicht_von(self.eintraege@)
    }
}

impl<K: Schluessel, V> Karte<K, V> {
    /// Eine leere Karte.
    pub fn neu() -> (r: Self)
        ensures
            r.gut(),
            r@ == Map::<K::V, V>::empty(),
            r.anzahl() == 0,
            r.schluessel() == Seq::<K::V>::empty(),
    {
        let r = Karte { eintraege: Vec::new() };
        assert(r@ =~= Map::<K::V, V>::empty());
        assert(r.schluessel() =~= Seq::<K::V>::empty());
        r
    }

    /// Wo ein Schluessel steht, wenn er darin steht.
    fn finden(&self, k: &K) -> (r: Option<usize>)
        requires
            self.gut(),
        ensures
            match r {
                Some(i) => i < self.eintraege@.len() && self.eintraege@[i as int].0@ == k@
                    && self.stelle(k@) == i,
                None => !self@.dom().contains(k@),
            },
    {
        let mut i: usize = 0;
        while i < self.eintraege.len()
            invariant
                self.gut(),
                i <= self.eintraege@.len(),
                forall|j: int| 0 <= j < i ==> self.eintraege@[j].0@ != k@,
            decreases self.eintraege@.len() - i,
        {
            if self.eintraege[i].0.gleich(k) {
                proof {
                    self.stelle_eindeutig(i as int);
                }
                return Some(i);
            }
            i = i + 1;
        }
        proof {
            self.enthaelt_genau(k@);
        }
        None
    }

    /// Ob der Schluessel darin steht.
    pub fn enthaelt(&self, k: &K) -> (r: bool)
        ensures
            r == self@.dom().contains(k@),
    {
        proof {
            use_type_invariant(self);
        }
        match self.finden(k) {
            Some(i) => {
                proof {
                    self.stelle_eindeutig(i as int);
                }
                true
            },
            None => false,
        }
    }

    /// Der Wert zu einem Schluessel.
    pub fn hole(&self, k: &K) -> (r: Option<&V>)
        ensures
            match r {
                Some(v) => self@.dom().contains(k@) && *v == self@[k@],
                None => !self@.dom().contains(k@),
            },
    {
        proof {
            use_type_invariant(self);
        }
        match self.finden(k) {
            Some(i) => {
                proof {
                    self.stelle_eindeutig(i as int);
                }
                Some(&self.eintraege[i].1)
            },
            None => None,
        }
    }

    /// Setzt den Wert zu einem Schluessel; ein alter Wert wird ersetzt.
    pub fn setzen(&mut self, k: K, v: V)
        ensures
            final(self).gut(),
            final(self)@ == old(self)@.insert(k@, v),
            final(self).anzahl() == old(self).anzahl() + if old(self)@.dom().contains(k@) {
                0int
            } else {
                1int
            },
            final(self).schluessel() == if old(self)@.dom().contains(k@) {
                old(self).schluessel()
            } else {
                old(self).schluessel().push(k@)
            },
    {
        proof {
            use_type_invariant(&*self);
        }
        let ghost alt = *self;
        let gefunden = self.finden(&k);
        let mut e: Vec<(K, V)> = Vec::new();
        std::mem::swap(&mut e, &mut self.eintraege);
        let ghost neu: Karte<K, V>;
        match gefunden {
            Some(i) => {
                e.set(i, (k, v));
                proof {
                    neu = Karte { eintraege: e };
                    assert(neu.schluessel() =~= alt.schluessel());
                    assert forall|j: int| 0 <= j < neu.eintraege@.len() implies neu.stelle(
                        neu.eintraege@[j].0@,
                    ) == j by {
                        neu.stelle_eindeutig(j);
                    }
                    alt.stelle_eindeutig(i as int);
                    assert(neu@.dom() =~= alt@.insert(k@, v).dom());
                    assert forall|x: K::V| #[trigger] neu@.dom().contains(x) implies neu@[x]
                        == alt@.insert(k@, v)[x] by {
                        neu.enthaelt_genau(x);
                        let j = neu.stelle(x);
                        alt.stelle_eindeutig(j);
                    }
                    assert(neu@ =~= alt@.insert(k@, v));
                }
            },
            None => {
                e.push((k, v));
                proof {
                    neu = Karte { eintraege: e };
                    assert(neu.schluessel() =~= alt.schluessel().push(k@));
                    assert forall|j: int| 0 <= j < neu.eintraege@.len() implies neu.stelle(
                        neu.eintraege@[j].0@,
                    ) == j by {
                        neu.stelle_eindeutig(j);
                    }
                    assert forall|x: K::V| neu@.dom().contains(x) <==> alt@.insert(
                        k@,
                        v,
                    ).dom().contains(x) by {
                        neu.enthaelt_genau(x);
                        alt.enthaelt_genau(x);
                        if x == k@ {
                            assert(neu.eintraege@[alt.eintraege@.len() as int].0@ == k@);
                        }
                        if alt@.dom().contains(x) {
                            let j = choose|j: int|
                                0 <= j < alt.eintraege@.len() && alt.eintraege@[j].0@ == x;
                            assert(neu.eintraege@[j].0@ == x);
                        }
                    }
                    assert(neu@.dom() =~= alt@.insert(k@, v).dom());
                    assert forall|x: K::V| #[trigger] neu@.dom().contains(x) implies neu@[x]
                        == alt@.insert(k@, v)[x] by {
                        neu.enthaelt_genau(x);
                        let j = neu.stelle(x);
                        if j < alt.eintraege@.len() {
                            alt.stelle_eindeutig(j);
                        }
                    }
                    assert(neu@ =~= alt@.insert(k@, v));
                }
            },
        }
        self.eintraege = e;
        proof {
            assert(*self == neu);
        }
    }
}

impl<K: Schluessel, V> Karte<K, V> {
    /// Die Zahl der Eintraege.
    pub fn laenge(&self) -> (r: usize)
        ensures
            r == self.anzahl(),
    {
        self.eintraege.len()
    }

    /// Der Eintrag an einer Stelle der Eintragsreihenfolge.
    pub fn bei(&self, i: usize) -> (r: (&K, &V))
        requires
            i < self.anzahl(),
        ensures
            r.0@ == self.schluessel()[i as int],
            self@.dom().contains(r.0@),
            self@[r.0@] == *r.1,
    {
        proof {
            use_type_invariant(self);
        }
        proof {
            self.stelle_eindeutig(i as int);
        }
        let e = &self.eintraege[i];
        (&e.0, &e.1)
    }

    /// Nimmt einen Schluessel heraus.
    pub fn entfernen(&mut self, k: &K)
        ensures
            final(self).gut(),
            final(self)@ == old(self)@.remove(k@),
            !old(self)@.dom().contains(k@) ==> final(self).schluessel() == old(self).schluessel(),
            old(self)@.dom().contains(k@) ==> exists|i: int|
                0 <= i < old(self).schluessel().len() && old(self).schluessel()[i] == k@
                    && final(self).schluessel() == old(self).schluessel().remove(i),
    {
        proof {
            use_type_invariant(&*self);
        }
        let ghost alt = *self;
        match self.finden(k) {
            Some(i) => {
                let mut e: Vec<(K, V)> = Vec::new();
                std::mem::swap(&mut e, &mut self.eintraege);
                e.remove(i);
                let ghost neu = Karte { eintraege: e };
                proof {
                    let a = alt.eintraege@;
                    let n = e@;
                    assert(n =~= a.remove(i as int));
                    assert(neu.schluessel() =~= alt.schluessel().remove(i as int));
                    assert forall|x: int, y: int|
                        0 <= x < y < neu.schluessel().len() implies neu.schluessel()[x]
                        != neu.schluessel()[y] by {
                        let xa = if x < i { x } else { x + 1 };
                        let ya = if y < i { y } else { y + 1 };
                        assert(neu.schluessel()[x] == alt.schluessel()[xa]);
                        assert(neu.schluessel()[y] == alt.schluessel()[ya]);
                    }
                    assert forall|x: K::V| neu@.dom().contains(x) <==> alt@.remove(
                        k@,
                    ).dom().contains(x) by {
                        enthaelt_in(n, x);
                        enthaelt_in(a, x);
                        if exists|j: int| 0 <= j < n.len() && n[j].0@ == x {
                            let j = choose|j: int| 0 <= j < n.len() && n[j].0@ == x;
                            let ja = if j < i { j } else { j + 1 };
                            assert(a[ja] == n[j]);
                            alt.stelle_eindeutig(ja);
                            alt.stelle_eindeutig(i as int);
                        }
                        if exists|j: int| 0 <= j < a.len() && a[j].0@ == x {
                            let j = choose|j: int| 0 <= j < a.len() && a[j].0@ == x;
                            if x != k@ {
                                assert(j != i);
                                let jn = if j < i { j } else { j - 1 };
                                assert(n[jn] == a[j]);
                            }
                        }
                    }
                    assert(neu@.dom() =~= alt@.remove(k@).dom());
                    assert forall|x: K::V| #[trigger] neu@.dom().contains(x) implies neu@[x]
                        == alt@.remove(k@)[x] by {
                        enthaelt_in(n, x);
                        let j = neu.stelle(x);
                        neu.stelle_eindeutig(j);
                        let ja = if j < i { j } else { j + 1 };
                        assert(a[ja] == n[j]);
                        alt.stelle_eindeutig(ja);
                    }
                    assert(neu@ =~= alt@.remove(k@));
                }
                self.eintraege = e;
                proof {
                    assert(*self == neu);
                    alt.stelle_eindeutig(i as int);
                    assert(alt.schluessel()[i as int] == k@);
                    assert(self.schluessel() == alt.schluessel().remove(i as int));
                }
            },
            None => {
                assert(self@ =~= alt@.remove(k@));
                assert(self.schluessel() =~= alt.schluessel());
            },
        }
    }

    /// Leert die Karte.
    pub fn leeren(&mut self)
        ensures
            final(self).gut(),
            final(self)@ == Map::<K::V, V>::empty(),
            final(self).anzahl() == 0,
            final(self).schluessel() == Seq::<K::V>::empty(),
    {
        self.eintraege = Vec::new();
        assert(self@ =~= Map::<K::V, V>::empty());
        assert(self.schluessel() =~= Seq::<K::V>::empty());
    }
}

impl<K: View, V: View> Karte<K, V> {
    /// Die Zuordnung mit den Werten durch ihre Sicht ersetzt.
    pub open spec fn tiefe_sicht(self) -> Map<K::V, V::V> {
        self@.map_values(|v: V| v@)
    }
}

impl<K: Schluessel, V: Schluessel> Karte<K, V> {
    /// Alle Eintraege als Paare, in Eintragsreihenfolge.
    pub fn paare(&self) -> (r: Vec<(K, V)>)
        ensures
            aus_folge(folge_sicht(r@)) == self.tiefe_sicht(),
            r@.len() == self.anzahl(),
            forall|i: int|
                0 <= i < r@.len() ==> (#[trigger] r@[i]).0@ == self.schluessel()[i] && r@[i].1@
                    == self@[r@[i].0@]@,
    {
        proof {
            use_type_invariant(self);
        }
        let mut r: Vec<(K, V)> = Vec::new();
        let mut i: usize = 0;
        while i < self.eintraege.len()
            invariant
                i <= self.eintraege@.len(),
                r@.len() == i,
                forall|j: int| 0 <= j < i ==> (#[trigger] r@[j]).0@ == self.eintraege@[j].0@
                    && r@[j].1@ == self.eintraege@[j].1@,
            decreases self.eintraege@.len() - i,
        {
            let k = self.eintraege[i].0.kopie();
            let v = self.eintraege[i].1.kopie();
            r.push((k, v));
            i = i + 1;
        }
        proof {
            assert(folge_sicht(r@) =~= folge_sicht(self.eintraege@));
            folge_ergibt_sicht(self.eintraege@);
            assert forall|i: int| 0 <= i < r@.len() implies (#[trigger] r@[i]).0@
                == self.schluessel()[i] && r@[i].1@ == self@[r@[i].0@]@ by {
                self.stelle_eindeutig(i);
            }
        }
        r
    }

    /// Eine Karte aus Paaren; spaetere Paare ueberschreiben fruehere.
    pub fn aus_paaren(p: &Vec<(K, V)>) -> (r: Self)
        ensures
            r.gut(),
            r.tiefe_sicht() == aus_folge(folge_sicht(p@)),
    {
        let mut r = Karte::neu();
        let mut i: usize = 0;
        while i < p.len()
            invariant
                i <= p@.len(),
                r.gut(),
                r.tiefe_sicht() == aus_folge(folge_sicht(p@.subrange(0, i as int))),
            decreases p@.len() - i,
        {
            let k = p[i].0.kopie();
            let v = p[i].1.kopie();
            let ghost vorher = r.tiefe_sicht();
            r.setzen(k, v);
            proof {
                let t = p@.subrange(0, i + 1);
                assert(t.drop_last() =~= p@.subrange(0, i as int));
                assert(folge_sicht(t).drop_last() =~= folge_sicht(p@.subrange(0, i as int)));
                assert(r.tiefe_sicht() =~= aus_folge(folge_sicht(t)));
            }
            i = i + 1;
        }
        assert(p@.subrange(0, p@.len() as int) =~= p@);
        r
    }
}

/// Eine Zuordnung von Griffen auf Texte, die Texte durch ihre Sicht ersetzt.
pub open spec fn zahlsicht(m: HashMap<u32, String>) -> Map<u32, Seq<char>> {
    m@.map_values(|p: String| p@)
}

/// Die Griffe einer Folge von Eintraegen.
pub open spec fn griffe_der(s: Seq<(&u32, &String)>) -> Seq<u32> {
    s.map_values(|e: (&u32, &String)| *e.0)
}

/// Alle Eintraege einer Zuordnung von Griffen auf Texte als Paare.
pub fn zahlpaare(m: &HashMap<u32, String>) -> (r: Vec<(u32, String)>)
    ensures
        aus_folge(folge_sicht(r@)) == zahlsicht(*m),
{
    broadcast use vstd::std_specs::hash::group_hash_axioms;
    broadcast use vstd::std_specs::hash::axiom_spec_hash_map_iter;

    let ghost alle_e = spec_hash_map_iter(m).remaining();
    let mut r: Vec<(u32, String)> = Vec::new();
    for e in it: m.iter()
        invariant
            alle_e == spec_hash_map_iter(m).remaining(),
            it.seq() == alle_e,
            aus_folge(folge_sicht(r@)) == zahlsicht(*m).restrict(
                griffe_der(it.seq().take(it.index() as int)).to_set(),
            ),
    {
        let (g, p) = e;
        let ghost i = it.index() as int;
        let ghost vorher = r@;
        let ghost a = griffe_der(it.seq().take(i));
        let ghost b = griffe_der(it.seq().take(i + 1));
        proof {
            assert(it.seq()[i] == e);
            assert(b =~= a.push(*g));
            a.lemma_push_to_set_commute(*g);
            assert(b.to_set() =~= a.to_set().insert(*g));
            assert(m@.contains_key(*g) && m@[*g] == *p);
        }
        r.push((*g, p.clone()));
        proof {
            let f = folge_sicht(r@);
            assert(f.drop_last() =~= folge_sicht(vorher));
            assert(f.last() == (*g, p@));
            assert(aus_folge(f) == aus_folge(f.drop_last()).insert(*g, p@));
            assert(aus_folge(f) =~= zahlsicht(*m).restrict(b.to_set()));
        }
    }
    proof {
        let alle = griffe_der(alle_e.take(alle_e.len() as int));
        assert forall|g: u32| m@.contains_key(g) implies alle.to_set().contains(g) by {
            assert(alle_e.contains((&g, &m@[g])));
            let j = choose|j: int| 0 <= j < alle_e.len() && alle_e[j] == (&g, &m@[g]);
            assert(alle_e.take(alle_e.len() as int)[j] == alle_e[j]);
            assert(alle[j] == g);
        }
        assert(zahlsicht(*m).restrict(alle.to_set()) =~= zahlsicht(*m));
    }
    r
}

/// Eine Zuordnung von Griffen auf Texte aus Paaren; spaetere ueberschreiben
/// fruehere.
pub fn zahlkarte_aus(p: &Vec<(u32, String)>) -> (r: HashMap<u32, String>)
    ensures
        zahlsicht(r) == aus_folge(folge_sicht(p@)),
{
    broadcast use vstd::std_specs::hash::group_hash_axioms;

    let mut r: HashMap<u32, String> = HashMap::new();
    let mut i: usize = 0;
    while i < p.len()
        invariant
            i <= p@.len(),
            zahlsicht(r) == aus_folge(folge_sicht(p@.subrange(0, i as int))),
        decreases p@.len() - i,
    {
        r.insert(p[i].0, p[i].1.clone());
        proof {
            let t = p@.subrange(0, i + 1);
            assert(folge_sicht(t).drop_last() =~= folge_sicht(p@.subrange(0, i as int)));
            assert(zahlsicht(r) =~= aus_folge(folge_sicht(t)));
        }
        i = i + 1;
    }
    assert(p@.subrange(0, p@.len() as int) =~= p@);
    r
}

} // verus!
