//! Ein JSON-Wert, so wie die Logik ihn liest.
//!
//! Die Daemons und Dienste antworten mit JSON. Was die Bruecke daraus
//! liest, steht hier als eigener Typ: Zahlen in ihrer Textform, Objekte
//! als Folge von Feldern in ihrer Reihenfolge.
use vstd::prelude::*;

use crate::text::gleich;

verus! {

/// Ein JSON-Wert.
#[derive(Debug)]
pub enum Wert {
    Null,
    Wahrheit(bool),
    /// Eine Zahl, in der Textform, in der JSON sie schreibt.
    Zahl(String),
    Text(String),
    Liste(Vec<Wert>),
    Objekt(Vec<(String, Wert)>),
}

/// Das erste Feld einer Feldfolge mit dem Namen `name`.
pub open spec fn erstes_feld(felder: Seq<(String, Wert)>, name: Seq<char>) -> Option<Wert>
    decreases felder.len(),
{
    if felder.len() == 0 {
        None
    } else if felder[0].0@ == name {
        Some(felder[0].1)
    } else {
        erstes_feld(felder.drop_first(), name)
    }
}

impl Wert {
    /// Das Feld `name`, wenn der Wert ein Objekt ist und es hat.
    pub open spec fn feld_spec(self, name: Seq<char>) -> Option<Wert> {
        match self {
            Wert::Objekt(felder) => erstes_feld(felder@, name),
            _ => None,
        }
    }

    /// Das Feld `name` eines Objekts.
    pub fn feld(&self, name: &str) -> (r: Option<&Wert>)
        ensures
            match r {
                Some(w) => self.feld_spec(name@) == Some(*w),
                None => self.feld_spec(name@) is None,
            },
    {
        match self {
            Wert::Objekt(felder) => {
                let mut i: usize = 0;
                assert(felder@.subrange(0, felder@.len() as int) =~= felder@);
                while i < felder.len()
                    invariant
                        i <= felder@.len(),
                        self.feld_spec(name@) == erstes_feld(felder@, name@),
                        erstes_feld(felder@, name@) == erstes_feld(
                            felder@.subrange(i as int, felder@.len() as int),
                            name@,
                        ),
                    decreases felder@.len() - i,
                {
                    let ghost rest = felder@.subrange(i as int, felder@.len() as int);
                    assert(rest.drop_first() =~= felder@.subrange(i + 1, felder@.len() as int));
                    assert(rest[0] == felder@[i as int]);
                    if gleich(felder[i].0.as_str(), name) {
                        return Some(&felder[i].1);
                    }
                    i = i + 1;
                }
                None
            },
            _ => None,
        }
    }

    /// Der Text, wenn der Wert ein Text ist.
    pub fn als_text(&self) -> (r: Option<&str>)
        ensures
            match self {
                Wert::Text(s) => r is Some && r->0@ == s@,
                _ => r is None,
            },
    {
        match self {
            Wert::Text(s) => Some(s.as_str()),
            _ => None,
        }
    }

    /// Die Wahrheit, wenn der Wert eine ist.
    pub fn als_wahrheit(&self) -> (r: Option<bool>)
        ensures
            match self {
                Wert::Wahrheit(b) => r == Some(*b),
                _ => r is None,
            },
    {
        match self {
            Wert::Wahrheit(b) => Some(*b),
            _ => None,
        }
    }

    /// Die Eintraege, wenn der Wert eine Liste ist.
    pub fn als_liste(&self) -> (r: Option<&Vec<Wert>>)
        ensures
            match self {
                Wert::Liste(l) => r == Some(l),
                _ => r is None,
            },
    {
        match self {
            Wert::Liste(l) => Some(l),
            _ => None,
        }
    }
}

} // verus!
