//! JSON als Text: lesen und schreiben mit `serde_json`.
use vstd::prelude::*;

use crate::text::gleich;
use crate::wert::Wert;

verus! {

#[verifier::external_type_specification]
#[verifier::external_body]
pub struct ExJsonWert(serde_json::Value);

/// Ob `serde_json` einen Text als Zahl liest.
pub uninterp spec fn json_zahl(z: Seq<char>) -> bool;

/// Keine zwei Felder mit demselben Namen.
pub open spec fn namen_eindeutig(f: Seq<(String, Wert)>) -> bool {
    forall|i: int, j: int| 0 <= i < j < f.len() ==> f[i].0@ != f[j].0@
}

/// Ein Wert, den `serde_json` eins zu eins schreibt.
pub open spec fn schreibbar(w: Wert) -> bool
    decreases w,
{
    match w {
        Wert::Zahl(z) => json_zahl(z@),
        Wert::Liste(l) => forall|i: int| 0 <= i < l@.len() ==> schreibbar(#[trigger] l@[i]),
        Wert::Objekt(f) => namen_eindeutig(f@) && forall|i: int|
            0 <= i < f@.len() ==> schreibbar(#[trigger] f@[i].1),
        _ => true,
    }
}

#[verifier::external_body]
fn ist_json_zahl(z: &str) -> (r: bool)
    ensures
        r == json_zahl(z@),
{
    z.parse::<serde_json::Number>().is_ok()
}

/// Was `serde_json::from_str` aus einem Text liest, als Wert; nichts,
/// wenn der Text kein JSON ist.
pub uninterp spec fn json_gelesen(t: Seq<char>) -> Option<Wert>;

/// Wie `serde_json::to_string` einen Wert als Text schreibt.
pub uninterp spec fn json_geschrieben(w: Wert) -> Seq<char>;

#[verifier::external_body]
fn wert_aus_json(v: &serde_json::Value) -> Wert {
    match v {
        serde_json::Value::Null => Wert::Null,
        serde_json::Value::Bool(b) => Wert::Wahrheit(*b),
        serde_json::Value::Number(n) => Wert::Zahl(n.to_string()),
        serde_json::Value::String(s) => Wert::Text(s.clone()),
        serde_json::Value::Array(a) => Wert::Liste(a.iter().map(wert_aus_json).collect()),
        serde_json::Value::Object(o) => Wert::Objekt(
            o.iter().map(|(k, x)| (k.clone(), wert_aus_json(x))).collect(),
        ),
    }
}

#[verifier::external_body]
fn json_aus_wert(w: &Wert) -> serde_json::Value {
    match w {
        Wert::Null => serde_json::Value::Null,
        Wert::Wahrheit(b) => serde_json::Value::Bool(*b),
        Wert::Zahl(z) => match z.parse::<serde_json::Number>() {
            Ok(n) => serde_json::Value::Number(n),
            Err(_) => serde_json::Value::Null,
        },
        Wert::Text(t) => serde_json::Value::String(t.clone()),
        Wert::Liste(l) => serde_json::Value::Array(l.iter().map(json_aus_wert).collect()),
        Wert::Objekt(f) => serde_json::Value::Object(
            f.iter().map(|(k, x)| (k.clone(), json_aus_wert(x))).collect(),
        ),
    }
}

/// Liest JSON mit `serde_json::from_str` in einen `serde_json::Value` und
/// bringt ihn Knoten fuer Knoten in die Form eines `Wert`: Zahlen in der
/// Textform, die `serde_json` fuer sie schreibt, Objekte als Feldfolge.
///
/// Angenommen, nicht bewiesen: das Ergebnis haengt nur vom Text ab. Was
/// `serde_json` als JSON annimmt, ist nicht ausgeschrieben, nur benannt.
#[verifier::external_body]
pub fn json_lesen(t: &str) -> (r: Option<Wert>)
    ensures
        r == json_gelesen(t@),
{
    match serde_json::from_str::<serde_json::Value>(t) {
        Ok(v) => Some(wert_aus_json(&v)),
        Err(_) => None,
    }
}

/// Schreibt einen Wert mit `serde_json::to_string`, nachdem er Knoten fuer
/// Knoten in einen `serde_json::Value` gebracht ist.
///
/// Verlangt wird ein schreibbarer Wert: jede Zahl liest `serde_json` als
/// Zahl, und kein Objekt hat ein Feld zweimal; dann ist das Bringen eins zu
/// eins. Angenommen, nicht bewiesen: das Ergebnis haengt nur vom Wert ab.
#[verifier::external_body]
fn json_schreiben(w: &Wert) -> (r: String)
    requires
        schreibbar(*w),
    ensures
        r@ == json_geschrieben(*w),
{
    serde_json::to_string(&json_aus_wert(w)).unwrap_or_default()
}

fn namen_pruefen(f: &Vec<(String, Wert)>) -> (r: bool)
    ensures
        r == namen_eindeutig(f@),
{
    let mut i: usize = 0;
    while i < f.len()
        invariant
            i <= f@.len(),
            forall|a: int, b: int| 0 <= a < b < f@.len() && a < i ==> f@[a].0@ != f@[b].0@,
        decreases f@.len() - i,
    {
        let mut j: usize = i + 1;
        while j < f.len()
            invariant
                i < f@.len(),
                i + 1 <= j <= f@.len(),
                forall|a: int, b: int| 0 <= a < b < f@.len() && a < i ==> f@[a].0@ != f@[b].0@,
                forall|b: int| i < b < j ==> f@[i as int].0@ != f@[b].0@,
            decreases f@.len() - j,
        {
            if gleich(f[i].0.as_str(), f[j].0.as_str()) {
                return false;
            }
            j = j + 1;
        }
        i = i + 1;
    }
    true
}

/// Ob ein Wert schreibbar ist.
pub fn ist_schreibbar(w: &Wert) -> (r: bool)
    ensures
        r == schreibbar(*w),
    decreases w,
{
    match w {
        Wert::Zahl(z) => ist_json_zahl(z.as_str()),
        Wert::Liste(l) => {
            let mut i: usize = 0;
            while i < l.len()
                invariant
                    i <= l@.len(),
                    *w == Wert::Liste(*l),
                    forall|j: int| 0 <= j < i ==> schreibbar(#[trigger] l@[j]),
                decreases l@.len() - i,
            {
                proof {
                    assert(decreases_to!(*w => (*w)->Liste_0));
                    assert(decreases_to!(*l => l@));
                    assert(decreases_to!(l@ => l@[i as int]));
                }
                if !ist_schreibbar(&l[i]) {
                    assert(!schreibbar(l@[i as int]));
                    assert(schreibbar(*w) ==> schreibbar(l@[i as int]));
                    return false;
                }
                i = i + 1;
            }
            true
        },
        Wert::Objekt(f) => {
            if !namen_pruefen(f) {
                return false;
            }
            let mut i: usize = 0;
            while i < f.len()
                invariant
                    i <= f@.len(),
                    *w == Wert::Objekt(*f),
                    namen_eindeutig(f@),
                    forall|j: int| 0 <= j < i ==> schreibbar(#[trigger] f@[j].1),
                decreases f@.len() - i,
            {
                proof {
                    assert(decreases_to!(*w => (*w)->Objekt_0));
                    assert(decreases_to!(*f => f@));
                    assert(decreases_to!(f@ => f@[i as int]));
                    assert(decreases_to!(f@[i as int] => f@[i as int].1));
                }
                if !ist_schreibbar(&f[i].1) {
                    assert(!schreibbar(f@[i as int].1));
                    assert(schreibbar(*w) ==> schreibbar(f@[i as int].1));
                    return false;
                }
                i = i + 1;
            }
            true
        },
        _ => true,
    }
}

/// Ein Wert als JSON-Text, wenn er schreibbar ist; sonst nichts.
pub fn json_text(w: &Wert) -> (r: Option<String>)
    ensures
        schreibbar(*w) ==> (r matches Some(t) && t@ == json_geschrieben(*w)),
        !schreibbar(*w) ==> r is None,
{
    if ist_schreibbar(w) {
        Some(json_schreiben(w))
    } else {
        None
    }
}

} // verus!
