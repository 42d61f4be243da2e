//! Die Wache, die Konten oben haelt, die oben sein sollen.
use vstd::prelude::*;

use crate::text::{enthaelt, enthaelt_teil, text_aus_zeichen, zeichen_von};

verus! {

/// Telepathy-Praesenz: 1 ist offline.
pub const OFFLINE: u32 = 1;
/// Telepathy-Praesenz: 2 ist verfuegbar.
pub const VERFUEGBAR: u32 = 2;

/// Die eine Regel: eingegriffen wird nur, wenn ein Konto verfuegbar sein
/// soll und offline ist. Wer offline sein will, wird nie angefasst.
pub fn eingreifen(gewuenscht: u32, tatsaechlich: u32) -> (r: bool)
    ensures
        r <==> (gewuenscht == VERFUEGBAR && tatsaechlich == OFFLINE),
{
    gewuenscht == VERFUEGBAR && tatsaechlich == OFFLINE
}

/// Ob ein Konto der Kontoverwaltung zu diesem Manager gehoert: sein Pfad
/// enthaelt "/bruecke/".
pub fn konto_betroffen(pfad: &str) -> (r: bool)
    ensures
        r == enthaelt_teil(pfad@, "/bruecke/"@),
{
    enthaelt(pfad, "/bruecke/")
}

/// Die letzte Stelle vor `bis`, an der ein "/" steht; -1, wenn keine.
pub open spec fn letzter_schraegstrich(z: Seq<char>, bis: int) -> int
    decreases bis,
{
    if bis <= 0 {
        -1
    } else if z[bis - 1] == '/' {
        bis - 1
    } else {
        letzter_schraegstrich(z, bis - 1)
    }
}

/// Der Name eines Kontos fuers Protokoll: das vorletzte Stueck seines
/// Pfads (`rsplit('/').nth(1)`), ohne "/" der ganze Pfad.
pub open spec fn kontoname_spec(z: Seq<char>) -> Seq<char> {
    let j = letzter_schraegstrich(z, z.len() as int);
    if j < 0 {
        z
    } else {
        z.subrange(letzter_schraegstrich(z, j) + 1, j)
    }
}

proof fn letzter_schraegstrich_liegt(z: Seq<char>, bis: int)
    requires
        bis <= z.len(),
    ensures
        -1 <= letzter_schraegstrich(z, bis) < bis || (bis <= 0 && letzter_schraegstrich(z, bis)
            == -1),
        letzter_schraegstrich(z, bis) >= 0 ==> z[letzter_schraegstrich(z, bis)] == '/',
    decreases bis,
{
    if bis > 0 && z[bis - 1] != '/' {
        letzter_schraegstrich_liegt(z, bis - 1);
    }
}

fn letzter_schraegstrich_vor(z: &Vec<char>, bis: usize) -> (r: Option<usize>)
    requires
        bis <= z@.len(),
    ensures
        match r {
            Some(i) => letzter_schraegstrich(z@, bis as int) == i as int,
            None => letzter_schraegstrich(z@, bis as int) == -1,
        },
{
    let mut k = bis;
    while k > 0
        invariant
            k <= bis <= z@.len(),
            letzter_schraegstrich(z@, bis as int) == letzter_schraegstrich(z@, k as int),
        decreases k,
    {
        if z[k - 1] == '/' {
            return Some(k - 1);
        }
        k = k - 1;
    }
    None
}

/// Der Name eines Kontos fuers Protokoll.
pub fn kontoname(pfad: &str) -> (r: String)
    ensures
        r@ == kontoname_spec(pfad@),
{
    let z = zeichen_von(pfad);
    let n = z.len();
    proof {
        letzter_schraegstrich_liegt(z@, n as int);
    }
    match letzter_schraegstrich_vor(&z, n) {
        None => text_aus_zeichen(&z, 0, n),
        Some(j) => {
            proof {
                letzter_schraegstrich_liegt(z@, j as int);
            }
            let a: usize = match letzter_schraegstrich_vor(&z, j) {
                None => 0,
                Some(i) => i + 1,
            };
            text_aus_zeichen(&z, a, j)
        },
    }
}

/// Ein Netzwechsel schickt mehrere Signale hintereinander: nachgesehen
/// wird nur, wenn das letzte Nachsehen wegen des Netzes mindestens zehn
/// Sekunden her ist. Die Zeiten sind Millisekunden einer Uhr, die nicht
/// zurueckgeht.
pub fn nachsehen_wegen_netz(zuletzt: Option<u64>, jetzt: u64) -> (r: bool)
    ensures
        r == match zuletzt {
            None => true,
            Some(t) => !(jetzt >= t && jetzt - t < 10_000),
        },
{
    match zuletzt {
        None => true,
        Some(t) => !(jetzt >= t && jetzt - t < 10_000),
    }
}

} // verus!
