//! Kleine Textbausteine: Zahlen als Dezimaltext, Zeichen anhaengen.
use vstd::prelude::*;
use vstd::string::*;

verus! {

/// Die Ziffer zu einer Zahl von 0 bis 9.
pub open spec fn ziffer(d: nat) -> char {
    (48 + d) as char
}

/// Eine natuerliche Zahl als Dezimaltext, ohne fuehrende Nullen.
pub open spec fn ziffern(n: nat) -> Seq<char>
    decreases n,
{
    if n < 10 {
        seq![ziffer(n)]
    } else {
        ziffern(n / 10).push(ziffer(n % 10))
    }
}

/// Eine ganze Zahl als Dezimaltext, mit Minus davor, wenn sie negativ ist.
pub open spec fn ziffern_mit_vorzeichen(n: int) -> Seq<char> {
    if n < 0 {
        seq!['-'] + ziffern((-n) as nat)
    } else {
        ziffern(n as nat)
    }
}

/// Haengt ein Zeichen an, mit `String::push` aus std.
///
/// Angenommen, nicht bewiesen: der Text danach ist der alte mit dem
/// Zeichen am Ende, wie die Dokumentation von `String::push` es sagt.
#[verifier::external_body]
pub(crate) fn zeichen_anhaengen(s: &mut String, c: char)
    ensures
        final(s)@ == old(s)@.push(c),
{
    s.push(c);
}

/// Haengt die Ziffern einer Zahl an.
pub fn ziffern_anhaengen(s: &mut String, n: u64)
    ensures
        final(s)@ == old(s)@ + ziffern(n as nat),
    decreases n,
{
    if n >= 10 {
        ziffern_anhaengen(s, n / 10);
    }
    let d: u8 = (n % 10) as u8;
    let c: char = (48u8 + d) as char;
    zeichen_anhaengen(s, c);
    assert(c == ziffer((n % 10) as nat));
    proof {
        if n >= 10 {
            assert(ziffern(n as nat) == ziffern((n / 10) as nat).push(ziffer((n % 10) as nat)));
        } else {
            assert(ziffern(n as nat) == seq![ziffer(n as nat)]);
        }
    }
    assert(s@ =~= old(s)@ + ziffern(n as nat));
}

/// Eine Zahl als Dezimaltext.
pub fn dezimal(n: u64) -> (r: String)
    ensures
        r@ == ziffern(n as nat),
{
    let mut s = String::new();
    ziffern_anhaengen(&mut s, n);
    assert(s@ =~= ziffern(n as nat));
    s
}

/// Eine ganze Zahl als Dezimaltext.
pub fn dezimal_mit_vorzeichen(n: i64) -> (r: String)
    ensures
        r@ == ziffern_mit_vorzeichen(n as int),
{
    let mut s = String::new();
    if n < 0 {
        zeichen_anhaengen(&mut s, '-');
        let betrag: u64 = (0i128 - n as i128) as u64;
        ziffern_anhaengen(&mut s, betrag);
    } else {
        ziffern_anhaengen(&mut s, n as u64);
    }
    assert(s@ =~= ziffern_mit_vorzeichen(n as int));
    s
}

/// Ein neuer Text aus einem Stueck.
pub fn text_aus(s: &str) -> (r: String)
    ensures
        r@ == s@,
{
    s.to_owned()
}

/// Die Zeichen eines Textes.
pub fn zeichen_von(s: &str) -> (r: Vec<char>)
    ensures
        r@ == s@,
{
    broadcast use vstd::string::group_string_axioms;

    let mut r: Vec<char> = Vec::new();
    for c in it: s.chars()
        invariant
            it.seq() == s@,
            r@ == it.seq().take(it.index() as int),
    {
        r.push(c);
        assert(r@ =~= it.seq().take(it.index() as int + 1));
    }
    assert(r@ =~= s@);
    r
}

/// Ein Text aus einem Ausschnitt von Zeichen.
pub fn text_aus_zeichen(z: &Vec<char>, von: usize, bis: usize) -> (r: String)
    requires
        von <= bis <= z@.len(),
    ensures
        r@ == z@.subrange(von as int, bis as int),
{
    let mut r = String::new();
    let mut i = von;
    while i < bis
        invariant
            von <= i <= bis <= z@.len(),
            r@ == z@.subrange(von as int, i as int),
        decreases bis - i,
    {
        zeichen_anhaengen(&mut r, z[i]);
        assert(r@ =~= z@.subrange(von as int, i + 1));
        i = i + 1;
    }
    r
}

/// `m` steht in `t` ab der Stelle `i`.
pub open spec fn steht_bei(t: Seq<char>, m: Seq<char>, i: int) -> bool {
    0 <= i && i + m.len() <= t.len() && t.subrange(i, i + m.len()) == m
}

/// `m` steht irgendwo in `t`.
pub open spec fn enthaelt_teil(t: Seq<char>, m: Seq<char>) -> bool {
    exists|i: int| steht_bei(t, m, i)
}

/// Sucht `m` in `t` ab der Stelle `ab`; die erste Stelle, an der es steht.
pub fn suchen(t: &Vec<char>, m: &Vec<char>, ab: usize) -> (r: Option<usize>)
    ensures
        match r {
            Some(i) => ab <= i && steht_bei(t@, m@, i as int) && forall|j: int|
                ab <= j < i ==> !steht_bei(t@, m@, j),
            None => forall|j: int| ab <= j ==> !steht_bei(t@, m@, j),
        },
{
    if m.len() > t.len() {
        return None;
    }
    let letzte = t.len() - m.len();
    let mut i = ab;
    while i <= letzte
        invariant
            letzte + m@.len() == t@.len(),
            ab <= i,
            forall|j: int| ab <= j < i ==> !steht_bei(t@, m@, j),
        decreases letzte + 1 - i,
    {
        let mut k: usize = 0;
        let mut passt = true;
        while k < m.len()
            invariant
                i <= letzte,
                letzte + m@.len() == t@.len(),
                t@.len() == t.len(),
                k <= m@.len(),
                passt ==> forall|x: int| 0 <= x < k ==> t@[i + x] == m@[x],
                !passt ==> !steht_bei(t@, m@, i as int),
            decreases m@.len() - k,
        {
            if t[i + k] != m[k] {
                passt = false;
                assert(t@.subrange(i as int, i + m@.len())[k as int] != m@[k as int]);
            }
            k = k + 1;
        }
        if passt {
            assert(t@.subrange(i as int, i + m@.len()) =~= m@);
            return Some(i);
        }
        if i == letzte {
            return None;
        }
        i = i + 1;
    }
    None
}

/// Ob `m` in `t` vorkommt.
pub fn enthaelt(t: &str, m: &str) -> (r: bool)
    ensures
        r == enthaelt_teil(t@, m@),
{
    let tz = zeichen_von(t);
    let mz = zeichen_von(m);
    match suchen(&tz, &mz, 0) {
        Some(_) => true,
        None => false,
    }
}

/// Ob zwei Texte gleich sind.
pub fn gleich(a: &str, b: &str) -> (r: bool)
    ensures
        r == (a@ == b@),
{
    let x = text_aus(a);
    let y = text_aus(b);
    x == y
}

/// Leerraum im Sinne von Unicode (die Eigenschaft White_Space).
pub open spec fn leerraum(c: char) -> bool {
    ||| ('\u{9}' <= c <= '\u{d}')
    ||| c == ' '
    ||| c == '\u{85}'
    ||| c == '\u{a0}'
    ||| c == '\u{1680}'
    ||| ('\u{2000}' <= c <= '\u{200a}')
    ||| c == '\u{2028}'
    ||| c == '\u{2029}'
    ||| c == '\u{202f}'
    ||| c == '\u{205f}'
    ||| c == '\u{3000}'
}

fn ist_leerraum(c: char) -> (r: bool)
    ensures
        r == leerraum(c),
{
    ('\u{9}' <= c && c <= '\u{d}') || c == ' ' || c == '\u{85}' || c == '\u{a0}' || c
        == '\u{1680}' || ('\u{2000}' <= c && c <= '\u{200a}') || c == '\u{2028}' || c
        == '\u{2029}' || c == '\u{202f}' || c == '\u{205f}' || c == '\u{3000}'
}

/// Ein Text ohne Leerraum am Anfang und am Ende: der Ausschnitt von `a`
/// bis `b`, vor dem und nach dem nur Leerraum steht.
pub open spec fn getrimmt_zwischen(s: Seq<char>, a: int, b: int) -> bool {
    &&& 0 <= a <= b <= s.len()
    &&& forall|i: int| 0 <= i < a ==> leerraum(#[trigger] s[i])
    &&& forall|i: int| b <= i < s.len() ==> leerraum(#[trigger] s[i])
    &&& a < b ==> !leerraum(s[a]) && !leerraum(s[b - 1])
}

/// Der Text ohne Leerraum am Anfang und am Ende (`str::trim`).
pub fn trimmen(s: &str) -> (r: String)
    ensures
        exists|a: int, b: int| getrimmt_zwischen(s@, a, b) && r@ == s@.subrange(a, b),
{
    let z = zeichen_von(s);
    let mut a: usize = 0;
    while a < z.len() && ist_leerraum(z[a])
        invariant
            a <= z@.len(),
            forall|i: int| 0 <= i < a ==> leerraum(#[trigger] z@[i]),
        decreases z@.len() - a,
    {
        a = a + 1;
    }
    let mut b: usize = z.len();
    while b > a && ist_leerraum(z[b - 1])
        invariant
            a <= b <= z@.len(),
            forall|i: int| b <= i < z@.len() ==> leerraum(#[trigger] z@[i]),
        decreases b - a,
    {
        b = b - 1;
    }
    let r = text_aus_zeichen(&z, a, b);
    assert(getrimmt_zwischen(s@, a as int, b as int));
    r
}

/// Eine Dezimalziffer.
pub open spec fn ist_ziffer(c: char) -> bool {
    '0' <= c <= '9'
}

/// Der Wert einer Ziffernfolge.
pub open spec fn ziffernwert(s: Seq<char>) -> nat
    decreases s.len(),
{
    if s.len() == 0 {
        0
    } else {
        ziffernwert(s.drop_last()) * 10 + ((s.last() as int - 48) as nat)
    }
}

/// Eine nichtleere Folge aus Dezimalziffern.
pub open spec fn nur_ziffern(s: Seq<char>) -> bool {
    s.len() > 0 && forall|i: int| 0 <= i < s.len() ==> ist_ziffer(#[trigger] s[i])
}

/// Der Dezimaltext einer Zahl besteht aus Ziffern und hat ihren Wert.
pub proof fn ziffern_lesen_sich_zurueck(n: nat)
    ensures
        nur_ziffern(ziffern(n)),
        ziffernwert(ziffern(n)) == n,
    decreases n,
{
    if n >= 10 {
        ziffern_lesen_sich_zurueck(n / 10);
        let s = ziffern(n / 10);
        assert(ziffern(n).drop_last() =~= s);
        assert(ziffer(n % 10) as int == 48 + n % 10);
        assert(ziffernwert(ziffern(n)) == ziffernwert(s) * 10 + (n % 10));
        assert(n == (n / 10) * 10 + n % 10);
    } else {
        assert(seq![ziffer(n)].drop_last() =~= Seq::<char>::empty());
        assert(ziffer(n) as int == 48 + n);
        assert(ziffernwert(Seq::<char>::empty()) == 0);
        assert(ziffernwert(seq![ziffer(n)]) == n);
    }
}

/// Was `str::parse::<u64>` liest: ein optionales "+", dann Ziffern, und
/// der Wert passt in 64 Bit.
pub open spec fn zahl_gelesen(s: Seq<char>) -> Option<u64> {
    let d = if s.len() > 0 && s[0] == '+' {
        s.drop_first()
    } else {
        s
    };
    if nur_ziffern(d) && ziffernwert(d) <= u64::MAX {
        Some(ziffernwert(d) as u64)
    } else {
        None
    }
}

/// Was `str::parse::<i64>` liest: ein optionales "+" oder "-", dann
/// Ziffern, und der Wert passt in 64 Bit mit Vorzeichen.
pub open spec fn ganzzahl_gelesen(s: Seq<char>) -> Option<i64> {
    let negativ = s.len() > 0 && s[0] == '-';
    let d = if s.len() > 0 && (s[0] == '+' || s[0] == '-') {
        s.drop_first()
    } else {
        s
    };
    let w: int = if negativ {
        -(ziffernwert(d) as int)
    } else {
        ziffernwert(d) as int
    };
    if nur_ziffern(d) && i64::MIN <= w <= i64::MAX {
        Some(w as i64)
    } else {
        None
    }
}

/// Liest Ziffern ab der Stelle `ab`; der Wert, gedeckelt bei `grenze`.
fn ziffern_lesen(z: &Vec<char>, ab: usize, grenze: u128) -> (r: Option<u128>)
    requires
        ab <= z@.len(),
        grenze <= u64::MAX as u128 + 1,
    ensures
        match r {
            Some(w) => nur_ziffern(z@.subrange(ab as int, z@.len() as int)) && w == if ziffernwert(
                z@.subrange(ab as int, z@.len() as int),
            ) < grenze {
                ziffernwert(z@.subrange(ab as int, z@.len() as int))
            } else {
                grenze as nat
            },
            None => !nur_ziffern(z@.subrange(ab as int, z@.len() as int)),
        },
{
    if ab == z.len() {
        return None;
    }
    let mut w: u128 = 0;
    let mut i = ab;
    while i < z.len()
        invariant
            ab <= i <= z@.len(),
            grenze <= u64::MAX as u128 + 1,
            forall|j: int| ab <= j < i ==> ist_ziffer(#[trigger] z@[j]),
            w == if ziffernwert(z@.subrange(ab as int, i as int)) < grenze {
                ziffernwert(z@.subrange(ab as int, i as int))
            } else {
                grenze as nat
            },
        decreases z@.len() - i,
    {
        let c = z[i];
        if !('0' <= c && c <= '9') {
            assert(!ist_ziffer(z@.subrange(ab as int, z@.len() as int)[i - ab]));
            return None;
        }
        let d: u128 = (c as u32 - 48) as u128;
        let ghost alt = ziffernwert(z@.subrange(ab as int, i as int));
        assert(z@.subrange(ab as int, i + 1).drop_last() =~= z@.subrange(ab as int, i as int));
        let ghost neu = ziffernwert(z@.subrange(ab as int, i + 1));
        assert(neu == alt * 10 + d);
        if w >= grenze {
            assert(alt >= grenze);
            assert(neu >= alt) by (nonlinear_arith)
                requires
                    neu == alt * 10 + d,
            ;
        } else {
            let x = w * 10 + d;
            if x >= grenze {
                w = grenze;
            } else {
                w = x;
            }
        }
        i = i + 1;
    }
    assert(nur_ziffern(z@.subrange(ab as int, z@.len() as int)));
    Some(w)
}

/// Liest eine Zahl ohne Vorzeichen, wie `str::parse::<u64>`.
pub fn zahl_lesen(s: &str) -> (r: Option<u64>)
    ensures
        r == zahl_gelesen(s@),
{
    let z = zeichen_von(s);
    let ab: usize = if z.len() > 0 && z[0] == '+' {
        1
    } else {
        0
    };
    assert(z@.subrange(ab as int, z@.len() as int) =~= if s@.len() > 0 && s@[0] == '+' {
        s@.drop_first()
    } else {
        s@
    });
    match ziffern_lesen(&z, ab, u64::MAX as u128 + 1) {
        Some(w) => {
            if w > u64::MAX as u128 {
                None
            } else {
                Some(w as u64)
            }
        },
        None => None,
    }
}

/// Liest eine Zahl mit Vorzeichen, wie `str::parse::<i64>`.
pub fn ganzzahl_lesen(s: &str) -> (r: Option<i64>)
    ensures
        r == ganzzahl_gelesen(s@),
{
    let z = zeichen_von(s);
    let negativ = z.len() > 0 && z[0] == '-';
    let ab: usize = if z.len() > 0 && (z[0] == '+' || z[0] == '-') {
        1
    } else {
        0
    };
    assert(z@.subrange(ab as int, z@.len() as int) =~= if s@.len() > 0 && (s@[0] == '+' || s@[0]
        == '-') {
        s@.drop_first()
    } else {
        s@
    });
    match ziffern_lesen(&z, ab, u64::MAX as u128 + 1) {
        Some(w) => {
            if negativ {
                if w > 9223372036854775808u128 {
                    None
                } else {
                    Some((0i128 - w as i128) as i64)
                }
            } else {
                if w > 9223372036854775807u128 {
                    None
                } else {
                    Some(w as i64)
                }
            }
        },
        None => None,
    }
}

/// `i` ist die erste Stelle, an der `m` in `t` steht.
pub open spec fn erste_stelle(t: Seq<char>, m: Seq<char>, i: int) -> bool {
    steht_bei(t, m, i) && forall|j: int| 0 <= j < i ==> !steht_bei(t, m, j)
}

/// Die erste Stelle, an der `m` in `t` steht.
pub open spec fn erstes_vorkommen(t: Seq<char>, m: Seq<char>) -> Option<int> {
    if exists|i: int| erste_stelle(t, m, i) {
        Some(choose|i: int| erste_stelle(t, m, i))
    } else {
        None
    }
}

/// Sucht `m` in `t`: die erste Stelle, wie `erstes_vorkommen`.
pub fn vorkommen(t: &Vec<char>, m: &Vec<char>) -> (r: Option<usize>)
    ensures
        match r {
            Some(i) => erstes_vorkommen(t@, m@) == Some(i as int),
            None => erstes_vorkommen(t@, m@) is None && !enthaelt_teil(t@, m@),
        },
{
    let r = suchen(t, m, 0);
    proof {
        match r {
            Some(i) => {
                assert(erste_stelle(t@, m@, i as int));
                let k = choose|k: int| erste_stelle(t@, m@, k);
                assert(erste_stelle(t@, m@, k));
                if k < i {
                    assert(!steht_bei(t@, m@, k));
                }
                if i < k {
                    assert(!steht_bei(t@, m@, i as int));
                }
            },
            None => {
                assert forall|i: int| !erste_stelle(t@, m@, i) by {}
            },
        }
    }
    r
}

/// Die Zeilen eines Textes, getrennt an jedem Zeilenvorschub.
pub open spec fn zeilen(q: Seq<char>) -> Seq<Seq<char>>
    decreases q.len(),
{
    if q.len() == 0 {
        seq![Seq::empty()]
    } else {
        let z = zeilen(q.drop_last());
        if q.last() == '\n' {
            z.push(Seq::empty())
        } else {
            z.update(z.len() - 1, z.last().push(q.last()))
        }
    }
}

proof fn zeilen_nicht_leer(q: Seq<char>)
    ensures
        zeilen(q).len() >= 1,
    decreases q.len(),
{
    if q.len() > 0 {
        zeilen_nicht_leer(q.drop_last());
    }
}

/// Eine Zeile ohne den Leerraum an ihrem Anfang.
pub open spec fn ohne_einzug(z: Seq<char>) -> Seq<char>
    decreases z.len(),
{
    if z.len() > 0 && leerraum(z[0]) {
        ohne_einzug(z.drop_first())
    } else {
        z
    }
}

/// Eine Zeile ist ein Doc-Kommentar mit einem doppelten Bindestrich.
pub open spec fn doc_mit_doppelbindestrich(z: Seq<char>) -> bool {
    let t = ohne_einzug(z);
    t.len() >= 3 && t.subrange(0, 3) == seq!['/', '/', '/'] && enthaelt_teil(t, seq!['-', '-'])
}

fn pruefe_zeile(z: &Vec<char>) -> (r: bool)
    ensures
        r == doc_mit_doppelbindestrich(z@),
{
    let mut a: usize = 0;
    assert(z@.subrange(0, z@.len() as int) =~= z@);
    while a < z.len() && ist_leerraum(z[a])
        invariant
            a <= z@.len(),
            ohne_einzug(z@) == ohne_einzug(z@.subrange(a as int, z@.len() as int)),
        decreases z@.len() - a,
    {
        assert(z@.subrange(a as int, z@.len() as int).drop_first() =~= z@.subrange(
            a + 1,
            z@.len() as int,
        ));
        a = a + 1;
    }
    let ghost t = z@.subrange(a as int, z@.len() as int);
    assert(ohne_einzug(t) == t);
    let rest = text_aus_zeichen(z, a, z.len());
    let rz = zeichen_von(rest.as_str());
    if rz.len() < 3 || rz[0] != '/' || rz[1] != '/' || rz[2] != '/' {
        proof {
            if rz@.len() >= 3 {
                assert(rz@.subrange(0, 3)[0] == rz@[0]);
                assert(rz@.subrange(0, 3)[1] == rz@[1]);
                assert(rz@.subrange(0, 3)[2] == rz@[2]);
            }
        }
        return false;
    }
    assert(rz@.subrange(0, 3) =~= seq!['/', '/', '/']);
    let mut muster: Vec<char> = Vec::new();
    muster.push('-');
    muster.push('-');
    assert(muster@ =~= seq!['-', '-']);
    match suchen(&rz, &muster, 0) {
        Some(_) => true,
        None => false,
    }
}

/// Die Nummern der Zeilen (ab 1), die Doc-Kommentare mit einem doppelten
/// Bindestrich sind.
///
/// zbus schreibt Doc-Kommentare als XML-Kommentare in die
/// Introspektionsdaten, und dort ist ein doppelter Bindestrich verboten.
pub fn doc_zeilen_mit_doppelbindestrich(quelle: &str) -> (r: Vec<usize>)
    requires
        quelle@.len() < usize::MAX,
    ensures
        forall|i: int|
            0 <= i < r@.len() ==> 1 <= #[trigger] r@[i] <= zeilen(quelle@).len()
                && doc_mit_doppelbindestrich(zeilen(quelle@)[r@[i] - 1]),
        forall|n: int|
            0 <= n < zeilen(quelle@).len() && #[trigger] doc_mit_doppelbindestrich(
                zeilen(quelle@)[n],
            ) ==> r@.contains((n + 1) as usize),
        forall|i: int, j: int| 0 <= i < j < r@.len() ==> r@[i] < r@[j],
{
    let q = zeichen_von(quelle);
    let mut r: Vec<usize> = Vec::new();
    let mut zeile: Vec<char> = Vec::new();
    let mut nummer: usize = 1;
    let mut i: usize = 0;
    proof {
        zeilen_nicht_leer(q@);
    }
    while i < q.len()
        invariant
            i <= q@.len(),
            q@ == quelle@,
            q@.len() < usize::MAX,
            ({
                let zs = zeilen(q@.subrange(0, i as int));
                &&& nummer == zs.len()
                &&& zeile@ == zs.last()
                &&& forall|k: int|
                    0 <= k < r@.len() ==> 1 <= #[trigger] r@[k] < nummer
                        && doc_mit_doppelbindestrich(zs[r@[k] - 1])
                &&& forall|n: int|
                    0 <= n < nummer - 1 && #[trigger] doc_mit_doppelbindestrich(zs[n])
                        ==> r@.contains((n + 1) as usize)
                &&& forall|a: int, b: int| 0 <= a < b < r@.len() ==> r@[a] < r@[b]
            }),
            nummer >= 1,
            nummer <= i + 1,
        decreases q@.len() - i,
    {
        let ghost vorher = zeilen(q@.subrange(0, i as int));
        assert(q@.subrange(0, i + 1).drop_last() =~= q@.subrange(0, i as int));
        assert(q@.subrange(0, i + 1).last() == q@[i as int]);
        proof {
            zeilen_nicht_leer(q@.subrange(0, i as int));
        }
        if q[i] == '\n' {
            let ghost rvor = r@;
            if pruefe_zeile(&zeile) {
                r.push(nummer);
                proof {
                    assert forall|n: int|
                        0 <= n < nummer && #[trigger] doc_mit_doppelbindestrich(
                            zeilen(q@.subrange(0, i + 1))[n],
                        ) implies r@.contains((n + 1) as usize) by {
                        if n < nummer - 1 {
                            assert(zeilen(q@.subrange(0, i + 1))[n] == vorher[n]);
                            let k = choose|k: int| 0 <= k < rvor.len() && rvor[k] == (n + 1) as usize;
                            assert(r@[k] == (n + 1) as usize);
                        } else {
                            assert(r@[r@.len() - 1] == nummer);
                        }
                    }
                }
            } else {
                proof {
                    assert forall|n: int|
                        0 <= n < nummer && #[trigger] doc_mit_doppelbindestrich(
                            zeilen(q@.subrange(0, i + 1))[n],
                        ) implies r@.contains((n + 1) as usize) by {
                        assert(zeilen(q@.subrange(0, i + 1))[n] == vorher[n]);
                    }
                }
            }
            zeile = Vec::new();
            nummer = nummer + 1;
        } else {
            zeile.push(q[i]);
            proof {
                let nach = zeilen(q@.subrange(0, i + 1));
                assert forall|n: int| 0 <= n < nummer - 1 implies nach[n] == vorher[n] by {}
            }
        }
        i = i + 1;
    }
    assert(q@.subrange(0, q@.len() as int) =~= q@);
    let ghost zs = zeilen(q@);
    let ghost rvor = r@;
    if pruefe_zeile(&zeile) {
        r.push(nummer);
        proof {
            assert forall|n: int|
                0 <= n < zs.len() && #[trigger] doc_mit_doppelbindestrich(zs[n]) implies r@.contains(
                (n + 1) as usize,
            ) by {
                if n < nummer - 1 {
                    let k = choose|k: int| 0 <= k < rvor.len() && rvor[k] == (n + 1) as usize;
                    assert(r@[k] == (n + 1) as usize);
                } else {
                    assert(r@[r@.len() - 1] == nummer);
                }
            }
        }
    }
    r
}

} // verus!
