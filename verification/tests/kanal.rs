use bruecke::kanal::KanalZustand;
use bruecke::GRIFF_KONTAKT;

fn kanal() -> KanalZustand {
    KanalZustand::neu("/p/TextChannel1".to_string(), 3, "Anna".to_string())
}

#[test]
fn nachrichten_stehen_aus_bis_sie_bestaetigt_sind() {
    let mut k = kanal();
    assert_eq!(k.griffart, GRIFF_KONTAKT);
    assert_eq!(k.empfangen(1_700_000_000, "a".to_string()), (1, 0));
    assert_eq!(k.empfangen(1_700_000_001, "b".to_string()), (2, 1));
    assert_eq!(k.empfangen(1_700_000_002, "c".to_string()), (3, 2));
    let l = k.ausstehende(false);
    assert_eq!(l.len(), 3);
    assert_eq!(l[0], (1, 1_700_000_000, 3, 0, 0, "a".to_string()));
    k.bestaetigen(&vec![2, 9]);
    let l = k.ausstehende(false);
    assert_eq!(l.iter().map(|m| m.0).collect::<Vec<_>>(), vec![1, 3]);
    let l = k.ausstehende(true);
    assert_eq!(l.len(), 2);
    assert!(k.ausstehende(false).is_empty());
    assert_eq!(k.empfangen(5, "d".to_string()).0, 4);
}

#[test]
fn zeit_geht_als_32_bit() {
    let mut k = kanal();
    k.empfangen((1u64 << 32) + 7, "x".to_string());
    assert_eq!(k.ausstehende(false)[0].1, 7);
}

#[test]
fn melden_wenn_noetig() {
    let mut k = kanal();
    assert!(k.melden_noetig(0, 1_000_000));
    assert_eq!(k.zuletzt_gemeldet, Some(1_000_000));
    assert!(!k.melden_noetig(0, 1_030_000));
    assert!(k.melden_noetig(1, 1_030_000));
    assert!(!k.melden_noetig(0, 1_090_000));
    assert!(k.melden_noetig(0, 1_090_001));
}
