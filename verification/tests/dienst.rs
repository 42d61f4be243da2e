use bruecke::dienst::{
    anfrage, antwort_lesen, kodieren, pfad_chats, pfad_ereignisse, pfad_nachrichten,
    pfad_senden, pfad_status, sendeantwort, Dienst,
};

#[test]
fn kodieren_laesst_unreservierte_stehen() {
    assert_eq!(kodieren("AZaz09-_.~"), "AZaz09-_.~");
    assert_eq!(kodieren("a b,c"), "a%20b%2Cc");
    assert_eq!(kodieren("ä"), "%C3%A4");
    assert_eq!(kodieren("4917612345678@s.whatsapp.net"), "4917612345678%40s.whatsapp.net");
    assert_eq!(kodieren(""), "");
}

#[test]
fn dienste_und_ports() {
    let w = Dienst::neu("whatsapp").unwrap();
    assert_eq!(w.port(), 0);
    assert_eq!(w.suchreihe(), vec![8085, 8086, 8087, 8088, 8089]);
    let mut s = Dienst::neu("signal").unwrap();
    s.port_setzen(8097);
    assert_eq!(s.port(), 8097);
    assert_eq!(s.suchreihe(), vec![8097, 8095, 8096, 8097, 8098, 8099]);
    assert_eq!(s.protokoll, "signal");
    assert!(Dienst::neu("telegram").is_none());
}

#[test]
fn anfrage_und_pfade() {
    assert_eq!(
        anfrage("/status"),
        "GET /status HTTP/1.1\r\nHost: 127.0.0.1\r\nConnection: close\r\n\r\n"
    );
    assert_eq!(pfad_chats(), "/chats");
    assert_eq!(pfad_status(), "/status");
    assert_eq!(pfad_nachrichten("a b"), "/messages?jid=a%20b");
    assert_eq!(pfad_senden("x@y", "Hallo, Welt"), "/send?to=x%40y&text=Hallo%2C%20Welt");
    assert_eq!(pfad_ereignisse(-1), "/events?since=-1");
    assert_eq!(pfad_ereignisse(17), "/events?since=17");
}

#[test]
fn antworten_lesen() {
    assert_eq!(
        antwort_lesen("HTTP/1.1 200 OK\r\nContent-Length: 2\r\n\r\n[]"),
        Ok("[]".to_string())
    );
    assert_eq!(
        antwort_lesen("HTTP/1.1 404 Not Found\r\n\r\nweg"),
        Err("HTTP: HTTP/1.1 404 Not Found".to_string())
    );
    assert_eq!(antwort_lesen("kaputt"), Err("Antwort ohne Kopf".to_string()));
    assert_eq!(antwort_lesen("HTTP/1.1 200 OK\r\n\r\n"), Ok(String::new()));
    assert_eq!(antwort_lesen("\r\n\r\nx"), Err("HTTP: ".to_string()));
    assert_eq!(antwort_lesen("HTTP/1.1 200 OK\r\n\r\na\r\n\r\nb"), Ok("a\r\n\r\nb".to_string()));
}

#[test]
fn sendeantworten() {
    assert_eq!(sendeantwort("ok\n"), Ok(()));
    assert_eq!(sendeantwort("{\"status\": \"ok\"}"), Ok(()));
    assert_eq!(sendeantwort("  nicht verbunden \n"), Err("nicht verbunden".to_string()));
}

#[test]
fn kodiertes_laesst_sich_zurueckgewinnen() {
    let eingabe = "a b%c/ä~";
    let aus = kodieren(eingabe);
    let b = aus.as_bytes();
    let mut zurueck: Vec<u8> = Vec::new();
    let mut maskiert = 0usize;
    let mut i = 0usize;
    while i < b.len() {
        if b[i] == b'%' {
            let hex = std::str::from_utf8(&b[i + 1..i + 3]).unwrap();
            zurueck.push(u8::from_str_radix(hex, 16).unwrap());
            maskiert += 1;
            i += 3;
        } else {
            zurueck.push(b[i]);
            i += 1;
        }
    }
    assert_eq!(zurueck, eingabe.as_bytes());
    assert_eq!(aus.len(), eingabe.len() + 2 * maskiert);
    assert_eq!(aus, "a%20b%25c%2F%C3%A4~");
}
