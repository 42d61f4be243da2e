# Brücke

Ein Telepathy-Verbindungsmanager für das Nokia N9/N950, der WhatsApp,
Signal, Telegram und Matrix in die Nachrichten-App trägt. WhatsApp und
Signal sprechen HTTP mit eigenen Diensten auf 127.0.0.1, Telegram und
Matrix Zeilen-JSON über einen Unix-Socket mit ihren Python-Daemons.

## Aufbau

- `src/` ist die Bibliothek `bruecke`, in Verus geschrieben und bewiesen:
  Griffe und Kennungen (`kennungen`), der Zustand einer Verbindung und
  ihrer Kanäle (`verbindung`, `kanal`), das Lesen der Antworten von
  Diensten und Daemons (`dienst`, `socketdienst`, `wert`), welche
  Nachrichten neu sind (`hintergrund`), die Meldungen (`meldung`), die
  Kontenwache (`kontenwache`), der Manager (`manager`) und die
  Entscheidungen der Hauptschleife (`lauf`). `karte` und `text` sind die
  Bausteine darunter.
- `app/` ist das Programm darum: der D-Bus mit zbus, das Netz, die
  Platte, die Hauptschleife mit tokio. Es ruft die Bibliothek für alles,
  was zu entscheiden ist.
- `tests/` prüft die Bibliothek an Beispielen.

Die Verträge stehen an den Funktionen (`requires`/`ensures`), die Gesetze,
die über mehrere Aufrufe hinweg gelten, als Beweisfunktionen neben ihnen:
etwa dass ein Griff beständig ist, dass ein mehrdeutiger Name nie benutzt
wird, dass Sichern und Laden die Griffe erhält, dass keine Nachricht
doppelt ausgeliefert wird und dass ein vorgemerkter Kanalpfad der ist,
unter dem der Kanal erscheint.
