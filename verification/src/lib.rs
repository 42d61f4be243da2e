//! Bruecke: die Logik eines Telepathy-Verbindungsmanagers fuer WhatsApp,
//! Signal, Telegram und Matrix.
//!
//! Hier steht, was sich berechnen laesst: die Griffe und Kennungen, die
//! Kanaele, das Lesen der Antworten von Diensten und Daemons, welche
//! Nachrichten neu sind und wann gemeldet wird. Was mit dem Bus, dem Netz
//! und der Platte spricht, steht im Programm daneben.
use vstd::prelude::*;

pub mod dienst;
pub mod hintergrund;
pub mod json;
pub mod kanal;
pub mod karte;
pub mod kennungen;
pub mod kontenwache;
pub mod lauf;
pub mod manager;
pub mod meldung;
pub mod socketdienst;
pub mod text;
pub mod verbindung;
pub mod wert;

pub use manager::protokoll_bekannt;
pub use verbindung::kanal_eigenschaften;

verus! {

pub const CM_NAME: &'static str = "bruecke";

pub const CM_BUS: &'static str = "org.freedesktop.Telepathy.ConnectionManager.bruecke";

pub const CM_PFAD: &'static str = "/org/freedesktop/Telepathy/ConnectionManager/bruecke";

pub const IF_CM: &'static str = "org.freedesktop.Telepathy.ConnectionManager";

pub const IF_VERBINDUNG: &'static str = "org.freedesktop.Telepathy.Connection";

pub const IF_KANAL: &'static str = "org.freedesktop.Telepathy.Channel";

pub const IF_TEXT: &'static str = "org.freedesktop.Telepathy.Channel.Type.Text";

pub const IF_REQUESTS: &'static str = "org.freedesktop.Telepathy.Connection.Interface.Requests";

pub const IF_PRESENCE: &'static str = "org.freedesktop.Telepathy.Connection.Interface.SimplePresence";

pub const IF_CONTACTS: &'static str = "org.freedesktop.Telepathy.Connection.Interface.Contacts";

pub const IF_ALIASING: &'static str = "org.freedesktop.Telepathy.Connection.Interface.Aliasing";

/// Eigene Schnittstelle: das Antippen einer Meldung landet hier.
pub const IF_MELDUNG: &'static str = "org.smatkovi.Bruecke.Meldung";

pub const GRIFF_KONTAKT: u32 = 1;

pub const STATUS_VERBUNDEN: u32 = 0;

pub const STATUS_VERBINDET: u32 = 1;

pub const STATUS_GETRENNT: u32 = 2;

} // verus!
