//! Passive SIP abuse mitigation: decode captured frames down to the UDP
//! payload, recognize SIP REGISTER/INVITE requests and their User-Agent,
//! match the User-Agent against an allow-list, and reconcile DROP rules
//! in a firewall chain through a small control port.

pub mod addr;
pub mod dispatch;
pub mod firewall;
pub mod frame;
pub mod mem_port;
pub mod recent;
pub mod sip;
pub mod text;
pub mod whitelist;
