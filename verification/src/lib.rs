//! The decisions of a keyboard dongle: a BLE central that relays one bonded
//! keyboard to a USB host.
//!
//! Toward the keyboard the dongle is a HID-over-GATT client; for everything else
//! it is a relay. The keyboard's host protocol passes through unparsed in both
//! directions, so the dongle answers no command of its own. Keymaps and storage
//! stay on the keyboard; the dongle stores only one bond.
//!
//! Everything here is plain computation with a proved contract. What talks to
//! the radio, to the flash and to the USB side is outside: it carries out the
//! steps that these modules name and hands back what came of them.
//!
//! - [`scan`]: what advertising reports tell about the keyboards around.
//! - [`pairing`]: the window in which a seeking keyboard is adopted.
//! - [`window`]: how what is scanned reaches that window.
//! - [`central`]: the dongle, and its endless round of finding and serving a
//!   keyboard.
//! - [`secure`]: pairing or encrypting a connection, and keeping the bond.
//! - [`link`]: one connection, from its parameters to its end.
//! - [`gatt`]: discovering the keyboard's characteristics.
//! - [`relay`]: where each piece of traffic goes.
//! - [`hid`], [`adv`], [`address`], [`signal`]: the data these work on.

pub mod address;
pub mod adv;
pub mod central;
pub mod gatt;
pub mod hid;
pub mod link;
pub mod pairing;
pub mod relay;
pub mod scan;
pub mod secure;
pub mod signal;
pub mod window;
