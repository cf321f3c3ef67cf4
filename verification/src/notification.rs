//! The notification record and the metadata that travels with it.

use std::collections::HashMap;
use vstd::prelude::*;

verus! {

/// One tagged value of producer-supplied metadata. The registry never looks
/// inside it.
#[derive(Clone, Debug, PartialEq, Eq)]
pub enum HintValue {
    Boolean(bool),
    Text(String),
    Bytes(Vec<u8>),
    Int32(i32),
    Byte(u8),
}

/// One pending alert, as its producer sent it.
///
/// The identifier under which the registry files a notification is not a
/// field: it is the key in the registry's map.
#[derive(Clone, Debug, PartialEq, Eq)]
pub struct Notification {
    /// Name of the producing application.
    pub app_name: String,
    /// `0` asks for a fresh identifier; any other value names the identifier
    /// to occupy.
    pub replaces_id: u32,
    /// Reference to an icon resource.
    pub app_icon: String,
    pub summary: String,
    /// May contain simple markup.
    pub body: String,
    /// Read in pairs by the consumer: an action key, then its label.
    pub actions: Vec<String>,
    /// Hint name to hint value, in no particular order.
    pub hints: HashMap<String, HintValue>,
    /// `-1` for the server's default, `0` for never, otherwise milliseconds.
    pub expire_timeout: i32,
}

} // verus!
