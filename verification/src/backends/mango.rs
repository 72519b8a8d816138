//! Mango: its clients, and which client a close request names.
use vstd::prelude::*;

use crate::backends::{Client, ClientData, ClientKind};
use crate::text::{dec_digits, fmt_u64, law_parse_dec_roundtrip, parse_u32, parse_u32_spec};

verus! {

/// A window as Mango's IPC lists it, with the fields that matter here.
#[derive(Clone, Debug, PartialEq, Eq)]
pub struct MangoClient {
    pub id: u32,
    pub pid: u32,
    pub title: String,
    pub appid: String,
}

impl MangoClient {
    /// The general client, listed now: its window ID, in decimal, names it,
    /// and its pid is read as signed.
    pub fn to_client(self) -> (r: Client)
        ensures
            r.data() == (ClientData {
                pid: self.pid as i32,
                unique_id: dec_digits(self.id as nat),
                kind: ClientKind::Window,
                app_id: self.appid@,
                title: Some(self.title@),
            }),
    {
        let unique_id = fmt_u64(self.id as u64);
        Client::new(self.pid as i32, unique_id, ClientKind::Window, self.appid, Some(self.title))
    }
}

/// The window a close request for `client` names: its ID read back as a
/// number, or none when it is not one.
pub fn close_target(client: &Client) -> (r: Option<u32>)
    ensures
        r == parse_u32_spec(client.unique_id@),
{
    parse_u32(client.unique_id.as_str())
}

/// A close request for a client listed by Mango names the window it came
/// from.
pub proof fn law_close_target_is_listed_window(window: MangoClient, client: Client)
    requires
        client.unique_id@ == dec_digits(window.id as nat),
    ensures
        parse_u32_spec(client.unique_id@) == Some(window.id),
{
    law_parse_dec_roundtrip(window.id);
}

} // verus!
