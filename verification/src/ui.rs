//! The text shown in the window: the header and each client's row.
use vstd::prelude::*;

use crate::client_killer::Client;
use crate::text::{dec_digits, push_decimal};
use crate::timing::NANOS_PER_SEC;

verus! {

/// The first line of a client's row.
pub open spec fn app_id_text(app_id: Seq<char>, is_saving: bool, is_hanging: bool) -> Seq<char> {
    if is_saving {
        "* "@ + app_id
    } else if is_hanging {
        "** "@ + app_id
    } else {
        app_id
    }
}

/// The second line of a client's row.
pub open spec fn title_text(title: Option<Seq<char>>, is_saving: bool, is_hanging: bool) -> Seq<char> {
    if is_saving {
        "App has not closed yet, there may be unsaved progress."@
    } else if is_hanging {
        "App has not been killed yet, it may be hanging."@
    } else {
        match title {
            Some(t) => t,
            None => ""@,
        }
    }
}

/// The header of the window.
pub open spec fn header_text(num_apps: nat) -> Seq<char> {
    "Closing "@ + dec_digits(num_apps) + " apps..."@
}

/// The first line of a client's row: its app ID, marked `*` when it may be
/// saving and `**` when it may be hanging.
pub fn app_id_label(app_id: &str, is_saving: bool, is_hanging: bool) -> (r: String)
    ensures
        r@ == app_id_text(app_id@, is_saving, is_hanging),
{
    if is_saving {
        let mut s = String::from_str("* ");
        s.append(app_id);
        s
    } else if is_hanging {
        let mut s = String::from_str("** ");
        s.append(app_id);
        s
    } else {
        String::from_str(app_id)
    }
}

/// The second line of a client's row: why it is still open, or its title.
pub fn title_label<'a>(title: Option<&'a str>, is_saving: bool, is_hanging: bool) -> (r: &'a str)
    ensures
        r@ == title_text(
            match title {
                Some(t) => Some(t@),
                None => None,
            },
            is_saving,
            is_hanging,
        ),
{
    if is_saving {
        "App has not closed yet, there may be unsaved progress."
    } else if is_hanging {
        "App has not been killed yet, it may be hanging."
    } else {
        match title {
            Some(t) => t,
            None => "",
        }
    }
}

/// The header of the window: how many apps are being closed.
pub fn header_label(num_apps: usize) -> (r: String)
    ensures
        r@ == header_text(num_apps as nat),
{
    let mut s = String::from_str("Closing ");
    push_decimal(&mut s, num_apps as u64);
    s.append(" apps...");
    s
}

/// The two lines of a client's row.
pub fn row_labels(client: &Client) -> (r: (String, String))
    ensures
        exists|is_saving: bool, is_hanging: bool|
            (is_saving ==> client.status is GracefulSent) && (is_hanging ==> client.status is TermSent)
                && r.0@ == app_id_text(client.app_id@, is_saving, is_hanging) && r.1@
                == title_text(crate::client_killer::title_view(client.title), is_saving, is_hanging),
        exists|saving_nanos: int, hanging_nanos: int|
            client.status.measured_for(saving_nanos) && client.status.measured_for(hanging_nanos)
                && r.0@ == #[trigger] app_id_text(
                client.app_id@,
                client.status.shows_saving(saving_nanos),
                client.status.shows_hanging(hanging_nanos),
            ) && r.1@ == #[trigger] title_text(
                crate::client_killer::title_view(client.title),
                client.status.shows_saving(saving_nanos),
                client.status.shows_hanging(hanging_nanos),
            ),
{
    let is_saving = client.may_be_saving();
    let is_hanging = client.may_be_hanging();
    let app_id = app_id_label(client.app_id(), is_saving, is_hanging);
    let title = title_label(client.title(), is_saving, is_hanging);
    let r = (app_id, String::from_str(title));
    proof {
        let s = choose|e: int|
            client.status.measured_for(e) && is_saving == #[trigger] client.status.shows_saving(e);
        let h = choose|e: int|
            client.status.measured_for(e) && is_hanging == #[trigger] client.status.shows_hanging(e);
        assert(r.0@ == app_id_text(
            client.app_id@,
            client.status.shows_saving(s),
            client.status.shows_hanging(h),
        ));
        assert(r.1@ == title_text(
            crate::client_killer::title_view(client.title),
            client.status.shows_saving(s),
            client.status.shows_hanging(h),
        ));
    }
    r
}

/// A client whose graceful close request went out more than 5 seconds
/// before the clock was read is shown as maybe saving: its row is marked `*`
/// and says there may be unsaved progress, whatever its title; a client
/// with no step under way (alive, or sent `SIGKILL`) shows its app ID and
/// title as they are.
pub proof fn law_rows_follow_the_time_read(client: Client, saving_nanos: int, hanging_nanos: int)
    ensures
        client.status is GracefulSent && saving_nanos > 5 * NANOS_PER_SEC ==> app_id_text(
            client.app_id@,
            client.status.shows_saving(saving_nanos),
            client.status.shows_hanging(hanging_nanos),
        ) == "* "@ + client.app_id@ && title_text(
            crate::client_killer::title_view(client.title),
            client.status.shows_saving(saving_nanos),
            client.status.shows_hanging(hanging_nanos),
        ) == "App has not closed yet, there may be unsaved progress."@,
        client.status is TermSent && hanging_nanos > 3 * NANOS_PER_SEC ==> app_id_text(
            client.app_id@,
            client.status.shows_saving(saving_nanos),
            client.status.shows_hanging(hanging_nanos),
        ) == "** "@ + client.app_id@,
        (client.status is Alive || client.status is KillSent) ==> app_id_text(
            client.app_id@,
            client.status.shows_saving(saving_nanos),
            client.status.shows_hanging(hanging_nanos),
        ) == client.app_id@,
{
}

} // verus!
