use std::cell::RefCell;

use gtkshutdown::app::{AppState, RoundError, RoundReport};
use gtkshutdown::client_killer::StepTaken;
use gtkshutdown::backends::hyprland::{client_from_window, WindowClient};
use gtkshutdown::backends::{BackendError, Client, WaylandBackend};
use gtkshutdown::APP_ID;

const NO_SUCH_PID: i32 = 2_000_000_000;

struct ScriptedBackend {
    replies: RefCell<Vec<Result<Vec<(i32, &'static str)>, String>>>,
}

fn client(pid: i32, class: &str) -> Client {
    client_from_window(WindowClient {
        pid,
        address: format!("0x{pid}"),
        class: class.to_string(),
        title: String::from("t"),
    })
}

impl WaylandBackend for ScriptedBackend {
    fn close_requested(&self, _client: Client) -> bool {
        true
    }

    fn open_clients(&self) -> Result<Vec<Client>, BackendError> {
        match self.replies.borrow_mut().remove(0) {
            Ok(list) => Ok(list.into_iter().map(|(pid, class)| client(pid, class)).collect()),
            Err(message) => Err(BackendError { message }),
        }
    }

    fn gracefully_close(&self, _client: &Client) -> Result<(), BackendError> {
        Ok(())
    }

    fn compositor_pid(&self) -> i32 {
        500
    }

    fn compositor_id(&self) -> i32 {
        self.compositor_pid()
    }
}

#[test]
fn refresh_keeps_only_clients_safe_to_kill() {
    let backend = ScriptedBackend {
        replies: RefCell::new(vec![Ok(vec![
            (10, "anki"),
            (0, "group"),
            (-3, "session"),
            (500, "Hyprland"),
            (11, APP_ID),
            (12, "foot"),
        ])]),
    };
    let mut state = AppState::new(backend);
    assert_eq!(state.get_num_clients(), 0);
    assert!(state.is_complete());
    assert_eq!(state.refresh(), Ok(()));
    let kept: Vec<(i32, &str)> = state.clients.iter().map(|c| (c.pid(), c.app_id())).collect();
    assert_eq!(kept, vec![(10, "anki"), (12, "foot")]);
    assert_eq!(state.get_num_clients(), 2);
    assert!(!state.is_complete());
    assert!(state.to_be_killed.is_empty());
}

#[test]
fn refresh_keeps_leftover_processes_that_still_run() {
    let me = nix::unistd::getpid().as_raw();
    let backend = ScriptedBackend {
        replies: RefCell::new(vec![
            Ok(vec![(me, "self-test"), (NO_SUCH_PID, "gone"), (20, "stays")]),
            Ok(vec![(20, "stays")]),
            Err(String::from("socket closed")),
        ]),
    };
    let mut state = AppState::new(backend);
    assert_eq!(state.refresh(), Ok(()));
    assert_eq!(state.get_num_clients(), 3);
    assert_eq!(state.refresh(), Ok(()));
    assert_eq!(state.get_num_clients(), 1);
    let left: Vec<i32> = state.to_be_killed.iter().map(|c| c.pid()).collect();
    assert_eq!(left, vec![me]);
    assert_eq!(
        state.refresh(),
        Err(BackendError {
            message: String::from("socket closed")
        })
    );
    assert_eq!(state.get_num_clients(), 1);
    assert_eq!(state.to_be_killed.len(), 1);
}

#[test]
fn safety_check_names_the_reasons() {
    assert!(AppState::<ScriptedBackend>::is_safe_to_kill(&client(5, "foot"), 1));
    assert!(!AppState::<ScriptedBackend>::is_safe_to_kill(&client(1, "foot"), 1));
    assert!(!AppState::<ScriptedBackend>::is_safe_to_kill(&client(0, "foot"), 1));
    assert!(!AppState::<ScriptedBackend>::is_safe_to_kill(&client(5, APP_ID), 1));
    let kept = AppState::<ScriptedBackend>::retain_safe(vec![client(5, "a"), client(-1, "b")], 1);
    assert_eq!(kept.len(), 1);
}

#[test]
fn replace_clients_takes_a_listing() {
    let backend = ScriptedBackend {
        replies: RefCell::new(vec![]),
    };
    let mut state = AppState::new(backend);
    state.replace_clients(vec![client(7, "a"), client(0, "b"), client(8, APP_ID)], 9);
    let kept: Vec<i32> = state.clients.iter().map(|c| c.pid()).collect();
    assert_eq!(kept, vec![7]);
    state.replace_clients(vec![client(9, "compositor")], 9);
    assert!(state.is_complete());
    assert!(state.to_be_killed.iter().all(|c| c.pid() == 7));
}

#[test]
fn a_round_refreshes_closes_and_reports_completion() {
    let backend = ScriptedBackend {
        replies: RefCell::new(vec![
            Ok(vec![(NO_SUCH_PID, "anki"), (500, "Hyprland")]),
            Ok(vec![(NO_SUCH_PID, "anki")]),
            Ok(vec![]),
            Err(String::from("socket closed")),
        ]),
    };
    let mut state = AppState::new(backend);
    // A dry run lists the clients but closes nothing.
    assert_eq!(
        state.run_round(true),
        Ok(RoundReport {
            complete: false,
            steps: Vec::new()
        })
    );
    assert_eq!(state.get_num_clients(), 1);
    assert_eq!(state.clients[0].pid(), NO_SUCH_PID);
    assert_eq!(
        state.run_round(false),
        Ok(RoundReport {
            complete: false,
            steps: vec![StepTaken::CloseRequested]
        })
    );
    assert_eq!(
        state.run_round(false),
        Ok(RoundReport {
            complete: true,
            steps: Vec::new()
        })
    );
    assert!(state.is_complete());
    assert_eq!(
        state.run_round(false),
        Err(RoundError::Refresh(BackendError {
            message: String::from("socket closed")
        }))
    );
    assert!(state.is_complete());
}
