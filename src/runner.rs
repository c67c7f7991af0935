use vstd::prelude::*;

use crate::addr::SockAddr;
use crate::command::{Command, CommandModel};
use crate::proxy::Type;
use crate::text::{decimal, push_decimal};

verus! {

/// The descriptor that the listening socket is handed to the child at.
pub const FD_START: i32 = 3;

/// The backlog of the child's listening socket.
pub const BACKLOG: i32 = 10;

/// The name a runner registers: the one given, else the program's.
pub fn registered_name(name: Option<String>, prog_name: String) -> (r: String)
    ensures
        r@ == match name {
            Some(n) => n@,
            None => prog_name@,
        },
{
    match name {
        Some(n) => n,
        None => prog_name,
    }
}

/// The socket-activation variables of the child of the process `pid`: `LISTEN_FDS=1`,
/// `LISTEN_PID=<pid>`, `LISTEN_FDNAMES=http`.
pub fn listen_env(pid: u32) -> (r: Vec<(String, String)>)
    ensures
        r@.len() == 3,
        r@[0].0@ == "LISTEN_FDS"@ && r@[0].1@ == "1"@,
        r@[1].0@ == "LISTEN_PID"@ && r@[1].1@ == decimal(pid as nat),
        r@[2].0@ == "LISTEN_FDNAMES"@ && r@[2].1@ == "http"@,
{
    let mut v: Vec<(String, String)> = Vec::new();
    v.push((String::from_str("LISTEN_FDS"), String::from_str("1")));
    let mut p = String::new();
    push_decimal(&mut p, pid as u64);
    assert(p@ =~= decimal(pid as nat));
    v.push((String::from_str("LISTEN_PID"), p));
    v.push((String::from_str("LISTEN_FDNAMES"), String::from_str("http")));
    v
}

/// The message that registers the child.
pub fn register_command(name: &String, addr: SockAddr, proxy: Type) -> (r: Command)
    ensures
        r@ == (CommandModel::Register { name: name@, addr, proxy }),
{
    Command::Register { name: name.clone(), addr, proxy }
}

/// The message that drops the child's route.
pub fn deregister_command(name: &String) -> (r: Command)
    ensures
        r@ == (CommandModel::Deregister { name: name@ }),
{
    Command::Deregister { name: name.clone() }
}

/// What the supervisor of a child sees while it waits.
#[derive(Clone, Copy, Debug, PartialEq, Eq, Structural)]
pub enum Event {
    /// The user interrupted the runner.
    Interrupt,
    /// The child exited.
    ChildExited,
    /// Registering, waiting or deregistering failed.
    Failed,
}

/// What the supervisor does next.
#[derive(Clone, Copy, Debug, PartialEq, Eq, Structural)]
pub enum Action {
    /// Pass the interrupt on to the child and keep waiting.
    InterruptChild,
    /// Stop waiting and drop the child's route.
    Deregister,
    /// Terminate the child and report the failure.
    TerminateChild,
}

/// The supervisor's decision on one event.
pub fn on_event(event: Event) -> (r: Action)
    ensures
        r == match event {
            Event::Interrupt => Action::InterruptChild,
            Event::ChildExited => Action::Deregister,
            Event::Failed => Action::TerminateChild,
        },
{
    match event {
        Event::Interrupt => Action::InterruptChild,
        Event::ChildExited => Action::Deregister,
        Event::Failed => Action::TerminateChild,
    }
}

} // verus!
