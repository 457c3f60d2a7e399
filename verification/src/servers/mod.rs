//! Different servers that the clients can spawn and manage

use vstd::prelude::*;

pub mod http;
pub mod qos;
pub mod reconnect;
pub mod redirector;
pub mod socket;
pub mod telemetry;
pub mod tunnel;
pub mod udp_tunnel;

verus! {

pub const REDIRECTOR_PORT: u16 = 42127;

pub const BLAZE_PORT: u16 = 42128;

pub const TELEMETRY_PORT: u16 = 42129;

pub const QOS_PORT: u16 = 42130;

pub const HTTP_PORT: u16 = 42131;

/// The port of the socket that stands for the host of a game
pub const TUNNEL_HOST_PORT: u16 = 42132;

/// The port that the game hosts on, to which the sockets of a tunnel's pool send
pub const GAME_HOST_PORT: u16 = 3659;

/// The port that lets the system assign one
pub const RANDOM_PORT: u16 = 0;

/// The fixed size of socket pool to use
pub const SOCKET_POOL_SIZE: usize = 4;

/// Provides the port that a socket of a tunnel's pool is bound to
///
/// ## Arguments
/// * index - The index of the socket
pub fn pool_port(index: u8) -> (port: u16)
    ensures
        port == (if index == 0 {
            TUNNEL_HOST_PORT
        } else {
            RANDOM_PORT
        }),
        port == socket_port(index),
{
    // Host socket index *must* use a fixed port since its used on the server side
    if index == 0 {
        TUNNEL_HOST_PORT
    } else {
        // Other sockets can used OS auto assigned port
        RANDOM_PORT
    }
}

/// How polling a machine goes on
#[derive(Debug, Clone, Copy, PartialEq, Eq, Structural)]
pub enum Progress {
    /// The next question is to be answered
    Continue,
    /// Polling ends until an answer may have become known
    Pending,
    /// The machine has stopped and should not be polled again
    Stopped,
}

/// Append a handle to the server task collection
///
/// ## Arguments
/// * tasks  - The task collection
/// * handle - The handle for stopping the task
pub fn add_server_task<T>(tasks: &mut Vec<T>, handle: T)
    ensures
        final(tasks)@ == old(tasks)@.push(handle),
{
    tasks.push(handle);
}

/// Takes the handles of all tasks present in the task collection, in the order
/// they were added, for each of them to be stopped. The collection is empty
/// afterwards, so that no task is stopped twice.
///
/// ## Arguments
/// * tasks - The task collection
pub fn stop_server_tasks<T>(tasks: &mut Vec<T>) -> (stopped: Vec<T>)
    ensures
        stopped@ == old(tasks)@,
        final(tasks)@ == Seq::<T>::empty(),
{
    let stopped = tasks.split_off(0);
    assert(stopped@ =~= old(tasks)@);
    stopped
}

/// The port that a socket of a tunnel's pool is bound to
pub open spec fn socket_port(index: u8) -> u16 {
    if index == 0 {
        TUNNEL_HOST_PORT
    } else {
        RANDOM_PORT
    }
}

/// Only the socket that stands for the host has a fixed port, and the system
/// assigns one to every other
pub proof fn law_socket_ports(index: u8)
    ensures
        socket_port(index) == TUNNEL_HOST_PORT <==> index == 0,
        socket_port(index) == 0 <==> index != 0,
{
}

} // verus!
