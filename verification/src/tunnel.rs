use vstd::prelude::*;

use crate::text::{decimal, push_all, push_decimal};

verus! {

/// How many connections may wait to be accepted on a tunnel's listener.
pub const LISTEN_BACKLOG: u32 = 1024;

/// The local address tunnels listen on.
pub const LOOPBACK: [u8; 4] = [127, 0, 0, 1];

/// What binding the tunnel's local port failed at.
pub fn bind_failure_context(local_port: u16) -> (m: String)
    ensures
        m@ == "bind 127.0.0.1:"@ + decimal(local_port as nat) + " (port already in use?)"@,
{
    let mut m = String::new();
    push_all(&mut m, "bind 127.0.0.1:");
    push_decimal(&mut m, local_port as u32);
    push_all(&mut m, " (port already in use?)");
    m
}

/// The log line when a tunnel starts listening.
pub fn listening_message(remote_host: &str, remote_port: u16) -> (m: String)
    ensures
        m@ == "tunnel listening on 127.0.0.1 -> "@ + remote_host@ + ":"@ + decimal(
            remote_port as nat,
        ),
{
    let mut m = String::new();
    push_all(&mut m, "tunnel listening on 127.0.0.1 -> ");
    push_all(&mut m, remote_host);
    push_all(&mut m, ":");
    push_decimal(&mut m, remote_port as u32);
    m
}

/// The log line when one forwarded connection could not be opened over SSH.
pub fn forward_failure_message(error: &str) -> (m: String)
    ensures
        m@ == "tunnel connection failed (SSH handle dead?): "@ + error@,
{
    let mut m = String::new();
    push_all(&mut m, "tunnel connection failed (SSH handle dead?): ");
    push_all(&mut m, error);
    m
}

} // verus!
