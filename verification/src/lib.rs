//! Core of a touch-display device and the host-side services around it:
//! the device runtime state machine, the touch pipeline, the event bus,
//! the execution queue, the recurrence scheduler and the sandbox policy layer.

use vstd::arithmetic::power2::{lemma2_to64, pow2};
use vstd::prelude::*;
use vstd::string::*;

pub mod boards;
pub mod bus;
pub mod counting;
pub mod display;
pub mod drivers;
pub mod event_loop;
pub mod json;
pub mod pipeline;
pub mod protocol;
pub mod queue;
pub mod renderer;
pub mod runtime;
pub mod sandbox;
pub mod scheduler;
pub mod text;
pub mod ui;

verus! {

/// What the device says once it is up.
pub fn boot_message() -> (message: &'static str)
    ensures
        message@ == "microclaw-device ready"@,
{
    "microclaw-device ready"
}

/// The title of the user interface shell.
pub fn ui_shell_title() -> (title: &'static str)
    ensures
        title@ == "microclaw"@,
{
    "microclaw"
}

/// The address of the gateway's socket for a device.
pub open spec fn spec_device_ws_url(host: Seq<char>, device_id: Seq<char>) -> Seq<char> {
    "wss://"@ + host + "/ws?device_id="@ + device_id
}

/// The address of the socket of `host` for the device `device_id`.
pub fn device_ws_url(host: &str, device_id: &str) -> (url: String)
    ensures
        url@ == spec_device_ws_url(host@, device_id@),
{
    let mut url = crate::text::concat2("wss://", host);
    url.append("/ws?device_id=");
    url.append(device_id);
    url
}

/// The wait before reconnect attempt `attempt`, in milliseconds: half a
/// second, doubled with each attempt up to the sixth, and never more than
/// thirty seconds. Attempt 0 counts as attempt 1.
pub open spec fn spec_reconnect_backoff_ms(attempt: u32) -> nat {
    let counted: nat = if attempt < 1 {
        1
    } else if attempt > 6 {
        6
    } else {
        attempt as nat
    };
    let wait = 500 * pow2((counted - 1) as nat);
    if wait < 30_000 {
        wait
    } else {
        30_000
    }
}

/// The wait before reconnect attempt `attempt`, in milliseconds.
pub fn reconnect_backoff_ms(attempt: u32) -> (wait: u64)
    ensures
        wait == spec_reconnect_backoff_ms(attempt),
        500 <= wait <= 16_000,
{
    proof {
        lemma2_to64();
    }
    if attempt <= 1 {
        500
    } else if attempt == 2 {
        1_000
    } else if attempt == 3 {
        2_000
    } else if attempt == 4 {
        4_000
    } else if attempt == 5 {
        8_000
    } else {
        16_000
    }
}

/// A later attempt never waits less than an earlier one, and up to the
/// sixth attempt each waits twice as long as the one before.
pub proof fn reconnect_backoff_grows(earlier: u32, later: u32)
    requires
        earlier <= later,
    ensures
        spec_reconnect_backoff_ms(earlier) <= spec_reconnect_backoff_ms(later),
        1 <= earlier < 6 ==> spec_reconnect_backoff_ms((earlier + 1) as u32) == 2
            * spec_reconnect_backoff_ms(earlier),
{
    lemma2_to64();
}

} // verus!
