//! The HTTP interface: what a chat request is answered.

use vstd::prelude::*;

use crate::runtime::RuntimeEvent;
use crate::runtime;

verus! {

/// What is sent back for an event.
pub fn reply_text(event: RuntimeEvent) -> (r: String)
    ensures
        r@ == runtime::event_text(event, "Session closed"@),
{
    match event {
        RuntimeEvent::Reply(s) => s,
        RuntimeEvent::Info(s) => s,
        RuntimeEvent::Exit => "Session closed".to_string(),
    }
}

} // verus!
