//! Virtual-key event records.
//!
//! The virtual keyboard device consumes raw `(type, code, value)` events with
//! a zeroed timestamp. This module builds those records: a key transition for
//! a button's action code, and the synchronize report that must follow every
//! logical transition so consumers observe an atomic key-state update.
//! Writing the records to the device happens outside the library.

use crate::layout::FunctionLayer;
use vstd::prelude::*;

verus! {

/// Event type of a synchronization event.
pub const EV_SYN: u16 = 0;

/// Event type of a key press or release.
pub const EV_KEY: u16 = 1;

/// Synchronization code marking the end of one logical report.
pub const SYN_REPORT: u16 = 0;

/// One raw event for the virtual device, written with a zeroed timestamp.
#[derive(PartialEq, Eq, Structural, Clone, Copy, Debug)]
pub struct Emission {
    pub kind: u16,
    pub code: u16,
    pub value: i32,
}

/// The key transition record: value 1 for a press, 0 for a release.
pub open spec fn key_emission(code: u16, pressed: bool) -> Emission {
    Emission { kind: EV_KEY, code, value: if pressed { 1int as i32 } else { 0int as i32 } }
}

/// The synchronize-report record that closes every logical transition.
pub open spec fn syn_emission() -> Emission {
    Emission { kind: EV_SYN, code: SYN_REPORT, value: 0 }
}

/// Builds the key transition record for `code`.
pub fn key_event(code: u16, pressed: bool) -> (r: Emission)
    ensures
        r == key_emission(code, pressed),
{
    Emission { kind: EV_KEY, code, value: if pressed { 1 } else { 0 } }
}

/// Builds the synchronize-report record.
pub fn syn_report_event() -> (r: Emission)
    ensures
        r == syn_emission(),
{
    Emission { kind: EV_SYN, code: SYN_REPORT, value: 0 }
}

/// The key capability set the virtual device must declare: exactly the action
/// codes of the layer's buttons, in row order.
pub fn capability_codes(layer: &FunctionLayer) -> (r: Vec<u16>)
    ensures
        r@ == layer.actions(),
{
    let mut r: Vec<u16> = Vec::new();
    let n = layer.buttons.len();
    let mut i: usize = 0;
    while i < n
        invariant
            i <= n,
            n == layer.buttons@.len(),
            r@.len() == i,
            forall|k: int| 0 <= k < i ==> #[trigger] r@[k] == layer.buttons@[k].action,
        decreases n - i,
    {
        r.push(layer.buttons[i].action);
        i = i + 1;
    }
    proof {
        assert(r@ =~= layer.actions());
    }
    r
}

} // verus!
