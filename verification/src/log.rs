//! The verbosity switch behind every backend's tagged line.
//!
//! What an operator reads back from a user is printed plainly: one line per capture start,
//! encoder choice, zero-copy or readback decision, and fallback. The mechanics behind those lines
//! print only once the switch is on: a capture that asks for debug logging turns it on for the
//! process, and the environment does the same for standalone use.

use vstd::prelude::*;
use vstd::string::*;

verus! {

/// Whether debug lines print.
#[derive(Clone, Copy, Debug, PartialEq, Eq, Structural)]
pub struct DebugSwitch {
    /// What the last capture asked for.
    pub on: bool,
    /// What the environment asks for.
    pub env: bool,
}

/// The environment's `PIXELFLUX_DEBUG` turns debug lines on: it is set, and to something other
/// than nothing or `0`.
pub open spec fn asks_for_debug(value: Option<&str>) -> bool {
    value matches Some(v) && v@.len() != 0 && v@ != seq!['0']
}

impl DebugSwitch {
    /// The switch of a process with this `PIXELFLUX_DEBUG`.
    pub fn new(value: Option<&str>) -> (s: DebugSwitch)
        ensures
            !s.on,
            s.env == asks_for_debug(value),
    {
        let env = match value {
            None => false,
            Some(v) => {
                let n: usize = v.unicode_len();
                let zero = n == 1 && v.get_char(0) == '0';
                assert(zero == (v@ =~= seq!['0']));
                n != 0 && !zero
            },
        };
        DebugSwitch { on: false, env }
    }
}

/// Turn the debug lines on or off for the process.
pub fn set_debug(switch: &mut DebugSwitch, on: bool)
    ensures
        *final(switch) == (DebugSwitch { on, env: old(switch).env }),
{
    switch.on = on;
}

/// Whether debug lines print: the last capture's setting, or the environment's.
pub fn debug_enabled(switch: &DebugSwitch) -> (b: bool)
    ensures
        b == (switch.on || switch.env),
{
    switch.on || switch.env
}

} // verus!
