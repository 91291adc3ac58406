//! Fixed parameters of the onboarding profile, and the textual command the
//! low-level connect primitive accepts. The writes themselves (the control
//! file, the kernel module, the interface address) are side effects the
//! embedding application performs; this module only fixes the values.

use vstd::prelude::*;

verus! {

/// Canonical path of the kernel control file that accepts low-level 6LoWPAN
/// commands.
pub const BLUETOOTH_6LOWPAN_CONTROL_FILE: &'static str =
    "/sys/kernel/debug/bluetooth/6lowpan_control";

/// The byte written to the control switch to activate low-level 6LoWPAN
/// control.
pub const CONTROL_ENABLE_COMMAND: &'static str = "1";

/// Length of one discovery window, in seconds: how long a round scans before
/// enumerating.
pub const SCANNING_SLOT_SECS: u64 = 5;

/// The bearer-type code handed to the connect primitive; externally defined
/// and opaque to the manager.
pub const CONNECTION_TYPE: &'static str = "2";

/// Builds the textual command that the control file accepts to request a
/// bearer to the device at address `mac` with bearer-type code `type_`:
/// `connect <mac> <type>`.
pub fn connect_command(mac: &str, type_: &str) -> (r: String)
    ensures
        r@ == "connect "@ + mac@ + " "@ + type_@,
{
    let mut cmd = String::from_str("connect ");
    cmd.append(mac);
    cmd.append(" ");
    cmd.append(type_);
    proof {
        assert(cmd@ =~= "connect "@ + mac@ + " "@ + type_@);
    }
    cmd
}

} // verus!
