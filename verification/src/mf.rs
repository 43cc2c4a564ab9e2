//! The media runtime of the process: started once, never shut down.
//!
//! Worker threads of the capture outlive a recording, so tearing the runtime down while the
//! process lives would pull it away from under them.

use crate::error::{MediaError, MediaResult, OsError};
use vstd::prelude::*;

verus! {

/// The thread already belongs to an apartment of another kind; that is no obstacle.
pub const RPC_E_CHANGED_MODE: i32 = -2147417850;

/// Proof that the runtime is up.
#[derive(Debug)]
pub struct MfRuntime {
    up: (),
}

impl MfRuntime {
    /// Judges the two initialisations: that of the thread, by its result code, and that of the
    /// process, which was made once and left its error text where it failed.
    pub fn start(com: OsError, process: &Result<(), String>) -> (r: MediaResult<MfRuntime>)
        ensures
            ({
                let com_ok = com.code >= 0 || com.code == RPC_E_CHANGED_MODE;
                &&& r is Ok <==> com_ok && process is Ok
                &&& r matches Err(e) ==> if !com_ok {
                    e == (MediaError::Windows { context: "CoInitializeEx", source: com })
                } else {
                    e matches MediaError::Internal(text) && text@ == process->Err_0@
                }
            }),
    {
        if com.code < 0 && com.code != RPC_E_CHANGED_MODE {
            return Err(MediaError::win32("CoInitializeEx", com));
        }
        match process {
            Ok(()) => Ok(MfRuntime { up: () }),
            Err(text) => Err(MediaError::Internal(text.clone())),
        }
    }
}

/// The text of a failed process start.
pub fn startup_failure(why: &str) -> (s: String)
    ensures
        s@ == "MFStartup 失败："@ + why@,
{
    String::from_str("MFStartup 失败：").concat(why)
}

} // verus!
