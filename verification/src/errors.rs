//! The error taxonomy. Every variant is fatal and unrecoverable within a
//! run: no retry, no partial-batch salvage. Records already emitted before a
//! failure remain valid and are not retracted.

use vstd::prelude::*;

verus! {

/// Why a run aborted.
#[derive(Clone, Debug)]
pub enum BenchError {
    /// A missing script file or a missing required entry point.
    Configuration(String),
    /// Malformed program source.
    Parse(String),
    /// Runtime failure while invoking the workload.
    Eval(String),
    /// The spawned process exited with a non-zero status; carries the exit
    /// code (when one exists) and the captured error-channel bytes.
    Process { exit_code: Option<i32>, stderr: Vec<u8> },
    /// Subprocess output that is not valid text; carries the raw bytes.
    Encoding(Vec<u8>),
    /// Well-formed text that fails to match the expected output schema;
    /// carries the raw output for diagnosis.
    Protocol(Vec<u8>),
}

/// Gate on the script file's presence, checked before any engine work:
/// a missing script is a configuration error and the run emits no record.
pub fn check_script_present(present: bool, path_display: String) -> (r: Result<(), BenchError>)
    ensures
        present <==> r is Ok,
        !present ==> r == Result::<(), BenchError>::Err(BenchError::Configuration(path_display)),
{
    if present {
        Ok(())
    } else {
        Err(BenchError::Configuration(path_display))
    }
}

} // verus!
