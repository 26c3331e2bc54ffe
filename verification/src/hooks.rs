//! Hook scripts and the outcome of running one.
//!
//! A hook is an external script run with positional arguments at certain
//! validator-lifecycle events; its standard output is captured and quoted in
//! reports.  Running the script is the caller's business; this module holds
//! the record of a run and the rule deciding what a run's observations mean.

use vstd::prelude::*;

use crate::errors::ScoutyError;

verus! {

/// The record of one hook-script run.
#[derive(Debug)]
pub struct Hook {
    pub name: String,
    pub filename: String,
    pub filename_exists: bool,
    pub stdout: Vec<u8>,
}

impl Hook {
    /// Decide the outcome of one hook-script run from what the runner saw.
    ///
    /// A script that is not there is not an error: the hook is recorded as
    /// absent with no output.  A script that ran and succeeded is recorded
    /// with its captured output.  A script that ran and failed is an error
    /// naming the hook, the path and the captured standard error.
    pub fn from_run(
        name: &str,
        filename: &str,
        filename_exists: bool,
        success: bool,
        stdout: Vec<u8>,
        stderr: &str,
    ) -> (r: Result<Hook, ScoutyError>)
        ensures
            !filename_exists ==> (r matches Ok(h) && h.name@ == name@ && h.filename@ == filename@
                && h.filename_exists == false && h.stdout@ == Seq::<u8>::empty()),
            filename_exists && success ==> (r matches Ok(h) && h.name@ == name@ && h.filename@
                == filename@ && h.filename_exists == true && h.stdout@ == stdout@),
            filename_exists && !success ==> (r matches Err(e) && e matches ScoutyError::Other(m)
                && m@ == (((("Hook script - "@ + name@) + " - filename ("@) + filename@)
                + ") executed with error: "@) + stderr@),
    {
        if !filename_exists {
            Ok(
                Hook {
                    name: String::from_str(name),
                    filename: String::from_str(filename),
                    filename_exists: false,
                    stdout: Vec::new(),
                },
            )
        } else if success {
            Ok(
                Hook {
                    name: String::from_str(name),
                    filename: String::from_str(filename),
                    filename_exists: true,
                    stdout,
                },
            )
        } else {
            let m = String::from_str("Hook script - ").concat(name).concat(
                " - filename (",
            ).concat(filename).concat(") executed with error: ").concat(stderr);
            Err(ScoutyError::Other(m))
        }
    }
}

impl Default for Hook {
    /// A hook that was never looked up: empty names, recorded as absent.
    fn default() -> (r: Hook)
        ensures
            r.name@.len() == 0,
            r.filename@.len() == 0,
            r.filename_exists == false,
            r.stdout@.len() == 0,
    {
        Hook {
            name: String::new(),
            filename: String::new(),
            filename_exists: false,
            stdout: Vec::new(),
        }
    }
}

} // verus!
