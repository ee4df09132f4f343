//! Settings of the example impulse-response extraction program.
use vstd::prelude::*;

verus! {

/// What the impulse-response extraction run needs: the recording to read and
/// the directory its results go to. The command-line front end fills this in.
pub struct IrExtractArgs {
    pub src_signal: String,
    pub output_dir: String,
}

} // verus!
