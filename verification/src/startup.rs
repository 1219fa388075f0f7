//! What the program opens with.

use vstd::prelude::*;

verus! {

/// The root of the local session: the program's first argument, or else the home directory.
/// This session needs no configuration, so the program is useful on its first run.
pub fn local_root(argument: Option<String>, home: Option<String>) -> (r: Result<
    String,
    &'static str,
>)
    ensures
        match r {
            Ok(root) => match argument {
                Some(argument) => root@ == argument@,
                None => home is Some && root@ == home->0@,
            },
            Err(reason) => argument is None && home is None && reason@
                == "cannot determine the home directory"@,
        },
{
    match argument {
        Some(argument) => Ok(argument),
        None => match home {
            Some(home) => Ok(home),
            None => Err("cannot determine the home directory"),
        },
    }
}

} // verus!
