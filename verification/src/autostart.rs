//! Starting the program with the user's session through the Run key of the
//! registry.
use vstd::prelude::*;
use crate::text::{append_str, chars_of, string_of};

verus! {

/// The name of the value under the Run key.
pub const APP_NAME: &'static str = "Power Plan Pro";

/// The per-user Run key.
pub const RUN_KEY: &'static str = "Software\\Microsoft\\Windows\\CurrentVersion\\Run";

/// The Run-key value for the program at `exe_path`: the path in double
/// quotes.
pub fn autostart_value(exe_path: &str) -> (res: String)
    ensures
        res@ == "\""@ + exe_path@ + "\""@,
{
    let mut v = chars_of("\"");
    append_str(&mut v, exe_path);
    append_str(&mut v, "\"");
    string_of(&v)
}

} // verus!
