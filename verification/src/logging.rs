//! The level tags of the node's console output.

use vstd::prelude::*;
use vstd::string::StringExecFns;

verus! {

/// The colour a level tag is shown in.
#[derive(Debug, Clone, Copy, PartialEq, Eq, Structural)]
pub enum LogColor {
    Blue,
    Green,
    Yellow,
    Red,
}

/// The tag of a logging level and its colour: 0 info (blue), 1 success
/// (green), 2 warning (yellow), 3 error (red); any other level reads as info,
/// uncoloured.
pub fn log_tag(level: u8) -> (t: (String, Option<LogColor>))
    ensures
        level == 0 ==> t.0@ == "[Info]"@ && t.1 == Some(LogColor::Blue),
        level == 1 ==> t.0@ == "[Success]"@ && t.1 == Some(LogColor::Green),
        level == 2 ==> t.0@ == "[Waring]"@ && t.1 == Some(LogColor::Yellow),
        level == 3 ==> t.0@ == "[Error]"@ && t.1 == Some(LogColor::Red),
        level > 3 ==> t.0@ == "[Info]"@ && t.1 is None,
{
    if level == 0 {
        (String::from_str("[Info]"), Some(LogColor::Blue))
    } else if level == 1 {
        (String::from_str("[Success]"), Some(LogColor::Green))
    } else if level == 2 {
        (String::from_str("[Waring]"), Some(LogColor::Yellow))
    } else if level == 3 {
        (String::from_str("[Error]"), Some(LogColor::Red))
    } else {
        (String::from_str("[Info]"), None)
    }
}

} // verus!
