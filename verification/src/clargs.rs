//! Command-line options of the node: `-p/--port PORT` and `-h/--help` (`--h` too).

use vstd::prelude::*;
use crate::text::{chars_eq, chars_of, parse_u16_exec, spec_parse_u16};

verus! {

/// One step the node takes for its command line, in order.
#[derive(Debug, Clone, Copy, PartialEq, Eq, Structural)]
pub enum ArgAction {
    /// Listen on this port; `privileged` when it is below 1024, for which the
    /// node warns that root is needed.
    SetPort { port: u16, privileged: bool },
    /// The text after `-p` is no port; the node logs it and goes on.
    InvalidPort,
    /// Print the usage and exit successfully.
    ShowUsage,
    /// `-p` came last: the node stops with an error.
    PortNotProvided,
}

pub open spec fn is_port_flag(a: Seq<char>) -> bool {
    a == seq!['-', 'p'] || a == seq!['-', '-', 'p', 'o', 'r', 't']
}

pub open spec fn is_help_flag(a: Seq<char>) -> bool {
    a == seq!['-', 'h'] || a == seq!['-', '-', 'h'] || a == seq!['-', '-', 'h', 'e', 'l', 'p']
}

/// The steps for `args[i..]`.
pub open spec fn spec_arg_actions(args: Seq<Seq<char>>, i: int) -> Seq<ArgAction>
    decreases args.len() - i,
{
    if i < 0 || i >= args.len() {
        seq![]
    } else if is_port_flag(args[i]) {
        if i + 1 >= args.len() {
            seq![ArgAction::PortNotProvided]
        } else {
            match spec_parse_u16(args[i + 1]) {
                Some(p) => seq![ArgAction::SetPort { port: p, privileged: p < 1024 }]
                    + spec_arg_actions(args, i + 1),
                None => seq![ArgAction::InvalidPort] + spec_arg_actions(args, i + 1),
            }
        }
    } else if is_help_flag(args[i]) {
        seq![ArgAction::ShowUsage]
    } else {
        spec_arg_actions(args, i + 1)
    }
}

/// The texts of the arguments.
pub open spec fn arg_texts(args: Seq<String>) -> Seq<Seq<char>> {
    args.map_values(|s: String| s@)
}

/// The steps the node takes for its command line; `args[0]` is the program.
/// The list ends at `ShowUsage` or `PortNotProvided` when one comes.
pub fn parse_args(args: &Vec<String>) -> (out: Vec<ArgAction>)
    ensures
        out@ == spec_arg_actions(arg_texts(args@), 1),
{
    let ghost a = arg_texts(args@);
    let p_short: Vec<char> = vec!['-', 'p'];
    let p_long: Vec<char> = vec!['-', '-', 'p', 'o', 'r', 't'];
    let h_short: Vec<char> = vec!['-', 'h'];
    let h_long: Vec<char> = vec!['-', '-', 'h'];
    let h_word: Vec<char> = vec!['-', '-', 'h', 'e', 'l', 'p'];
    assert(h_word@ =~= seq!['-', '-', 'h', 'e', 'l', 'p']);
    assert(p_short@ =~= seq!['-', 'p']);
    assert(p_long@ =~= seq!['-', '-', 'p', 'o', 'r', 't']);
    assert(h_short@ =~= seq!['-', 'h']);
    assert(h_long@ =~= seq!['-', '-', 'h']);
    let mut out: Vec<ArgAction> = Vec::new();
    let mut i: usize = 1;
    if args.len() == 0 {
        return out;
    }
    while i < args.len()
        invariant
            1 <= i <= args@.len(),
            a == arg_texts(args@),
            p_short@ == seq!['-', 'p'],
            p_long@ == seq!['-', '-', 'p', 'o', 'r', 't'],
            h_short@ == seq!['-', 'h'],
            h_long@ == seq!['-', '-', 'h'],
            h_word@ == seq!['-', '-', 'h', 'e', 'l', 'p'],
            out@ + spec_arg_actions(a, i as int) == spec_arg_actions(a, 1),
        decreases args@.len() - i,
    {
        let cur = chars_of(args[i].as_str());
        assert(cur@ == a[i as int]);
        if chars_eq(cur.as_slice(), p_short.as_slice()) || chars_eq(
            cur.as_slice(),
            p_long.as_slice(),
        ) {
            if i + 1 >= args.len() {
                out.push(ArgAction::PortNotProvided);
                return out;
            }
            let next = chars_of(args[i + 1].as_str());
            assert(next@ == a[i + 1]);
            assert(next@.subrange(0, next@.len() as int) =~= next@);
            let ghost before = out@;
            match parse_u16_exec(next.as_slice(), 0, next.len()) {
                Some(p) => {
                    out.push(ArgAction::SetPort { port: p, privileged: p < 1024 });
                },
                None => {
                    out.push(ArgAction::InvalidPort);
                },
            }
            assert(out@ + spec_arg_actions(a, i + 1) =~= before + spec_arg_actions(a, i as int));
        } else if chars_eq(cur.as_slice(), h_short.as_slice()) || chars_eq(
            cur.as_slice(),
            h_long.as_slice(),
        ) || chars_eq(cur.as_slice(), h_word.as_slice()) {
            out.push(ArgAction::ShowUsage);
            return out;
        }
        i = i + 1;
    }
    assert(out@ =~= out@ + spec_arg_actions(a, i as int));
    out
}

} // verus!
