//! What the interactive shell makes of a line typed at its prompt.

use vstd::prelude::*;
use vstd::string::StringExecFns;
use vstd::utf8::is_ascii_chars;
use vstd::utf8::encode_utf8;
use crate::text::{
    is_whitespace, skip_whitespace, word_end, chars_eq, chars_of, has_prefix, has_prefix_exec, next_word, next_word_exec, push_decimal,
    string_from_chars, sub_chars, to_decimal, trim, trim_exec, utf8_shorter_than_five,
};

verus! {

/// The lowercase form of `s` as `str::to_lowercase` gives it.
pub uninterp spec fn spec_to_lowercase(s: Seq<char>) -> Seq<char>;

/// ASCII letters `A-Z` lowered, every other character kept.
pub open spec fn ascii_lower(c: char) -> char {
    if 'A' <= c && c <= 'Z' {
        ((c as u32) + 32) as char
    } else {
        c
    }
}

/// Calls `str::to_lowercase`. Its result is a function of the text alone
/// (named `spec_to_lowercase`); for ASCII text it lowers `A-Z` and keeps every
/// other character, as the Unicode lowercase mapping does for ASCII. What it
/// gives for other characters is not stated.
#[verifier::external_body]
fn to_lowercase(s: &str) -> (r: String)
    ensures
        r@ == spec_to_lowercase(s@),
        is_ascii_chars(s@) ==> r@ == s@.map_values(|c: char| ascii_lower(c)),
{
    s.to_lowercase()
}

/// The line as the shell reads it: trimmed, then lowercased.
pub open spec fn spec_normalize_line(line: Seq<char>) -> Seq<char> {
    spec_to_lowercase(trim(line))
}

/// Trims and lowercases a typed line; this is also what goes to the history.
/// An ASCII line comes out trimmed with `A-Z` lowered.
pub fn normalize_line(line: &str) -> (r: String)
    ensures
        r@ == spec_normalize_line(line@),
        is_ascii_chars(line@) ==> r@ == trim(line@).map_values(|c: char| ascii_lower(c)),
{
    let cs = chars_of(line);
    let t = trim_exec(cs.as_slice());
    let ts = string_from_chars(t.as_slice());
    to_lowercase(ts.as_str())
}

/// What a line asks the shell to do.
#[derive(Debug)]
pub enum CliAction {
    /// A blank line.
    Nothing,
    Exit,
    List,
    Help,
    /// Ask the peers for their last block.
    LastBlock,
    StartServer,
    StopServer,
    UnknownSubCommand,
    MissingSubCommand,
    /// Connect to the peer of this URI.
    Connect(String),
    MissingPeerUri,
    PingAll,
    PingPrefixTooShort,
    /// Ping every peer whose id, in decimal, starts with this text.
    PingPrefix(String),
    MissingPingTarget,
    UnknownCommand(String),
}

/// `CliAction` with its texts as character sequences.
pub enum CliActionView {
    Nothing,
    Exit,
    List,
    Help,
    LastBlock,
    StartServer,
    StopServer,
    UnknownSubCommand,
    MissingSubCommand,
    Connect(Seq<char>),
    MissingPeerUri,
    PingAll,
    PingPrefixTooShort,
    PingPrefix(Seq<char>),
    MissingPingTarget,
    UnknownCommand(Seq<char>),
}

impl View for CliAction {
    type V = CliActionView;

    open spec fn view(&self) -> CliActionView {
        match self {
            CliAction::Nothing => CliActionView::Nothing,
            CliAction::Exit => CliActionView::Exit,
            CliAction::List => CliActionView::List,
            CliAction::Help => CliActionView::Help,
            CliAction::LastBlock => CliActionView::LastBlock,
            CliAction::StartServer => CliActionView::StartServer,
            CliAction::StopServer => CliActionView::StopServer,
            CliAction::UnknownSubCommand => CliActionView::UnknownSubCommand,
            CliAction::MissingSubCommand => CliActionView::MissingSubCommand,
            CliAction::Connect(s) => CliActionView::Connect(s@),
            CliAction::MissingPeerUri => CliActionView::MissingPeerUri,
            CliAction::PingAll => CliActionView::PingAll,
            CliAction::PingPrefixTooShort => CliActionView::PingPrefixTooShort,
            CliAction::PingPrefix(s) => CliActionView::PingPrefix(s@),
            CliAction::MissingPingTarget => CliActionView::MissingPingTarget,
            CliAction::UnknownCommand(s) => CliActionView::UnknownCommand(s@),
        }
    }
}

/// The second word of the line, if there is one.
pub open spec fn word_after(l: Seq<char>, end: int) -> Option<Seq<char>> {
    match next_word(l, end) {
        Some((a, b)) => Some(l.subrange(a, b)),
        None => None,
    }
}

/// What a normalized line asks for: the first word picks the command and the
/// second, where a command takes one, its argument. `exit` and `quit` leave,
/// `ls` and `list` list the peers, `lastblock` asks the peers for their last
/// block. Ping prefixes shorter than five bytes are refused.
pub open spec fn spec_cli_action(l: Seq<char>) -> CliActionView {
    match next_word(l, 0) {
        None => CliActionView::Nothing,
        Some((a, b)) => {
            let w = l.subrange(a, b);
            let arg = word_after(l, b);
            if w == seq!['e', 'x', 'i', 't'] || w == seq!['q', 'u', 'i', 't'] {
                CliActionView::Exit
            } else if w == seq!['l', 's'] || w == seq!['l', 'i', 's', 't'] {
                CliActionView::List
            } else if w == seq!['h', 'e', 'l', 'p'] {
                CliActionView::Help
            } else if w == seq!['l', 'a', 's', 't', 'b', 'l', 'o', 'c', 'k'] {
                CliActionView::LastBlock
            } else if w == seq!['s', 'e', 'r', 'v', 'e', 'r'] {
                match arg {
                    Some(x) => if x == seq!['s', 't', 'a', 'r', 't'] {
                        CliActionView::StartServer
                    } else if x == seq!['s', 't', 'o', 'p'] {
                        CliActionView::StopServer
                    } else {
                        CliActionView::UnknownSubCommand
                    },
                    None => CliActionView::MissingSubCommand,
                }
            } else if w == seq!['c', 'o', 'n', 'n', 'e', 'c', 't'] {
                match arg {
                    Some(x) => CliActionView::Connect(x),
                    None => CliActionView::MissingPeerUri,
                }
            } else if w == seq!['p', 'i', 'n', 'g'] {
                match arg {
                    Some(x) => if x == seq!['a', 'l', 'l'] {
                        CliActionView::PingAll
                    } else if encode_utf8(x).len() < 5 {
                        CliActionView::PingPrefixTooShort
                    } else {
                        CliActionView::PingPrefix(x)
                    },
                    None => CliActionView::MissingPingTarget,
                }
            } else {
                CliActionView::UnknownCommand(w)
            }
        },
    }
}

/// The argument word after `end`, as its own characters.
fn word_after_exec(cs: &Vec<char>, end: usize) -> (r: Option<Vec<char>>)
    requires
        end <= cs@.len(),
    ensures
        match (r, word_after(cs@, end as int)) {
            (Some(x), Some(y)) => x@ == y,
            (None, None) => true,
            _ => false,
        },
{
    match next_word_exec(cs.as_slice(), end) {
        Some((a, b)) => Some(sub_chars(cs.as_slice(), a, b)),
        None => None,
    }
}

/// Reads a normalized line as a shell command.
pub fn parse_command(line: &str) -> (a: CliAction)
    ensures
        a@ == spec_cli_action(line@),
{
    let cs = chars_of(line);
    let (a, b) = match next_word_exec(cs.as_slice(), 0) {
        None => {
            return CliAction::Nothing;
        },
        Some(t) => t,
    };
    let w = sub_chars(cs.as_slice(), a, b);
    let arg = word_after_exec(&cs, b);
    let exit: Vec<char> = vec!['e', 'x', 'i', 't'];
    let quit: Vec<char> = vec!['q', 'u', 'i', 't'];
    let ls: Vec<char> = vec!['l', 's'];
    let list: Vec<char> = vec!['l', 'i', 's', 't'];
    let help: Vec<char> = vec!['h', 'e', 'l', 'p'];
    let last_block: Vec<char> = vec!['l', 'a', 's', 't', 'b', 'l', 'o', 'c', 'k'];
    let server: Vec<char> = vec!['s', 'e', 'r', 'v', 'e', 'r'];
    let connect: Vec<char> = vec!['c', 'o', 'n', 'n', 'e', 'c', 't'];
    let ping: Vec<char> = vec!['p', 'i', 'n', 'g'];
    assert(exit@ =~= seq!['e', 'x', 'i', 't']);
    assert(quit@ =~= seq!['q', 'u', 'i', 't']);
    assert(ls@ =~= seq!['l', 's']);
    assert(list@ =~= seq!['l', 'i', 's', 't']);
    assert(help@ =~= seq!['h', 'e', 'l', 'p']);
    assert(last_block@ =~= seq!['l', 'a', 's', 't', 'b', 'l', 'o', 'c', 'k']);
    assert(server@ =~= seq!['s', 'e', 'r', 'v', 'e', 'r']);
    assert(connect@ =~= seq!['c', 'o', 'n', 'n', 'e', 'c', 't']);
    assert(ping@ =~= seq!['p', 'i', 'n', 'g']);
    if chars_eq(w.as_slice(), exit.as_slice()) || chars_eq(w.as_slice(), quit.as_slice()) {
        CliAction::Exit
    } else if chars_eq(w.as_slice(), ls.as_slice()) || chars_eq(w.as_slice(), list.as_slice()) {
        CliAction::List
    } else if chars_eq(w.as_slice(), help.as_slice()) {
        CliAction::Help
    } else if chars_eq(w.as_slice(), last_block.as_slice()) {
        CliAction::LastBlock
    } else if chars_eq(w.as_slice(), server.as_slice()) {
        match arg {
            Some(x) => {
                let start: Vec<char> = vec!['s', 't', 'a', 'r', 't'];
                let stop: Vec<char> = vec!['s', 't', 'o', 'p'];
                assert(start@ =~= seq!['s', 't', 'a', 'r', 't']);
                assert(stop@ =~= seq!['s', 't', 'o', 'p']);
                if chars_eq(x.as_slice(), start.as_slice()) {
                    CliAction::StartServer
                } else if chars_eq(x.as_slice(), stop.as_slice()) {
                    CliAction::StopServer
                } else {
                    CliAction::UnknownSubCommand
                }
            },
            None => CliAction::MissingSubCommand,
        }
    } else if chars_eq(w.as_slice(), connect.as_slice()) {
        match arg {
            Some(x) => CliAction::Connect(string_from_chars(x.as_slice())),
            None => CliAction::MissingPeerUri,
        }
    } else if chars_eq(w.as_slice(), ping.as_slice()) {
        match arg {
            Some(x) => {
                let all: Vec<char> = vec!['a', 'l', 'l'];
                assert(all@ =~= seq!['a', 'l', 'l']);
                if chars_eq(x.as_slice(), all.as_slice()) {
                    CliAction::PingAll
                } else {
                    if utf8_shorter_than_five(x.as_slice()) {
                        CliAction::PingPrefixTooShort
                    } else {
                        CliAction::PingPrefix(string_from_chars(x.as_slice()))
                    }
                }
            },
            None => CliAction::MissingPingTarget,
        }
    } else {
        CliAction::UnknownCommand(string_from_chars(w.as_slice()))
    }
}

/// The peer ids, in the order given, whose decimal rendering starts with `prefix`.
pub fn peer_ids_with_prefix(ids: &Vec<u128>, prefix: &str) -> (out: Vec<u128>)
    ensures
        out@ == ids@.filter(|id: u128| has_prefix(to_decimal(id as nat), prefix@)),
{
    let p = chars_of(prefix);
    let mut out: Vec<u128> = Vec::new();
    let mut i: usize = 0;
    while i < ids.len()
        invariant
            i <= ids@.len(),
            p@ == prefix@,
            out@ == ids@.subrange(0, i as int).filter(
                |id: u128| has_prefix(to_decimal(id as nat), prefix@),
            ),
        decreases ids@.len() - i,
    {
        let id = ids[i];
        let mut digits: Vec<char> = Vec::new();
        push_decimal(&mut digits, id);
        assert(digits@ =~= to_decimal(id as nat));
        assert(digits@.subrange(0, digits@.len() as int) =~= digits@);
        let keep = has_prefix_exec(digits.as_slice(), 0, p.as_slice());
        proof {
            reveal_with_fuel(Seq::filter, 1);
            assert(ids@.subrange(0, i + 1).drop_last() =~= ids@.subrange(0, i as int));
        }
        if keep {
            out.push(id);
        }
        i = i + 1;
    }
    assert(ids@.subrange(0, ids@.len() as int) =~= ids@);
    out
}

/// The shell's help text.
pub fn help_text() -> (s: String)
    ensures
        s@ == "list              - list all connected peers\nping     all|<id> - ping connected peers\nserver start|stop - start or stop incoming server\nquit              - exit the application\nhelp              - show available commands\nlastBlock         - request the last block from peers\n"@,
{
    String::from_str(
        "list              - list all connected peers\nping     all|<id> - ping connected peers\nserver start|stop - start or stop incoming server\nquit              - exit the application\nhelp              - show available commands\nlastBlock         - request the last block from peers\n",
    )
}

/// A word that runs to the end of the line ends there.
proof fn lemma_word_runs_to_end(s: Seq<char>, i: int)
    requires
        0 <= i <= s.len(),
        forall|j: int| i <= j < s.len() ==> !is_whitespace(#[trigger] s[j]),
    ensures
        word_end(s, i) == s.len(),
    decreases s.len() - i,
{
    if i < s.len() {
        lemma_word_runs_to_end(s, i + 1);
    }
}

/// `ping` followed by one word that is not `all` and has at least five UTF-8
/// bytes asks to ping the peers whose ids start with that whole word.
pub proof fn lemma_ping_prefix_whole_word(x: Seq<char>)
    requires
        x.len() > 0,
        forall|j: int| 0 <= j < x.len() ==> !is_whitespace(#[trigger] x[j]),
        x != seq!['a', 'l', 'l'],
        encode_utf8(x).len() >= 5,
    ensures
        spec_cli_action(seq!['p', 'i', 'n', 'g', ' '] + x) == CliActionView::PingPrefix(x),
{
    let l = seq!['p', 'i', 'n', 'g', ' '] + x;
    assert(l[0] == 'p' && l[1] == 'i' && l[2] == 'n' && l[3] == 'g' && l[4] == ' ');
    assert(skip_whitespace(l, 0) == 0);
    assert(word_end(l, 4) == 4);
    assert(word_end(l, 3) == 4);
    assert(word_end(l, 2) == 4);
    assert(word_end(l, 1) == 4);
    assert(word_end(l, 0) == 4);
    assert(next_word(l, 0) == Some((0int, 4int)));
    let w = l.subrange(0, 4);
    assert(w =~= seq!['p', 'i', 'n', 'g']);
    assert(l[5] == x[0]);
    assert(skip_whitespace(l, 5) == 5);
    assert(skip_whitespace(l, 4) == 5);
    assert forall|j: int| 5 <= j < l.len() implies !is_whitespace(#[trigger] l[j]) by {
        assert(l[j] == x[j - 5]);
    }
    lemma_word_runs_to_end(l, 5);
    assert(word_after(l, 4) == Some(l.subrange(5, l.len() as int)));
    assert(l.subrange(5, l.len() as int) =~= x);
    assert(w != seq!['e', 'x', 'i', 't'] && w != seq!['q', 'u', 'i', 't']) by {
        assert(w[0] != seq!['e', 'x', 'i', 't'][0]);
        assert(w[0] != seq!['q', 'u', 'i', 't'][0]);
    }
    assert(w != seq!['l', 's'] && w != seq!['l', 'i', 's', 't']) by {
        assert(w[0] != seq!['l', 'i', 's', 't'][0]);
    }
    assert(w != seq!['h', 'e', 'l', 'p']) by {
        assert(w[0] != seq!['h', 'e', 'l', 'p'][0]);
    }
}

} // verus!
