//! Starting nodes of the network, written as `peer://<public key>@<host>:<port>`.

use vstd::prelude::*;
use vstd::string::StringExecFns;
use crate::text::{
    all_hex, all_hex_exec, chars_of, find_first, find_first_exec, lemma_find_first_props, find_last, find_last_exec,
    has_prefix, has_prefix_exec, push_decimal, spec_parse_u16, parse_u16_exec, is_hex_digit,
    lemma_find_first, lemma_find_last, lemma_parse_u16_to_decimal, lemma_to_decimal, is_digit,
    string_from_chars, sub_chars, to_decimal,
};

verus! {

/// Why a node URI was refused.
#[derive(Debug, Clone, Copy, PartialEq, Eq, Structural)]
pub enum ParseError {
    MissingScheme,
    MissingAtSign,
    EmptyPublicKey,
    InvalidPublicKeyHex,
    MissingHostPort,
    MissingPort,
    InvalidPort,
    EmptyHost,
    UnclosedIpv6Bracket,
}

impl ParseError {
    /// The human-readable message of the error.
    pub fn to_string(&self) -> (s: String)
        ensures
            s@ == match self {
                ParseError::MissingScheme => "missing 'peer://' scheme"@,
                ParseError::MissingAtSign => "missing '@' between public key and address"@,
                ParseError::EmptyPublicKey => "public key is empty"@,
                ParseError::InvalidPublicKeyHex => "public key must be hex (0-9a-fA-F)"@,
                ParseError::MissingHostPort => "missing host:port after '@'"@,
                ParseError::MissingPort => "missing port"@,
                ParseError::InvalidPort => "invalid port (must be 0-65535)"@,
                ParseError::EmptyHost => "host is empty"@,
                ParseError::UnclosedIpv6Bracket => "IPv6 host has no closing ']'"@,
            },
    {
        match self {
            ParseError::MissingScheme => String::from_str("missing 'peer://' scheme"),
            ParseError::MissingAtSign => String::from_str(
                "missing '@' between public key and address",
            ),
            ParseError::EmptyPublicKey => String::from_str("public key is empty"),
            ParseError::InvalidPublicKeyHex => String::from_str(
                "public key must be hex (0-9a-fA-F)",
            ),
            ParseError::MissingHostPort => String::from_str("missing host:port after '@'"),
            ParseError::MissingPort => String::from_str("missing port"),
            ParseError::InvalidPort => String::from_str("invalid port (must be 0-65535)"),
            ParseError::EmptyHost => String::from_str("host is empty"),
            ParseError::UnclosedIpv6Bracket => String::from_str("IPv6 host has no closing ']'"),
        }
    }
}

/// A starting node: its public key, host and port.
#[derive(Debug, Clone)]
pub struct Node {
    public_key: String,
    adress: String,
    port: u16,
}

/// The parts of a node.
pub struct NodeView {
    pub public_key: Seq<char>,
    pub adress: Seq<char>,
    pub port: u16,
}

impl View for Node {
    type V = NodeView;

    closed spec fn view(&self) -> NodeView {
        NodeView { public_key: self.public_key@, adress: self.adress@, port: self.port }
    }
}

/// `peer://`
pub open spec fn peer_scheme() -> Seq<char> {
    seq!['p', 'e', 'e', 'r', ':', '/', '/']
}

/// Splits the text after `@` into host and port text. A host in square brackets
/// (`[v6]:port`) ends at the first `]`, which `:` must follow; any other host
/// ends at the last `:`.
pub open spec fn spec_split_host_port(ap: Seq<char>) -> Result<(Seq<char>, Seq<char>), ParseError>
    recommends
        ap.len() > 0,
{
    if ap[0] == '[' {
        match find_first(ap, ']') {
            None => Err(ParseError::UnclosedIpv6Bracket),
            Some(close) => {
                let rem = ap.subrange(close + 1, ap.len() as int);
                if rem.len() > 0 && rem[0] == ':' {
                    Ok((ap.subrange(1, close), rem.drop_first()))
                } else {
                    Err(ParseError::MissingPort)
                }
            },
        }
    } else {
        match find_last(ap, ':') {
            None => Err(ParseError::MissingHostPort),
            Some(c) => Ok((ap.subrange(0, c), ap.subrange(c + 1, ap.len() as int))),
        }
    }
}

/// The node that `uri` describes, or the first check it fails.
pub open spec fn spec_from_config_uri(u: Seq<char>) -> Result<NodeView, ParseError> {
    if !has_prefix(u, peer_scheme()) {
        Err(ParseError::MissingScheme)
    } else {
        let p = u.subrange(7, u.len() as int);
        match find_first(p, '@') {
            None => Err(ParseError::MissingAtSign),
            Some(at) => {
                let pk = p.subrange(0, at);
                let ap = p.subrange(at + 1, p.len() as int);
                if pk.len() == 0 {
                    Err(ParseError::EmptyPublicKey)
                } else if !all_hex(pk) {
                    Err(ParseError::InvalidPublicKeyHex)
                } else if ap.len() == 0 {
                    Err(ParseError::MissingHostPort)
                } else {
                    match spec_split_host_port(ap) {
                        Err(e) => Err(e),
                        Ok((host, port)) => {
                            if host.len() == 0 {
                                Err(ParseError::EmptyHost)
                            } else {
                                match spec_parse_u16(port) {
                                    None => Err(ParseError::InvalidPort),
                                    Some(n) => Ok(
                                        NodeView { public_key: pk, adress: host, port: n },
                                    ),
                                }
                            }
                        },
                    }
                }
            },
        }
    }
}

/// Whether a parse result is the given spec result, compared through views.
pub open spec fn node_result_matches(
    r: Result<Node, ParseError>,
    s: Result<NodeView, ParseError>,
) -> bool {
    match (r, s) {
        (Ok(n), Ok(v)) => n@ == v,
        (Err(e), Err(f)) => e == f,
        _ => false,
    }
}

/// Splits `cs[ap_start..]` as `spec_split_host_port` does, giving the bounds of
/// the host and the start of the port text.
fn split_host_port_exec(cs: &[char], ap_start: usize) -> (r: Result<(usize, usize, usize), ParseError>)
    requires
        ap_start < cs@.len(),
    ensures
        match (r, spec_split_host_port(cs@.subrange(ap_start as int, cs@.len() as int))) {
            (Ok((hs, he, ps)), Ok((host, port))) => {
                &&& ap_start <= hs <= he <= ps <= cs@.len()
                &&& host == cs@.subrange(hs as int, he as int)
                &&& port == cs@.subrange(ps as int, cs@.len() as int)
            },
            (Err(e), Err(f)) => e == f,
            _ => false,
        },
{
    let n = cs.len();
    let ghost u = cs@;
    let ghost ap = u.subrange(ap_start as int, n as int);
    if cs[ap_start] == '[' {
        match find_first_exec(cs, ap_start, n, ']') {
            None => Err(ParseError::UnclosedIpv6Bracket),
            Some(close) => {
                proof {
                    lemma_find_first_props(ap, ']');
                    assert(ap[0] == '[');
                }
                let rem = ap_start + close + 1;
                let ghost rems = ap.subrange(close + 1, ap.len() as int);
                assert(rems =~= u.subrange(rem as int, n as int));
                if rem < n && cs[rem] == ':' {
                    assert(ap.subrange(1, close as int) =~= u.subrange(
                        ap_start + 1,
                        ap_start + close,
                    ));
                    assert(rems.drop_first() =~= u.subrange(rem + 1, n as int));
                    Ok((ap_start + 1, ap_start + close, rem + 1))
                } else {
                    Err(ParseError::MissingPort)
                }
            },
        }
    } else {
        match find_last_exec(cs, ap_start, n, ':') {
            None => Err(ParseError::MissingHostPort),
            Some(c) => {
                assert(ap.subrange(0, c as int) =~= u.subrange(ap_start as int, ap_start + c));
                assert(ap.subrange(c + 1, ap.len() as int) =~= u.subrange(
                    ap_start + c + 1,
                    n as int,
                ));
                Ok((ap_start, ap_start + c, ap_start + c + 1))
            },
        }
    }
}

impl Node {
    /// Parses `peer://<hex public key>@<host>:<port>`, where the host may be an
    /// IPv6 address in square brackets.
    pub fn from_config_uri(uri: String) -> (r: Result<Node, ParseError>)
        ensures
            node_result_matches(r, spec_from_config_uri(uri@)),
    {
        let cs = chars_of(uri.as_str());
        let n = cs.len();
        let ghost u = cs@;
        let scheme: Vec<char> = vec!['p', 'e', 'e', 'r', ':', '/', '/'];
        assert(scheme@ =~= peer_scheme());
        assert(u.subrange(0, n as int) =~= u);
        if !has_prefix_exec(cs.as_slice(), 0, scheme.as_slice()) {
            return Err(ParseError::MissingScheme);
        }
        let ghost p = u.subrange(7, n as int);
        let at = match find_first_exec(cs.as_slice(), 7, n, '@') {
            None => {
                return Err(ParseError::MissingAtSign);
            },
            Some(a) => a,
        };
        let pk_end = 7 + at;
        let ap_start = pk_end + 1;
        let ghost pk = p.subrange(0, at as int);
        let ghost ap = p.subrange(at + 1, p.len() as int);
        assert(pk =~= u.subrange(7, pk_end as int));
        assert(ap =~= u.subrange(ap_start as int, n as int));
        if at == 0 {
            return Err(ParseError::EmptyPublicKey);
        }
        if !all_hex_exec(cs.as_slice(), 7, pk_end) {
            return Err(ParseError::InvalidPublicKeyHex);
        }
        if ap_start == n {
            return Err(ParseError::MissingHostPort);
        }
        let (host_start, host_end, port_start) = match split_host_port_exec(
            cs.as_slice(),
            ap_start,
        ) {
            Err(e) => {
                return Err(e);
            },
            Ok(t) => t,
        };
        if host_end == host_start {
            return Err(ParseError::EmptyHost);
        }
        let port = match parse_u16_exec(cs.as_slice(), port_start, n) {
            None => {
                return Err(ParseError::InvalidPort);
            },
            Some(v) => v,
        };
        let pk_chars = sub_chars(cs.as_slice(), 7, pk_end);
        let host_chars = sub_chars(cs.as_slice(), host_start, host_end);
        Ok(
            Node {
                public_key: string_from_chars(pk_chars.as_slice()),
                adress: string_from_chars(host_chars.as_slice()),
                port,
            },
        )
    }

    /// `<host>:<port>`, with the port in decimal.
    pub fn addr(&self) -> (s: String)
        ensures
            s@ == self@.adress + seq![':'] + to_decimal(self@.port as nat),
    {
        let mut out = chars_of(self.adress.as_str());
        out.push(':');
        push_decimal(&mut out, self.port as u128);
        string_from_chars(out.as_slice())
    }
}

/// The nodes among `uris` that parse, in order.
pub open spec fn parsed_nodes(uris: Seq<Seq<char>>) -> Seq<NodeView>
    decreases uris.len(),
{
    if uris.len() == 0 {
        seq![]
    } else {
        match spec_from_config_uri(uris.last()) {
            Ok(v) => parsed_nodes(uris.drop_last()).push(v),
            Err(_) => parsed_nodes(uris.drop_last()),
        }
    }
}

/// Why each of `uris` that does not parse was refused, in order.
pub open spec fn parse_failures(uris: Seq<Seq<char>>) -> Seq<ParseError>
    decreases uris.len(),
{
    if uris.len() == 0 {
        seq![]
    } else {
        match spec_from_config_uri(uris.last()) {
            Ok(_) => parse_failures(uris.drop_last()),
            Err(e) => parse_failures(uris.drop_last()).push(e),
        }
    }
}

/// Reads a list of node URIs: the nodes that parse, and the errors of those that do not.
pub fn nodes_from_uris(uris: &Vec<String>) -> (r: (Vec<Node>, Vec<ParseError>))
    ensures
        r.0@.map_values(|n: Node| n@) == parsed_nodes(uris@.map_values(|u: String| u@)),
        r.1@ == parse_failures(uris@.map_values(|u: String| u@)),
{
    let ghost us = uris@.map_values(|u: String| u@);
    let mut nodes: Vec<Node> = Vec::new();
    let mut errors: Vec<ParseError> = Vec::new();
    let mut i: usize = 0;
    while i < uris.len()
        invariant
            i <= uris@.len(),
            us == uris@.map_values(|u: String| u@),
            nodes@.map_values(|n: Node| n@) == parsed_nodes(us.subrange(0, i as int)),
            errors@ == parse_failures(us.subrange(0, i as int)),
        decreases uris@.len() - i,
    {
        let ghost pre = us.subrange(0, i as int);
        let ghost next = us.subrange(0, i + 1);
        assert(next.drop_last() =~= pre);
        assert(next.last() == uris@[i as int]@);
        let ghost old_nodes = nodes@;
        match Node::from_config_uri(uris[i].clone()) {
            Ok(n) => {
                nodes.push(n);
                assert(nodes@.map_values(|n: Node| n@) =~= old_nodes.map_values(|n: Node| n@).push(
                    nodes@.last()@,
                ));
            },
            Err(e) => {
                errors.push(e);
            },
        }
        i = i + 1;
    }
    assert(us.subrange(0, uris@.len() as int) =~= us);
    (nodes, errors)
}

/// The URI of a node: `peer://<public key>@<host>:<port>`, the port in decimal.
pub open spec fn node_uri(pk: Seq<char>, host: Seq<char>, port: u16) -> Seq<char> {
    peer_scheme() + pk + seq!['@'] + host + seq![':'] + to_decimal(port as nat)
}

/// Writing a node as `peer://<public key>@<host>:<port>` and reading it back
/// gives the same node, for any hexadecimal key and any non-empty host that
/// does not start with `[`.
pub proof fn lemma_config_uri_roundtrip(pk: Seq<char>, host: Seq<char>, port: u16)
    requires
        pk.len() > 0,
        all_hex(pk),
        host.len() > 0,
        host[0] != '[',
    ensures
        spec_from_config_uri(node_uri(pk, host, port)) == Ok::<NodeView, ParseError>(
            NodeView { public_key: pk, adress: host, port },
        ),
{
    let dec = to_decimal(port as nat);
    lemma_to_decimal(port as nat);
    lemma_parse_u16_to_decimal(port);
    let u = node_uri(pk, host, port);
    assert(u.subrange(0, 7) =~= peer_scheme());
    let p = u.subrange(7, u.len() as int);
    assert(p =~= pk + seq!['@'] + host + seq![':'] + dec);
    assert forall|j: int| 0 <= j < pk.len() implies p[j] != '@' by {
        assert(p[j] == pk[j]);
        assert(is_hex_digit(pk[j]));
    }
    lemma_find_first(p, '@', pk.len() as int);
    assert(p.subrange(0, pk.len() as int) =~= pk);
    let ap = p.subrange(pk.len() as int + 1, p.len() as int);
    assert(ap =~= host + seq![':'] + dec);
    assert forall|j: int| host.len() + 1 <= j < ap.len() implies ap[j] != ':' by {
        assert(ap[j] == dec[j - host.len() - 1]);
        assert(is_digit(dec[j - host.len() - 1]));
    }
    lemma_find_last(ap, ':', host.len() as int + 1);
    assert(ap.subrange(0, host.len() as int) =~= host);
    assert(ap.subrange(host.len() as int + 1, ap.len() as int) =~= dec);
}

} // verus!
