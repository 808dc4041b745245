//! ICE candidates as they appear in SDP `a=candidate:` lines: reading the
//! fields of a line, finishing a candidate once its host name has been looked
//! up, collecting the candidates that name an IP address, and picking out the
//! lines whose host name still needs a lookup.

use vstd::prelude::*;

use crate::decimal::{parse_u16, parse_u16_spec, parse_u32, parse_u32_spec};
use crate::ipparse::{parse_ip, parse_ip_spec};
use crate::netaddr::{IpAddress, SocketAddress};
use crate::text::{
    chars_of, contains_seq, crlf, join, join_chars, lines_of, split_lines, split_words, starts_with,
    string_of, sub_vec, trim, trim_chars, vec_contains, vec_eq, vec_starts_with, words,
};

verus! {

/// The transport of a candidate.
#[derive(Clone, Copy, Debug, PartialEq, Eq, Structural)]
pub enum TransportProtocol {
    Udp,
    Tcp,
    SslTcp,
    Tls,
}

/// The type of a candidate.
#[derive(Clone, Copy, Debug, PartialEq, Eq, Structural)]
pub enum CandidateKind {
    Host,
    ServerReflexive,
    PeerReflexive,
    Relayed,
}

/// The TCP role of a TCP candidate.
#[derive(Clone, Copy, Debug, PartialEq, Eq, Structural)]
pub enum TcpType {
    Active,
    Passive,
    So,
}

/// Whether `w` is `lower` up to ASCII case (`lower` written in lower case).
pub open spec fn ascii_ci_eq(w: Seq<char>, lower: Seq<char>) -> bool {
    &&& w.len() == lower.len()
    &&& forall|i: int|
        0 <= i < w.len() ==> (#[trigger] w[i] == lower[i] || ('a' <= lower[i] <= 'z' && w[i] as u32
            + 32 == lower[i] as u32))
}

/// The transport a candidate line names, in any case.
pub open spec fn protocol_of(w: Seq<char>) -> Option<TransportProtocol> {
    if ascii_ci_eq(w, "udp"@) {
        Some(TransportProtocol::Udp)
    } else if ascii_ci_eq(w, "tcp"@) {
        Some(TransportProtocol::Tcp)
    } else if ascii_ci_eq(w, "ssltcp"@) {
        Some(TransportProtocol::SslTcp)
    } else if ascii_ci_eq(w, "tls"@) {
        Some(TransportProtocol::Tls)
    } else {
        None
    }
}

/// The candidate type a `typ` value names.
pub open spec fn kind_of(w: Seq<char>) -> Option<CandidateKind> {
    if w == "host"@ {
        Some(CandidateKind::Host)
    } else if w == "srflx"@ {
        Some(CandidateKind::ServerReflexive)
    } else if w == "prflx"@ {
        Some(CandidateKind::PeerReflexive)
    } else if w == "relay"@ {
        Some(CandidateKind::Relayed)
    } else {
        None
    }
}

/// The TCP role a `tcptype` value names.
pub open spec fn tcptype_of(w: Seq<char>) -> Option<TcpType> {
    if w == "active"@ {
        Some(TcpType::Active)
    } else if w == "passive"@ {
        Some(TcpType::Passive)
    } else if w == "so"@ {
        Some(TcpType::So)
    } else {
        None
    }
}

/// `s` without the prefix `p`, where it begins with it.
pub open spec fn strip_prefix_once(s: Seq<char>, p: Seq<char>) -> Seq<char> {
    if starts_with(s, p) {
        s.skip(p.len() as int)
    } else {
        s
    }
}

/// The socket address of `ip` and `port`; an IPv6 one has no flow label or
/// scope.
pub open spec fn socket_of(ip: IpAddress, port: u16) -> SocketAddress {
    match ip {
        IpAddress::V4(..) => SocketAddress::V4 { ip, port },
        IpAddress::V6(..) => SocketAddress::V6 { ip, port, flowinfo: 0, scope_id: 0 },
    }
}

/// A candidate.
#[derive(Clone, Debug)]
pub struct RemoteCandidate {
    pub foundation: String,
    pub component_id: u16,
    pub protocol: TransportProtocol,
    pub priority: u32,
    pub addr: SocketAddress,
    pub kind: CandidateKind,
    pub raddr: Option<SocketAddress>,
    pub tcptype: Option<TcpType>,
    pub ufrag: Option<String>,
}

/// A candidate, with its texts as characters.
pub struct CandidateView {
    pub foundation: Seq<char>,
    pub component_id: u16,
    pub protocol: TransportProtocol,
    pub priority: u32,
    pub addr: SocketAddress,
    pub kind: CandidateKind,
    pub raddr: Option<SocketAddress>,
    pub tcptype: Option<TcpType>,
    pub ufrag: Option<Seq<char>>,
}

impl View for RemoteCandidate {
    type V = CandidateView;

    open spec fn view(&self) -> CandidateView {
        CandidateView {
            foundation: self.foundation@,
            component_id: self.component_id,
            protocol: self.protocol,
            priority: self.priority,
            addr: self.addr,
            kind: self.kind,
            raddr: self.raddr,
            tcptype: self.tcptype,
            ufrag: match self.ufrag {
                Some(u) => Some(u@),
                None => None,
            },
        }
    }
}

/// Why a candidate line was refused.
#[derive(Clone, Debug)]
pub enum CandidateError {
    /// Fewer than six fields.
    Malformed,
    /// The component id is not a `u16`.
    BadComponentId,
    /// The transport is none of udp, tcp, ssltcp, tls.
    InvalidProtocol(String),
    /// The priority is not a `u32`.
    BadPriority,
    /// The port is not a `u16`.
    BadPort,
    /// The seventh field, if any, is not `typ`.
    ExpectedTyp(Option<String>),
    /// Nothing follows `typ`.
    MissingType,
    /// The candidate type is none of host, srflx, prflx, relay.
    UnknownType(String),
    /// A `raddr` value is not an IP address.
    BadRaddr,
    /// An `rport` value is not a `u16`.
    BadRport,
    /// A `tcptype` value is none of active, passive, so.
    UnknownTcpType(String),
}

/// Why a candidate line was refused, with its texts as characters.
pub enum CandidateFault {
    Malformed,
    BadComponentId,
    InvalidProtocol(Seq<char>),
    BadPriority,
    BadPort,
    ExpectedTyp(Option<Seq<char>>),
    MissingType,
    UnknownType(Seq<char>),
    BadRaddr,
    BadRport,
    UnknownTcpType(Seq<char>),
}

impl View for CandidateError {
    type V = CandidateFault;

    open spec fn view(&self) -> CandidateFault {
        match self {
            CandidateError::Malformed => CandidateFault::Malformed,
            CandidateError::BadComponentId => CandidateFault::BadComponentId,
            CandidateError::InvalidProtocol(p) => CandidateFault::InvalidProtocol(p@),
            CandidateError::BadPriority => CandidateFault::BadPriority,
            CandidateError::BadPort => CandidateFault::BadPort,
            CandidateError::ExpectedTyp(t) => CandidateFault::ExpectedTyp(
                match t {
                    Some(s) => Some(s@),
                    None => None,
                },
            ),
            CandidateError::MissingType => CandidateFault::MissingType,
            CandidateError::UnknownType(t) => CandidateFault::UnknownType(t@),
            CandidateError::BadRaddr => CandidateFault::BadRaddr,
            CandidateError::BadRport => CandidateFault::BadRport,
            CandidateError::UnknownTcpType(t) => CandidateFault::UnknownTcpType(t@),
        }
    }
}

/// The fields of a candidate line: the line trimmed, without one leading
/// `a=candidate:`, split at white space.
pub open spec fn candidate_words(line: Seq<char>) -> Seq<Seq<char>> {
    words(strip_prefix_once(trim(line), "a=candidate:"@))
}

/// What is wrong with the fields before the address is looked up, if
/// anything.
pub open spec fn head_fault(ws: Seq<Seq<char>>) -> Option<CandidateFault> {
    if ws.len() < 6 {
        Some(CandidateFault::Malformed)
    } else if parse_u16_spec(ws[1]) is None {
        Some(CandidateFault::BadComponentId)
    } else if protocol_of(ws[2]) is None {
        Some(CandidateFault::InvalidProtocol(ws[2]))
    } else if parse_u32_spec(ws[3]) is None {
        Some(CandidateFault::BadPriority)
    } else if parse_u16_spec(ws[5]) is None {
        Some(CandidateFault::BadPort)
    } else {
        None
    }
}

/// The `raddr`, `rport`, `tcptype` and `ufrag` extensions of a candidate.
pub struct Extensions {
    pub raddr: Option<IpAddress>,
    pub rport: Option<u16>,
    pub tcptype: Option<Seq<char>>,
    pub ufrag: Option<Seq<char>>,
}

/// Reads the extensions from field `i` on, into `acc`. A key is followed by
/// its value; a key at the very end is ignored, as is any other field; a
/// later value of a key replaces an earlier one.
pub open spec fn scan_extensions(ws: Seq<Seq<char>>, i: int, acc: Extensions) -> Result<
    Extensions,
    CandidateFault,
>
    decreases ws.len() - i,
{
    if i < 0 || i >= ws.len() {
        Ok(acc)
    } else if ws[i] == "raddr"@ {
        if i + 1 < ws.len() {
            match parse_ip_spec(ws[i + 1]) {
                Some(ip) => scan_extensions(
                    ws,
                    i + 2,
                    Extensions { raddr: Some(ip), rport: acc.rport, tcptype: acc.tcptype, ufrag: acc.ufrag },
                ),
                None => Err(CandidateFault::BadRaddr),
            }
        } else {
            Ok(acc)
        }
    } else if ws[i] == "rport"@ {
        if i + 1 < ws.len() {
            match parse_u16_spec(ws[i + 1]) {
                Some(p) => scan_extensions(
                    ws,
                    i + 2,
                    Extensions { raddr: acc.raddr, rport: Some(p), tcptype: acc.tcptype, ufrag: acc.ufrag },
                ),
                None => Err(CandidateFault::BadRport),
            }
        } else {
            Ok(acc)
        }
    } else if ws[i] == "tcptype"@ {
        if i + 1 < ws.len() {
            scan_extensions(
                ws,
                i + 2,
                Extensions { raddr: acc.raddr, rport: acc.rport, tcptype: Some(ws[i + 1]), ufrag: acc.ufrag },
            )
        } else {
            Ok(acc)
        }
    } else if ws[i] == "ufrag"@ {
        if i + 1 < ws.len() {
            scan_extensions(
                ws,
                i + 2,
                Extensions { raddr: acc.raddr, rport: acc.rport, tcptype: acc.tcptype, ufrag: Some(ws[i + 1]) },
            )
        } else {
            Ok(acc)
        }
    } else {
        scan_extensions(ws, i + 1, acc)
    }
}

/// No extensions.
pub open spec fn no_extensions() -> Extensions {
    Extensions { raddr: None, rport: None, tcptype: None, ufrag: None }
}

/// The related address of a candidate: there is one only where both
/// `raddr` and `rport` were given.
pub open spec fn related_of(raddr: Option<IpAddress>, rport: Option<u16>) -> Option<SocketAddress> {
    match (raddr, rport) {
        (Some(ip), Some(p)) => Some(socket_of(ip, p)),
        _ => None,
    }
}

/// The candidate of the fields `ws` (whose head is sound) whose address was
/// looked up as `addr`, or why the rest of the line is refused.
pub open spec fn finish_spec(ws: Seq<Seq<char>>, addr: SocketAddress) -> Result<
    CandidateView,
    CandidateFault,
> {
    if ws.len() <= 6 || ws[6] != "typ"@ {
        Err(
            CandidateFault::ExpectedTyp(
                if ws.len() > 6 {
                    Some(ws[6])
                } else {
                    None
                },
            ),
        )
    } else if ws.len() <= 7 {
        Err(CandidateFault::MissingType)
    } else {
        match kind_of(ws[7]) {
            None => Err(CandidateFault::UnknownType(ws[7])),
            Some(kind) => match scan_extensions(ws, 8, no_extensions()) {
                Err(f) => Err(f),
                Ok(ext) => {
                    let bad_tcptype = match ext.tcptype {
                        Some(t) => tcptype_of(t) is None,
                        None => false,
                    };
                    if bad_tcptype {
                        Err(CandidateFault::UnknownTcpType(ext.tcptype.unwrap()))
                    } else {
                        Ok(
                            CandidateView {
                                foundation: ws[0],
                                component_id: parse_u16_spec(ws[1]).unwrap(),
                                protocol: protocol_of(ws[2]).unwrap(),
                                priority: parse_u32_spec(ws[3]).unwrap(),
                                addr,
                                kind,
                                raddr: related_of(ext.raddr, ext.rport),
                                tcptype: match ext.tcptype {
                                    Some(t) => tcptype_of(t),
                                    None => None,
                                },
                                ufrag: ext.ufrag,
                            },
                        )
                    }
                },
            },
        }
    }
}

/// The views of a sequence of character vectors.
pub open spec fn views_of_words(v: Seq<Vec<char>>) -> Seq<Seq<char>> {
    v.map_values(|w: Vec<char>| w@)
}

/// The fields of a candidate line that are read before its host name is
/// looked up.
pub struct CandidateHead {
    pub foundation: String,
    pub component_id: u16,
    pub protocol: TransportProtocol,
    pub priority: u32,
    pub host: String,
    pub port: u16,
    pub fields: Vec<Vec<char>>,
}

fn ci_eq(w: &Vec<char>, lower: &str) -> (r: bool)
    ensures
        r == ascii_ci_eq(w@, lower@),
{
    let l = chars_of(lower);
    if w.len() != l.len() {
        return false;
    }
    let mut i: usize = 0;
    while i < w.len()
        invariant
            w@.len() == l@.len(),
            l@ == lower@,
            i <= w@.len(),
            forall|j: int|
                0 <= j < i ==> (#[trigger] w@[j] == l@[j] || ('a' <= l@[j] <= 'z' && w@[j] as u32
                    + 32 == l@[j] as u32)),
        decreases w@.len() - i,
    {
        let c = w[i];
        let d = l[i];
        if !(c == d || ('a' <= d && d <= 'z' && (c as u32) == (d as u32) - 32)) {
            return false;
        }
        i += 1;
    }
    true
}

fn word_is(w: &Vec<char>, lit: &str) -> (r: bool)
    ensures
        r == (w@ == lit@),
{
    let l = chars_of(lit);
    vec_eq(w, &l)
}

fn protocol_from(w: &Vec<char>) -> (r: Option<TransportProtocol>)
    ensures
        r == protocol_of(w@),
{
    if ci_eq(w, "udp") {
        Some(TransportProtocol::Udp)
    } else if ci_eq(w, "tcp") {
        Some(TransportProtocol::Tcp)
    } else if ci_eq(w, "ssltcp") {
        Some(TransportProtocol::SslTcp)
    } else if ci_eq(w, "tls") {
        Some(TransportProtocol::Tls)
    } else {
        None
    }
}

fn kind_from(w: &Vec<char>) -> (r: Option<CandidateKind>)
    ensures
        r == kind_of(w@),
{
    if word_is(w, "host") {
        Some(CandidateKind::Host)
    } else if word_is(w, "srflx") {
        Some(CandidateKind::ServerReflexive)
    } else if word_is(w, "prflx") {
        Some(CandidateKind::PeerReflexive)
    } else if word_is(w, "relay") {
        Some(CandidateKind::Relayed)
    } else {
        None
    }
}

fn tcptype_from(w: &Vec<char>) -> (r: Option<TcpType>)
    ensures
        r == tcptype_of(w@),
{
    if word_is(w, "active") {
        Some(TcpType::Active)
    } else if word_is(w, "passive") {
        Some(TcpType::Passive)
    } else if word_is(w, "so") {
        Some(TcpType::So)
    } else {
        None
    }
}

fn strip_prefix_chars(v: &Vec<char>, p: &str) -> (r: Vec<char>)
    ensures
        r@ == strip_prefix_once(v@, p@),
{
    let pc = chars_of(p);
    if vec_starts_with(v, &pc) {
        let r = sub_vec(v, pc.len(), v.len());
        assert(r@ =~= v@.skip(p@.len() as int));
        r
    } else {
        sub_vec_all(v)
    }
}

fn sub_vec_all(v: &Vec<char>) -> (r: Vec<char>)
    ensures
        r@ == v@,
{
    let r = sub_vec(v, 0, v.len());
    assert(r@ =~= v@);
    r
}

/// Reads the fields of a candidate line that come before the address lookup:
/// foundation, component id, transport, priority, host and port.
pub fn parse_candidate_head(line: &str) -> (r: Result<CandidateHead, CandidateError>)
    ensures
        match r {
            Ok(h) => {
                let ws = candidate_words(line@);
                &&& head_fault(ws) is None
                &&& views_of_words(h.fields@) == ws
                &&& h.foundation@ == ws[0]
                &&& Some(h.component_id) == parse_u16_spec(ws[1])
                &&& Some(h.protocol) == protocol_of(ws[2])
                &&& Some(h.priority) == parse_u32_spec(ws[3])
                &&& h.host@ == ws[4]
                &&& Some(h.port) == parse_u16_spec(ws[5])
            },
            Err(e) => head_fault(candidate_words(line@)) == Some(e@),
        },
{
    let chars = chars_of(line);
    let trimmed = trim_chars(&chars);
    let body = strip_prefix_chars(&trimmed, "a=candidate:");
    let fields = split_words(&body);
    let ghost ws = candidate_words(line@);
    assert(views_of_words(fields@) =~= ws);
    if fields.len() < 6 {
        return Err(CandidateError::Malformed);
    }
    assert(fields@[1]@ == ws[1] && fields@[2]@ == ws[2] && fields@[3]@ == ws[3]);
    assert(fields@[0]@ == ws[0] && fields@[4]@ == ws[4] && fields@[5]@ == ws[5]);
    let component_id = match parse_u16(&fields[1]) {
        Some(c) => c,
        None => return Err(CandidateError::BadComponentId),
    };
    let protocol = match protocol_from(&fields[2]) {
        Some(p) => p,
        None => return Err(CandidateError::InvalidProtocol(string_of(&fields[2]))),
    };
    let priority = match parse_u32(&fields[3]) {
        Some(p) => p,
        None => return Err(CandidateError::BadPriority),
    };
    let port = match parse_u16(&fields[5]) {
        Some(p) => p,
        None => return Err(CandidateError::BadPort),
    };
    let foundation = string_of(&fields[0]);
    let host = string_of(&fields[4]);
    Ok(CandidateHead { foundation, component_id, protocol, priority, host, port, fields })
}

/// Whether `h` holds what `parse_candidate_head` reads from its fields.
pub open spec fn head_matches(h: CandidateHead) -> bool {
    let ws = views_of_words(h.fields@);
    &&& head_fault(ws) is None
    &&& h.foundation@ == ws[0]
    &&& Some(h.component_id) == parse_u16_spec(ws[1])
    &&& Some(h.protocol) == protocol_of(ws[2])
    &&& Some(h.priority) == parse_u32_spec(ws[3])
    &&& h.host@ == ws[4]
    &&& Some(h.port) == parse_u16_spec(ws[5])
}

/// The socket address of `ip` and `port`.
pub fn socket_from(ip: IpAddress, port: u16) -> (r: SocketAddress)
    ensures
        r == socket_of(ip, port),
{
    match ip {
        IpAddress::V4(..) => SocketAddress::V4 { ip, port },
        IpAddress::V6(..) => SocketAddress::V6 { ip, port, flowinfo: 0, scope_id: 0 },
    }
}

/// The word at position `o` of `ws`, if there is a position.
pub open spec fn word_at(ws: Seq<Seq<char>>, o: Option<usize>) -> Option<Seq<char>> {
    match o {
        Some(j) => Some(ws[j as int]),
        None => None,
    }
}

/// The extensions found in fields 8 and after: `raddr`, `rport`, and the
/// positions of the `tcptype` and `ufrag` values.
fn read_extensions(f: &Vec<Vec<char>>) -> (r: Result<
    (Option<IpAddress>, Option<u16>, Option<usize>, Option<usize>),
    CandidateError,
>)
    ensures
        match r {
            Ok((raddr, rport, tcptype_at, ufrag_at)) => {
                &&& tcptype_at matches Some(j) ==> j < f@.len()
                &&& ufrag_at matches Some(j) ==> j < f@.len()
                &&& scan_extensions(views_of_words(f@), 8, no_extensions()) == Ok::<
                    Extensions,
                    CandidateFault,
                >(
                    Extensions {
                        raddr,
                        rport,
                        tcptype: word_at(views_of_words(f@), tcptype_at),
                        ufrag: word_at(views_of_words(f@), ufrag_at),
                    },
                )
            },
            Err(e) => scan_extensions(views_of_words(f@), 8, no_extensions()) == Err::<
                Extensions,
                CandidateFault,
            >(e@),
        },
{
    let ghost ws = views_of_words(f@);
    let n = f.len();
    if n <= 8 {
        return Ok((None, None, None, None));
    }
    let mut raddr: Option<IpAddress> = None;
    let mut rport: Option<u16> = None;
    let mut tcptype_at: Option<usize> = None;
    let mut ufrag_at: Option<usize> = None;
    let mut i: usize = 8;
    while i < n
        invariant
            n == f@.len(),
            ws == views_of_words(f@),
            ws.len() == n,
            8 <= i <= n,
            tcptype_at matches Some(j) ==> j < n,
            ufrag_at matches Some(j) ==> j < n,
            scan_extensions(ws, 8, no_extensions()) == scan_extensions(
                ws,
                i as int,
                Extensions { raddr, rport, tcptype: word_at(ws, tcptype_at), ufrag: word_at(ws, ufrag_at) },
            ),
        decreases n - i,
    {
        assert(ws[i as int] == f@[i as int]@);
        if word_is(&f[i], "raddr") {
            if i + 1 < n {
                assert(ws[i + 1] == f@[i + 1]@);
                match parse_ip(&f[i + 1]) {
                    Some(ip) => {
                        raddr = Some(ip);
                        i = i + 2;
                    },
                    None => return Err(CandidateError::BadRaddr),
                }
            } else {
                i = n;
            }
        } else if word_is(&f[i], "rport") {
            if i + 1 < n {
                assert(ws[i + 1] == f@[i + 1]@);
                match parse_u16(&f[i + 1]) {
                    Some(p) => {
                        rport = Some(p);
                        i = i + 2;
                    },
                    None => return Err(CandidateError::BadRport),
                }
            } else {
                i = n;
            }
        } else if word_is(&f[i], "tcptype") {
            if i + 1 < n {
                tcptype_at = Some(i + 1);
                i = i + 2;
            } else {
                i = n;
            }
        } else if word_is(&f[i], "ufrag") {
            if i + 1 < n {
                ufrag_at = Some(i + 1);
                i = i + 2;
            } else {
                i = n;
            }
        } else {
            i = i + 1;
        }
    }
    Ok((raddr, rport, tcptype_at, ufrag_at))
}

/// Finishes the candidate whose head is `head` and whose host name was
/// looked up as `addr`: reads `typ` and the candidate type, then the
/// extensions.
pub fn complete_candidate(head: &CandidateHead, addr: SocketAddress) -> (r: Result<RemoteCandidate, CandidateError>)
    requires
        head_matches(*head),
    ensures
        match r {
            Ok(c) => finish_spec(views_of_words(head.fields@), addr) == Ok::<CandidateView, CandidateFault>(c@),
            Err(e) => finish_spec(views_of_words(head.fields@), addr) == Err::<CandidateView, CandidateFault>(e@),
        },
{
    let f = &head.fields;
    let ghost ws = views_of_words(f@);
    let n = f.len();
    assert(ws.len() == n);
    if n <= 6 || !word_is(&f[6], "typ") {
        if n > 6 {
            assert(ws[6] == f@[6]@);
            return Err(CandidateError::ExpectedTyp(Some(string_of(&f[6]))));
        }
        return Err(CandidateError::ExpectedTyp(None));
    }
    assert(ws[6] == f@[6]@);
    if n <= 7 {
        return Err(CandidateError::MissingType);
    }
    assert(ws[7] == f@[7]@);
    let kind = match kind_from(&f[7]) {
        Some(k) => k,
        None => return Err(CandidateError::UnknownType(string_of(&f[7]))),
    };
    let (raddr, rport, tcptype_at, ufrag_at) = match read_extensions(f) {
        Ok(e) => e,
        Err(e) => return Err(e),
    };
    let tcptype = match tcptype_at {
        Some(j) => {
            assert(ws[j as int] == f@[j as int]@);
            match tcptype_from(&f[j]) {
                Some(t) => Some(t),
                None => return Err(CandidateError::UnknownTcpType(string_of(&f[j]))),
            }
        },
        None => None,
    };
    let ufrag = match ufrag_at {
        Some(j) => {
            assert(ws[j as int] == f@[j as int]@);
            Some(string_of(&f[j]))
        },
        None => None,
    };
    let related = match (raddr, rport) {
        (Some(ip), Some(p)) => Some(socket_from(ip, p)),
        _ => None,
    };
    assert(ws[0] == f@[0]@);
    let c = RemoteCandidate {
        foundation: string_of(&f[0]),
        component_id: head.component_id,
        protocol: head.protocol,
        priority: head.priority,
        addr,
        kind,
        raddr: related,
        tcptype,
        ufrag,
    };
    Ok(c)
}

/// Reads `raddr` and `rport` values from field `i` on, the lenient way of the
/// IP-based reading: each field but the last is taken as a key with the next
/// as its value, and a value that does not parse is passed over.
pub open spec fn scan_related(ws: Seq<Seq<char>>, i: int, raddr: Option<IpAddress>, rport: Option<u16>) -> (
    Option<IpAddress>,
    Option<u16>,
)
    decreases ws.len() - i,
{
    if i < 0 || i + 1 >= ws.len() {
        (raddr, rport)
    } else if ws[i] == "raddr"@ {
        scan_related(
            ws,
            i + 1,
            match parse_ip_spec(ws[i + 1]) {
                Some(a) => Some(a),
                None => raddr,
            },
            rport,
        )
    } else if ws[i] == "rport"@ {
        scan_related(
            ws,
            i + 1,
            raddr,
            match parse_u16_spec(ws[i + 1]) {
                Some(p) => Some(p),
                None => rport,
            },
        )
    } else {
        scan_related(ws, i + 1, raddr, rport)
    }
}

/// Where the candidate type is read: after `typ` if field 6 is `typ`, else
/// at field 6.
pub open spec fn kind_index(ws: Seq<Seq<char>>) -> int {
    if ws.len() > 6 && ws[6] == "typ"@ {
        7
    } else {
        6
    }
}

/// The candidate type at field `k`; a host candidate where there is none or
/// it is unknown.
pub open spec fn kind_or_host(ws: Seq<Seq<char>>, k: int) -> CandidateKind {
    if 0 <= k < ws.len() {
        match kind_of(ws[k]) {
            Some(x) => x,
            None => CandidateKind::Host,
        }
    } else {
        CandidateKind::Host
    }
}

/// The candidate an SDP line announces where its address is an IP address
/// and, when only relays are used, it is a relay candidate. Fields that do
/// not parse get defaults: component 1, UDP, priority 0.
pub open spec fn ip_candidate_spec(line: Seq<char>, relay_only: bool) -> Option<CandidateView> {
    let t = trim(line);
    let ws = words(t);
    if !starts_with(t, "a=candidate:"@) || ws.len() < 6 {
        None
    } else {
        match (parse_u16_spec(ws[5]), parse_ip_spec(ws[4])) {
            (Some(port), Some(ip)) => {
                let k = kind_index(ws);
                let kind = kind_or_host(ws, k);
                if relay_only && kind != CandidateKind::Relayed {
                    None
                } else {
                    let related = scan_related(ws, k + 1, None, None);
                    Some(
                        CandidateView {
                            foundation: strip_prefix_once(ws[0], "a=candidate:"@),
                            component_id: match parse_u16_spec(ws[1]) {
                                Some(c) => c,
                                None => 1,
                            },
                            protocol: match protocol_of(ws[2]) {
                                Some(p) => p,
                                None => TransportProtocol::Udp,
                            },
                            priority: match parse_u32_spec(ws[3]) {
                                Some(p) => p,
                                None => 0,
                            },
                            addr: socket_of(ip, port),
                            kind,
                            raddr: related_of(related.0, related.1),
                            tcptype: None,
                            ufrag: None,
                        },
                    )
                }
            },
            _ => None,
        }
    }
}

/// Whether `c` carries the fields that `line` gives: the line has at least
/// six fields after trimming; the priority is the `u32` of the fourth field
/// (0 where it is none), the component the `u16` of the second (1 where it is
/// none), and the address is the IP address of the fifth field with the port
/// of the sixth.
pub open spec fn line_gives(line: Seq<char>, c: CandidateView) -> bool {
    let ws = words(trim(line));
    &&& ws.len() >= 6
    &&& c.priority == (match parse_u32_spec(ws[3]) {
        Some(p) => p,
        None => 0u32,
    })
    &&& c.component_id == (match parse_u16_spec(ws[1]) {
        Some(x) => x,
        None => 1u16,
    })
    &&& exists|ip: IpAddress, port: u16|
        parse_ip_spec(ws[4]) == Some(ip) && parse_u16_spec(ws[5]) == Some(port) && #[trigger] c.addr == (
        match ip {
            IpAddress::V4(..) => SocketAddress::V4 { ip, port },
            IpAddress::V6(..) => SocketAddress::V6 { ip, port, flowinfo: 0, scope_id: 0 },
        })
}

/// A candidate read from a line carries the fields that line gives (see
/// `line_gives`): its priority is the fourth field's number, whatever its
/// other fields hold.
pub proof fn lemma_candidate_fields_from_line(line: Seq<char>, relay_only: bool)
    ensures
        ip_candidate_spec(line, relay_only) matches Some(c) ==> line_gives(line, c),
{
    let ws = words(trim(line));
    if let Some(c) = ip_candidate_spec(line, relay_only) {
        let ip = parse_ip_spec(ws[4]).unwrap();
        let port = parse_u16_spec(ws[5]).unwrap();
        assert(c.addr == (match ip {
            IpAddress::V4(..) => SocketAddress::V4 { ip, port },
            IpAddress::V6(..) => SocketAddress::V6 { ip, port, flowinfo: 0, scope_id: 0 },
        }));
    }
}

/// Every candidate read from an SDP comes from one of its lines and carries
/// the fields that line gives (see `line_gives`).
pub proof fn lemma_candidates_come_from_lines(lines: Seq<Seq<char>>, relay_only: bool)
    ensures
        forall|i: int|
            0 <= i < ip_candidates_spec(lines, relay_only).len() ==> exists|j: int|
                0 <= j < lines.len() && line_gives(lines[j], #[trigger] ip_candidates_spec(lines, relay_only)[i]),
    decreases lines.len(),
{
    if lines.len() > 0 {
        let prev = lines.drop_last();
        lemma_candidates_come_from_lines(prev, relay_only);
        lemma_candidate_fields_from_line(lines.last(), relay_only);
        let rest = ip_candidates_spec(prev, relay_only);
        let all = ip_candidates_spec(lines, relay_only);
        assert forall|i: int| 0 <= i < all.len() implies exists|j: int|
            0 <= j < lines.len() && line_gives(lines[j], #[trigger] all[i]) by {
            if i < rest.len() {
                assert(all[i] == rest[i]);
                let j = choose|j: int| 0 <= j < prev.len() && line_gives(prev[j], rest[i]);
                assert(lines[j] == prev[j]);
            } else {
                assert(all[i] == ip_candidate_spec(lines.last(), relay_only).unwrap());
                assert(lines[lines.len() - 1] == lines.last());
            }
        }
    }
}

/// The candidates announced by `lines` with an IP address, in order.
pub open spec fn ip_candidates_spec(lines: Seq<Seq<char>>, relay_only: bool) -> Seq<CandidateView>
    decreases lines.len(),
{
    if lines.len() == 0 {
        Seq::empty()
    } else {
        let rest = ip_candidates_spec(lines.drop_last(), relay_only);
        match ip_candidate_spec(lines.last(), relay_only) {
            Some(c) => rest.push(c),
            None => rest,
        }
    }
}

/// The views of a list of candidates.
pub open spec fn candidate_views(v: Seq<RemoteCandidate>) -> Seq<CandidateView> {
    v.map_values(|c: RemoteCandidate| c@)
}

fn related_from(ws: &Vec<Vec<char>>, start: usize) -> (r: (Option<IpAddress>, Option<u16>))
    ensures
        r == scan_related(views_of_words(ws@), start as int, None, None),
{
    let ghost v = views_of_words(ws@);
    let n = ws.len();
    let mut raddr: Option<IpAddress> = None;
    let mut rport: Option<u16> = None;
    let mut i: usize = start;
    while i < n && i + 1 < n
        invariant
            n == ws@.len(),
            v == views_of_words(ws@),
            v.len() == n,
            start <= i,
            scan_related(v, start as int, None, None) == scan_related(v, i as int, raddr, rport),
        decreases n - i,
    {
        assert(v[i as int] == ws@[i as int]@);
        assert(v[i + 1] == ws@[i + 1]@);
        if word_is(&ws[i], "raddr") {
            match parse_ip(&ws[i + 1]) {
                Some(a) => raddr = Some(a),
                None => {},
            }
        } else if word_is(&ws[i], "rport") {
            match parse_u16(&ws[i + 1]) {
                Some(p) => rport = Some(p),
                None => {},
            }
        }
        i += 1;
    }
    (raddr, rport)
}

fn ip_candidate_of(line: &Vec<char>, relay_only: bool) -> (r: Option<RemoteCandidate>)
    ensures
        match r {
            Some(c) => ip_candidate_spec(line@, relay_only) == Some(c@),
            None => ip_candidate_spec(line@, relay_only) is None,
        },
{
    let t = trim_chars(line);
    let prefix = chars_of("a=candidate:");
    if !vec_starts_with(&t, &prefix) {
        return None;
    }
    let ws = split_words(&t);
    let ghost v = words(t@);
    assert(views_of_words(ws@) =~= v);
    if ws.len() < 6 {
        return None;
    }
    assert(v[5] == ws@[5]@ && v[4] == ws@[4]@ && v[0] == ws@[0]@);
    assert(v[1] == ws@[1]@ && v[2] == ws@[2]@ && v[3] == ws@[3]@);
    let port = match parse_u16(&ws[5]) {
        Some(p) => p,
        None => return None,
    };
    let ip = match parse_ip(&ws[4]) {
        Some(a) => a,
        None => return None,
    };
    let foundation = strip_prefix_chars(&ws[0], "a=candidate:");
    let component_id = match parse_u16(&ws[1]) {
        Some(c) => c,
        None => 1,
    };
    let protocol = match protocol_from(&ws[2]) {
        Some(p) => p,
        None => TransportProtocol::Udp,
    };
    let priority = match parse_u32(&ws[3]) {
        Some(p) => p,
        None => 0,
    };
    let k: usize = if ws.len() > 6 && word_is(&ws[6], "typ") {
        7
    } else {
        6
    };
    proof {
        if ws@.len() > 6 {
            assert(v[6] == ws@[6]@);
        }
    }
    let kind = if k < ws.len() {
        assert(v[k as int] == ws@[k as int]@);
        match kind_from(&ws[k]) {
            Some(x) => x,
            None => CandidateKind::Host,
        }
    } else {
        CandidateKind::Host
    };
    if relay_only && kind != CandidateKind::Relayed {
        return None;
    }
    let (raddr, rport) = related_from(&ws, k + 1);
    let related = match (raddr, rport) {
        (Some(a), Some(p)) => Some(socket_from(a, p)),
        _ => None,
    };
    Some(
        RemoteCandidate {
            foundation: string_of(&foundation),
            component_id,
            protocol,
            priority,
            addr: socket_from(ip, port),
            kind,
            raddr: related,
            tcptype: None,
            ufrag: None,
        },
    )
}

/// The candidates of `sdp` whose address is an IP address, in the order of
/// their lines; with `relay_only`, the relay candidates among them. These
/// need no lookup.
pub fn parse_ip_based_candidates(sdp: &str, relay_only: bool) -> (r: Vec<RemoteCandidate>)
    ensures
        candidate_views(r@) == ip_candidates_spec(lines_of(sdp@), relay_only),
{
    let chars = chars_of(sdp);
    let lines = split_lines(&chars);
    let ghost ls = lines_of(sdp@);
    let mut r: Vec<RemoteCandidate> = Vec::new();
    let mut i: usize = 0;
    while i < lines.len()
        invariant
            i <= lines@.len(),
            lines@.len() == ls.len(),
            forall|k: int| 0 <= k < lines@.len() ==> #[trigger] lines@[k]@ == ls[k],
            candidate_views(r@) == ip_candidates_spec(ls.take(i as int), relay_only),
        decreases lines@.len() - i,
    {
        let found = ip_candidate_of(&lines[i], relay_only);
        proof {
            let next = ls.take(i as int + 1);
            assert(next.drop_last() =~= ls.take(i as int));
            assert(next.last() == lines@[i as int]@);
        }
        match found {
            Some(c) => {
                let ghost before = candidate_views(r@);
                r.push(c);
                assert(candidate_views(r@) =~= before.push(c@));
            },
            None => {},
        }
        i += 1;
    }
    assert(ls.take(lines@.len() as int) =~= ls);
    r
}

/// The position after which the relay-only check looks for the candidate
/// type: the first `typ` from field `i` on, or the last field.
pub open spec fn typ_search(ws: Seq<Seq<char>>, i: int) -> int
    decreases ws.len() - i,
{
    if 0 <= i && i + 1 < ws.len() && ws[i] != "typ"@ {
        typ_search(ws, i + 1)
    } else {
        i
    }
}

/// Whether an SDP line announces a candidate whose address is a host name
/// (so that it must be looked up) and, with `relay_only`, is of type `relay`.
pub open spec fn needs_lookup(line: Seq<char>, relay_only: bool) -> bool {
    let t = trim(line);
    let ws = words(t);
    &&& starts_with(t, "a=candidate:"@)
    &&& ws.len() > 5
    &&& parse_ip_spec(ws[4]) is None
    &&& relay_only ==> {
        let k = typ_search(ws, 6) + 1;
        0 <= k < ws.len() && ws[k] == "relay"@
    }
}

/// The trimmed lines of `lines` that announce a candidate to be looked up.
pub open spec fn lookup_lines_spec(lines: Seq<Seq<char>>, relay_only: bool) -> Seq<Seq<char>>
    decreases lines.len(),
{
    if lines.len() == 0 {
        Seq::empty()
    } else {
        let rest = lookup_lines_spec(lines.drop_last(), relay_only);
        if needs_lookup(lines.last(), relay_only) {
            rest.push(trim(lines.last()))
        } else {
            rest
        }
    }
}

/// The views of a list of strings.
pub open spec fn string_views(v: Seq<String>) -> Seq<Seq<char>> {
    v.map_values(|s: String| s@)
}

fn needs_lookup_exec(line: &Vec<char>, relay_only: bool) -> (r: bool)
    ensures
        r == needs_lookup(line@, relay_only),
{
    let t = trim_chars(line);
    let prefix = chars_of("a=candidate:");
    if !vec_starts_with(&t, &prefix) {
        return false;
    }
    let ws = split_words(&t);
    let ghost v = words(t@);
    assert(views_of_words(ws@) =~= v);
    if ws.len() <= 5 {
        return false;
    }
    assert(v[4] == ws@[4]@);
    if parse_ip(&ws[4]).is_some() {
        return false;
    }
    if !relay_only {
        return true;
    }
    let n = ws.len();
    let mut i: usize = 6;
    while i < n - 1 && !word_is(&ws[i], "typ")
        invariant
            n == ws@.len(),
            n > 5,
            v == views_of_words(ws@),
            v.len() == n,
            6 <= i <= n,
            typ_search(v, 6) == typ_search(v, i as int),
        decreases n - i,
    {
        assert(v[i as int] == ws@[i as int]@);
        i += 1;
    }
    proof {
        if i + 1 < n {
            assert(v[i as int] == ws@[i as int]@);
        }
    }
    if i < n - 1 {
        let k = i + 1;
        assert(v[k as int] == ws@[k as int]@);
        word_is(&ws[k], "relay")
    } else {
        false
    }
}

/// The candidate lines of `sdp` that name a host rather than an IP address,
/// trimmed, in order; with `relay_only`, only those of type `relay`. Each is
/// to be looked up and then finished with `complete_candidate`.
pub fn hostname_candidate_lines(sdp: &str, relay_only: bool) -> (r: Vec<String>)
    ensures
        string_views(r@) == lookup_lines_spec(lines_of(sdp@), relay_only),
{
    let chars = chars_of(sdp);
    let lines = split_lines(&chars);
    let ghost ls = lines_of(sdp@);
    let mut r: Vec<String> = Vec::new();
    let mut i: usize = 0;
    while i < lines.len()
        invariant
            i <= lines@.len(),
            lines@.len() == ls.len(),
            forall|k: int| 0 <= k < lines@.len() ==> #[trigger] lines@[k]@ == ls[k],
            string_views(r@) == lookup_lines_spec(ls.take(i as int), relay_only),
        decreases lines@.len() - i,
    {
        proof {
            let next = ls.take(i as int + 1);
            assert(next.drop_last() =~= ls.take(i as int));
            assert(next.last() == lines@[i as int]@);
        }
        if needs_lookup_exec(&lines[i], relay_only) {
            let t = trim_chars(&lines[i]);
            let ghost before = string_views(r@);
            r.push(string_of(&t));
            assert(string_views(r@) =~= before.push(t@));
        }
        i += 1;
    }
    assert(ls.take(lines@.len() as int) =~= ls);
    r
}

/// Whether an SDP line mentions `candidate:` and its fifth field is a host
/// name rather than an IP address.
pub open spec fn unresolved_host(line: Seq<char>) -> bool {
    &&& contains_seq(line, "candidate:"@)
    &&& words(line).len() > 5
    &&& parse_ip_spec(words(line)[4]) is None
}

/// The lookups `lines` need: the position of each line with a host name, the
/// host name and the port field, in order.
pub open spec fn lookups_spec(lines: Seq<Seq<char>>) -> Seq<(int, Seq<char>, Seq<char>)>
    decreases lines.len(),
{
    if lines.len() == 0 {
        Seq::empty()
    } else {
        let rest = lookups_spec(lines.drop_last());
        let l = lines.last();
        if unresolved_host(l) {
            rest.push(((lines.len() - 1) as int, words(l)[4], words(l)[5]))
        } else {
            rest
        }
    }
}

/// The views of a list of lookups.
pub open spec fn lookup_views(v: Seq<(usize, String, String)>) -> Seq<(int, Seq<char>, Seq<char>)> {
    v.map_values(|t: (usize, String, String)| (t.0 as int, t.1@, t.2@))
}

fn unresolved_host_exec(line: &Vec<char>) -> (r: Option<(String, String)>)
    ensures
        match r {
            Some((h, p)) => unresolved_host(line@) && h@ == words(line@)[4] && p@ == words(line@)[5],
            None => !unresolved_host(line@),
        },
{
    let key = chars_of("candidate:");
    if !vec_contains(line, &key) {
        return None;
    }
    let ws = split_words(line);
    let ghost v = words(line@);
    assert(views_of_words(ws@) =~= v);
    if ws.len() <= 5 {
        return None;
    }
    assert(v[4] == ws@[4]@ && v[5] == ws@[5]@);
    if parse_ip(&ws[4]).is_some() {
        return None;
    }
    Some((string_of(&ws[4]), string_of(&ws[5])))
}

/// The host names that the candidate lines of `sdp` need looked up: for each
/// such line its position, the host name and the port field.
pub fn pending_host_lookups(sdp: &str) -> (r: Vec<(usize, String, String)>)
    ensures
        lookup_views(r@) == lookups_spec(lines_of(sdp@)),
{
    let chars = chars_of(sdp);
    let lines = split_lines(&chars);
    let ghost ls = lines_of(sdp@);
    let mut r: Vec<(usize, String, String)> = Vec::new();
    let mut i: usize = 0;
    while i < lines.len()
        invariant
            i <= lines@.len(),
            lines@.len() == ls.len(),
            forall|k: int| 0 <= k < lines@.len() ==> #[trigger] lines@[k]@ == ls[k],
            lookup_views(r@) == lookups_spec(ls.take(i as int)),
        decreases lines@.len() - i,
    {
        proof {
            let next = ls.take(i as int + 1);
            assert(next.drop_last() =~= ls.take(i as int));
            assert(next.last() == lines@[i as int]@);
        }
        match unresolved_host_exec(&lines[i]) {
            Some((h, p)) => {
                let ghost before = lookup_views(r@);
                r.push((i, h, p));
                assert(lookup_views(r@) =~= before.push((i as int, h@, p@)));
            },
            None => {},
        }
        i += 1;
    }
    assert(ls.take(lines@.len() as int) =~= ls);
    r
}

/// The address a lookup gave for line `idx`: the last answer recorded for it.
pub open spec fn resolved_ip(res: Seq<(usize, Seq<char>)>, idx: int) -> Option<Seq<char>>
    decreases res.len(),
{
    if res.len() == 0 {
        None
    } else if res.last().0 == idx {
        Some(res.last().1)
    } else {
        resolved_ip(res.drop_last(), idx)
    }
}

/// Line `idx` of the session description with its host name replaced by the
/// address a lookup gave, its fields then joined by single spaces; a line
/// without a host name or without an answer stays as it is.
pub open spec fn rewritten_line(line: Seq<char>, idx: int, res: Seq<(usize, Seq<char>)>) -> Seq<char> {
    if unresolved_host(line) && resolved_ip(res, idx) is Some {
        join(words(line).update(4, resolved_ip(res, idx).unwrap()), " "@)
    } else {
        line
    }
}

/// The views of a list of lookup answers.
pub open spec fn answer_views(v: Seq<(usize, String)>) -> Seq<(usize, Seq<char>)> {
    v.map_values(|t: (usize, String)| (t.0, t.1@))
}

fn answer_for(res: &Vec<(usize, String)>, idx: usize) -> (r: Option<String>)
    ensures
        match r {
            Some(ip) => resolved_ip(answer_views(res@), idx as int) == Some(ip@),
            None => resolved_ip(answer_views(res@), idx as int) is None,
        },
{
    let ghost a = answer_views(res@);
    let mut j: usize = res.len();
    assert(a.take(j as int) =~= a);
    while j > 0
        invariant
            j <= res@.len(),
            a == answer_views(res@),
            resolved_ip(a, idx as int) == resolved_ip(a.take(j as int), idx as int),
        decreases j,
    {
        proof {
            assert(a.take(j as int).drop_last() =~= a.take(j - 1));
            assert(a.take(j as int).last() == (res@[j - 1].0, res@[j - 1].1@));
        }
        if res[j - 1].0 == idx {
            return Some(res[j - 1].1.clone());
        }
        j -= 1;
    }
    None
}

/// `sdp` with the host names of its candidate lines replaced by the addresses
/// the lookups in `res` gave (the position of the line, then the address),
/// the lines joined with CRLF.
pub fn apply_host_lookups(sdp: &str, res: &Vec<(usize, String)>) -> (r: String)
    ensures
        r@ == join(
            Seq::new(
                lines_of(sdp@).len(),
                |i: int| rewritten_line(lines_of(sdp@)[i], i, answer_views(res@)),
            ),
            crlf(),
        ),
{
    let chars = chars_of(sdp);
    let lines = split_lines(&chars);
    let ghost ls = lines_of(sdp@);
    let ghost a = answer_views(res@);
    let mut out: Vec<Vec<char>> = Vec::new();
    let mut i: usize = 0;
    while i < lines.len()
        invariant
            i <= lines@.len(),
            lines@.len() == ls.len(),
            a == answer_views(res@),
            forall|k: int| 0 <= k < lines@.len() ==> #[trigger] lines@[k]@ == ls[k],
            out@.len() == i,
            forall|k: int| 0 <= k < i ==> #[trigger] out@[k]@ == rewritten_line(ls[k], k, a),
        decreases lines@.len() - i,
    {
        let line = &lines[i];
        let mut replaced: Option<Vec<char>> = None;
        match unresolved_host_exec(line) {
            Some(_) => match answer_for(res, i) {
                Some(ip) => {
                    let mut ws = split_words(line);
                    let ghost v = words(line@);
                    assert(views_of_words(ws@) =~= v);
                    let ipc = chars_of(ip.as_str());
                    ws.set(4, ipc);
                    assert(views_of_words(ws@) =~= v.update(4, ip@));
                    let sep = vec![' '];
                    let joined = join_chars(&ws, &sep);
                    assert(sep@ =~= " "@) by {
                        reveal_strlit(" ");
                    }
                    assert(ws@.map_values(|p: Vec<char>| p@) =~= views_of_words(ws@));
                    replaced = Some(chars_of(joined.as_str()));
                },
                None => {},
            },
            None => {},
        }
        match replaced {
            Some(v) => out.push(v),
            None => out.push(line.clone()),
        }
        i += 1;
    }
    let sep = vec!['\r', '\n'];
    let r = join_chars(&out, &sep);
    assert(sep@ =~= crlf());
    assert(out@.map_values(|p: Vec<char>| p@) =~= Seq::new(
        ls.len(),
        |i: int| rewritten_line(ls[i], i, a),
    ));
    r
}

} // verus!
