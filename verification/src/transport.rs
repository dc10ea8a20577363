//! The length-framed Desktop IPC wire: frame headers, the messages that
//! arrive, which of them the transport answers itself, and the endpoint.

use vstd::prelude::*;
use vstd::string::*;
use crate::text::same_text;

verus! {

/// The largest frame payload, in bytes.
pub const MAX_FRAME_BYTES: usize = 268435456;

/// A Desktop IPC message. `P` is the type of the `params` and `result`
/// payloads, which the transport carries without reading them.
#[derive(Debug)]
pub struct Message<P> {
    pub kind: String,
    pub request_id: Option<String>,
    pub source_client_id: Option<String>,
    pub target_client_ids: Option<Vec<String>>,
    pub version: Option<u64>,
    pub method: Option<String>,
    pub params: Option<P>,
    pub result: Option<P>,
    pub result_type: Option<String>,
    pub error: Option<String>,
}

/// Why a frame cannot be sent or received.
#[derive(Debug, Clone, Copy, PartialEq, Eq, Structural)]
pub enum FrameError {
    /// A payload to send is longer than `MAX_FRAME_BYTES`.
    PayloadTooLarge,
    /// A received header announces more than `MAX_FRAME_BYTES`.
    FrameTooLarge,
}

impl FrameError {
    /// The message reported for this error.
    pub fn message(&self) -> (r: String)
        ensures
            r@ == match *self {
                FrameError::PayloadTooLarge => "Codex Desktop IPC payload is too large."@,
                FrameError::FrameTooLarge => "Codex Desktop IPC frame is too large."@,
            },
    {
        match self {
            FrameError::PayloadTooLarge => String::from_str("Codex Desktop IPC payload is too large."),
            FrameError::FrameTooLarge => String::from_str("Codex Desktop IPC frame is too large."),
        }
    }
}

/// The number that four little-endian bytes encode.
pub open spec fn le_value(b: Seq<u8>) -> nat {
    b[0] as nat + 256 * b[1] as nat + 65536 * b[2] as nat + 16777216 * b[3] as nat
}

/// The four little-endian bytes of `len`, lowest first.
pub open spec fn le_bytes(len: nat) -> Seq<u8> {
    seq![
        (len % 256) as u8,
        ((len / 256) % 256) as u8,
        ((len / 65536) % 256) as u8,
        ((len / 16777216) % 256) as u8,
    ]
}

/// The header that goes before a payload of `len` bytes.
pub open spec fn header_of(len: nat) -> Result<Seq<u8>, FrameError> {
    if len > MAX_FRAME_BYTES {
        Err(FrameError::PayloadTooLarge)
    } else {
        Ok(le_bytes(len))
    }
}

/// The payload length that the header `h` announces.
pub open spec fn length_of(h: Seq<u8>) -> Result<nat, FrameError> {
    if le_value(h) > MAX_FRAME_BYTES {
        Err(FrameError::FrameTooLarge)
    } else {
        Ok(le_value(h))
    }
}

/// The little-endian `u32` header of a payload of `len` bytes.
pub fn frame_header(len: usize) -> (r: Result<[u8; 4], FrameError>)
    ensures
        header_of(len as nat) == match r {
            Ok(b) => Ok::<Seq<u8>, FrameError>(b@),
            Err(e) => Err::<Seq<u8>, FrameError>(e),
        },
{
    if len > MAX_FRAME_BYTES {
        return Err(FrameError::PayloadTooLarge);
    }
    let b0 = (len % 256) as u8;
    let b1 = ((len / 256) % 256) as u8;
    let b2 = ((len / 65536) % 256) as u8;
    let b3 = ((len / 16777216) % 256) as u8;
    let b = [b0, b1, b2, b3];
    assert(b@ =~= le_bytes(len as nat));
    Ok(b)
}

/// The payload length that a received header announces.
pub fn frame_length(header: [u8; 4]) -> (r: Result<usize, FrameError>)
    ensures
        length_of(header@) == match r {
            Ok(n) => Ok::<nat, FrameError>(n as nat),
            Err(e) => Err::<nat, FrameError>(e),
        },
{
    let n: u64 = header[0] as u64 + 256 * (header[1] as u64) + 65536 * (header[2] as u64)
        + 16777216 * (header[3] as u64);
    assert(n == le_value(header@));
    if n > MAX_FRAME_BYTES as u64 {
        return Err(FrameError::FrameTooLarge);
    }
    Ok(n as usize)
}

/// The header written for a payload that fits is read back as the same
/// length: `frame_length` of `frame_header(len)` is `len`.
pub proof fn lemma_frame_round_trip(len: nat)
    requires
        len <= MAX_FRAME_BYTES,
    ensures
        header_of(len) matches Ok(h) && h.len() == 4 && length_of(h) == Ok::<nat, FrameError>(len),
{
    let h = le_bytes(len);
    assert(le_value(h) == len);
}

/// What the transport does with an arriving message.
#[derive(Debug, Clone, Copy, PartialEq, Eq, Structural)]
pub enum Incoming {
    /// A client discovery request: answered that this client cannot
    /// handle it.
    Discovery,
    /// A request addressed to this client: answered with an error.
    Request,
    /// Anything else: handed to the caller.
    Deliver,
}

/// How the transport treats a message of type `kind`.
pub fn incoming(kind: &str) -> (r: Incoming)
    ensures
        kind@ == "client-discovery-request"@ ==> r == Incoming::Discovery,
        kind@ == "request"@ ==> r == Incoming::Request,
        kind@ != "client-discovery-request"@ && kind@ != "request"@ ==> r == Incoming::Deliver,
{
    proof {
        reveal_strlit("request");
        reveal_strlit("client-discovery-request");
        assert("request"@.len() != "client-discovery-request"@.len());
    }
    if same_text(kind, "client-discovery-request") {
        Incoming::Discovery
    } else if same_text(kind, "request") {
        Incoming::Request
    } else {
        Incoming::Deliver
    }
}

/// The UTF-8 bytes of the text `s`.
pub open spec fn utf8(s: &str) -> Seq<u8> {
    vstd::utf8::encode_utf8(s@)
}

/// The path `base` joined with the relative path `rel`, both as raw bytes,
/// as `Path::join` joins a relative path: a `/` goes between them unless
/// `base` is empty or already ends with one.
pub open spec fn joined_path(base: Seq<u8>, rel: Seq<u8>) -> Seq<u8> {
    if base.len() == 0 {
        rel
    } else if base.last() == 47u8 {
        base + rel
    } else {
        base + seq![47u8] + rel
    }
}

/// `out` followed by the bytes of `more`.
pub fn append_bytes(out: &mut Vec<u8>, more: &[u8])
    ensures
        final(out)@ == old(out)@ + more@,
{
    let mut tail = vstd::slice::slice_to_vec(more);
    out.append(&mut tail);
}

/// `base` joined with the relative path `rel`.
pub fn join_path(base: &[u8], rel: &[u8]) -> (r: Vec<u8>)
    ensures
        r@ == joined_path(base@, rel@),
{
    let mut out = vstd::slice::slice_to_vec(base);
    if base.len() > 0 && base[base.len() - 1] != 47u8 {
        out.push(47u8);
    }
    append_bytes(&mut out, rel);
    out
}

/// The Desktop IPC endpoint: `CODEX_APP_IPC_PATH` when set, else
/// `ipc/ipc.sock` under `CODEX_HOME`, else under `$HOME/.codex`, else
/// under `./.codex`.
pub open spec fn endpoint_path(
    ipc_path: Option<Seq<u8>>,
    codex_home: Option<Seq<u8>>,
    home: Option<Seq<u8>>,
) -> Seq<u8> {
    match ipc_path {
        Some(p) => p,
        None => {
            let base = match codex_home {
                Some(h) => h,
                None => joined_path(
                    match home {
                        Some(h) => h,
                        None => seq![46u8],
                    },
                    utf8(".codex"),
                ),
            };
            joined_path(base, utf8("ipc/ipc.sock"))
        },
    }
}

/// The text of an optional string.
pub open spec fn opt_text(o: Option<&str>) -> Option<Seq<char>> {
    match o {
        Some(s) => Some(s@),
        None => None,
    }
}

/// The bytes of an optional byte string.
pub open spec fn opt_bytes(o: Option<&[u8]>) -> Option<Seq<u8>> {
    match o {
        Some(s) => Some(s@),
        None => None,
    }
}

/// The Desktop IPC endpoint for the given environment values, taken as
/// raw bytes.
pub fn endpoint(ipc_path: Option<&[u8]>, codex_home: Option<&[u8]>, home: Option<&[u8]>) -> (r: Vec<u8>)
    ensures
        r@ == endpoint_path(opt_bytes(ipc_path), opt_bytes(codex_home), opt_bytes(home)),
{
    if let Some(p) = ipc_path {
        return vstd::slice::slice_to_vec(p);
    }
    let base = match codex_home {
        Some(h) => vstd::slice::slice_to_vec(h),
        None => {
            let root = match home {
                Some(h) => vstd::slice::slice_to_vec(h),
                None => {
                    let mut d: Vec<u8> = Vec::new();
                    d.push(46u8);
                    assert(d@ =~= seq![46u8]);
                    d
                },
            };
            join_path(root.as_slice(), ".codex".as_bytes())
        },
    };
    join_path(base.as_slice(), "ipc/ipc.sock".as_bytes())
}

/// What the transport learned of the endpoint's directory and socket.
#[derive(Debug, Clone, Copy)]
pub struct EndpointFacts {
    pub dir_is_dir: bool,
    pub dir_uid: u32,
    pub dir_mode: u32,
    pub socket_is_socket: bool,
    pub socket_uid: u32,
    pub uid: u32,
}

/// Whether an endpoint is safe to connect to: a directory that the user
/// owns and that neither group nor others may write, holding a socket that
/// the user owns.
pub open spec fn endpoint_is_secure(f: EndpointFacts) -> bool {
    &&& f.dir_is_dir
    &&& f.dir_uid == f.uid
    &&& f.dir_mode & 0o22u32 == 0
    &&& f.socket_is_socket
    &&& f.socket_uid == f.uid
}

/// Why the endpoint is refused.
#[derive(Debug)]
pub enum EndpointError {
    /// The path has no parent directory.
    NoParent,
    /// The directory or the socket could not be inspected.
    Unavailable(String),
    /// The directory or the socket fails the ownership and mode checks.
    Insecure(String),
}

impl EndpointError {
    /// The message reported for this error.
    pub fn message(&self) -> (r: String)
        ensures
            r@ == match *self {
                EndpointError::NoParent => "Codex Desktop IPC path has no parent directory."@,
                EndpointError::Unavailable(p) => "Codex Desktop IPC is unavailable at "@ + p@
                    + ". Open Codex Desktop and keep the target task visible."@,
                EndpointError::Insecure(p) => "Refusing insecure Codex Desktop IPC endpoint "@ + p@
                    + "."@,
            },
    {
        match self {
            EndpointError::NoParent => String::from_str("Codex Desktop IPC path has no parent directory."),
            EndpointError::Unavailable(p) => {
                let mut m = String::from_str("Codex Desktop IPC is unavailable at ");
                m.append(p.as_str());
                m.append(". Open Codex Desktop and keep the target task visible.");
                m
            },
            EndpointError::Insecure(p) => {
                let mut m = String::from_str("Refusing insecure Codex Desktop IPC endpoint ");
                m.append(p.as_str());
                m.append(".");
                m
            },
        }
    }
}

/// The endpoint check. An endpoint named by `CODEX_APP_IPC_PATH` is
/// trusted as given; otherwise the path needs a parent, both the directory
/// and the socket must be inspectable (`facts`), and they must be secure.
pub fn check_endpoint(
    path: &str,
    overridden: bool,
    has_parent: bool,
    facts: Option<EndpointFacts>,
) -> (r: Result<(), EndpointError>)
    ensures
        overridden ==> r is Ok,
        !overridden && !has_parent ==> r matches Err(EndpointError::NoParent),
        !overridden && has_parent && facts is None ==> (r matches Err(EndpointError::Unavailable(p))
            && p@ == path@),
        !overridden && has_parent && facts is Some ==> if endpoint_is_secure(facts->0) {
            r is Ok
        } else {
            r matches Err(EndpointError::Insecure(p)) && p@ == path@
        },
{
    if overridden {
        return Ok(());
    }
    if !has_parent {
        return Err(EndpointError::NoParent);
    }
    match facts {
        None => Err(EndpointError::Unavailable(String::from_str(path))),
        Some(f) => {
            if !f.dir_is_dir || f.dir_uid != f.uid || f.dir_mode & 0o22u32 != 0 || !f.socket_is_socket
                || f.socket_uid != f.uid {
                Err(EndpointError::Insecure(String::from_str(path)))
            } else {
                Ok(())
            }
        },
    }
}

} // verus!
