//! Addresses of the control interface, and how its line-based wire format
//! treats each line read.
use vstd::prelude::*;
use crate::text::push_decimal;

verus! {

/// Where the control interface listens.
#[derive(Debug, Clone, PartialEq, Eq)]
pub enum IpcAddr {
    /// A Unix domain socket at a path.
    UnixSocket(String),
    Tcp { host: String, port: u16 },
}

impl IpcAddr {
    /// The default local address: `/tmp/around.sock` where Unix sockets
    /// exist, else `127.0.0.1` on a port the system picks.
    pub fn default_local(unix: bool) -> (r: Self)
        ensures
            unix ==> (r matches IpcAddr::UnixSocket(p) && p@ == "/tmp/around.sock"@),
            !unix ==> (r matches IpcAddr::Tcp { host, port } && host@ == "127.0.0.1"@ && port == 0),
    {
        if unix {
            IpcAddr::UnixSocket(String::from_str("/tmp/around.sock"))
        } else {
            IpcAddr::Tcp { host: String::from_str("127.0.0.1"), port: 0 }
        }
    }

    /// The address as shown: the path, or `host:port`.
    pub fn display(&self) -> (r: String)
        ensures
            self matches IpcAddr::UnixSocket(p) ==> r@ == p@,
            self matches IpcAddr::Tcp { host, port } ==> r@ == host@ + ":"@
                + crate::text::spec_decimal(port as nat),
    {
        match self {
            IpcAddr::UnixSocket(p) => p.clone(),
            IpcAddr::Tcp { host, port } => {
                let mut s = host.clone();
                s.append(":");
                push_decimal(&mut s, *port as u64);
                s
            },
        }
    }
}

/// Longest line, in bytes, the line-based wire format reads.
pub const MAX_LINE_LEN: usize = 65536;

/// Blank lines tolerated before a command.
pub const MAX_BLANK_LINES: usize = 16;

/// What the reader does with a line it read.
#[derive(Debug, Clone, Copy, PartialEq, Eq, Structural)]
pub enum LineStep {
    /// The connection closed.
    Closed,
    /// The line is longer than [`MAX_LINE_LEN`].
    TooLong,
    /// Too many blank lines came in a row.
    TooManyBlank,
    /// A blank line: read the next one.
    Skip,
    /// A line to parse as a command.
    Parse,
}

/// Classifies the line just read, of `line_len` bytes, after `skipped` blank
/// lines; `blank` tells whether it is blank once trimmed. Returns the step
/// and the new count of blank lines.
pub fn classify_line(skipped: usize, line_len: usize, blank: bool) -> (r: (LineStep, usize))
    requires
        skipped <= MAX_BLANK_LINES,
    ensures
        line_len == 0 ==> r.0 == LineStep::Closed,
        line_len > MAX_LINE_LEN ==> r.0 == LineStep::TooLong,
        0 < line_len <= MAX_LINE_LEN && blank ==> (if skipped + 1 > MAX_BLANK_LINES {
            r.0 == LineStep::TooManyBlank
        } else {
            r.0 == LineStep::Skip && r.1 == skipped + 1
        }),
        0 < line_len <= MAX_LINE_LEN && !blank ==> r.0 == LineStep::Parse,
        r.1 <= MAX_BLANK_LINES,
{
    if line_len == 0 {
        return (LineStep::Closed, skipped);
    }
    if line_len > MAX_LINE_LEN {
        return (LineStep::TooLong, skipped);
    }
    if blank {
        if skipped + 1 > MAX_BLANK_LINES {
            return (LineStep::TooManyBlank, skipped);
        }
        return (LineStep::Skip, skipped + 1);
    }
    (LineStep::Parse, skipped)
}

/// Largest UDP payload: 65535 less the UDP and IP headers.
pub const MAX_DATAGRAM: usize = 65507;

/// Datagrams above this size may be fragmented.
pub const WARN_DATAGRAM: usize = 512;

/// What the UDP listener does with a datagram of `n` bytes.
#[derive(Debug, Clone, Copy, PartialEq, Eq, Structural)]
pub enum DatagramStep {
    /// Too large: dropped.
    Drop,
    /// Handled, with a warning that it may have been fragmented.
    HandleLarge,
    Handle,
}

pub fn classify_datagram(n: usize) -> (r: DatagramStep)
    ensures
        n > MAX_DATAGRAM ==> r == DatagramStep::Drop,
        WARN_DATAGRAM < n <= MAX_DATAGRAM ==> r == DatagramStep::HandleLarge,
        n <= WARN_DATAGRAM ==> r == DatagramStep::Handle,
{
    if n > MAX_DATAGRAM {
        DatagramStep::Drop
    } else if n > WARN_DATAGRAM {
        DatagramStep::HandleLarge
    } else {
        DatagramStep::Handle
    }
}

/// A reader over the bytes of one datagram.
pub struct DatagramReader {
    data: Vec<u8>,
    pos: usize,
}

impl DatagramReader {
    pub closed spec fn spec_data(&self) -> Seq<u8> {
        self.data@
    }

    pub closed spec fn spec_pos(&self) -> int {
        self.pos as int
    }

    pub fn new(data: Vec<u8>) -> (r: Self)
        ensures
            r.spec_data() == data@,
            r.spec_pos() == 0,
    {
        DatagramReader { data, pos: 0 }
    }

    /// Reads the next bytes, up to `room` of them.
    pub fn read(&mut self, room: usize) -> (r: Vec<u8>)
        requires
            old(self).spec_pos() <= old(self).spec_data().len(),
        ensures
            final(self).spec_data() == old(self).spec_data(),
            ({
                let left = old(self).spec_data().len() - old(self).spec_pos();
                let n = if left < room {
                    left
                } else {
                    room as int
                };
                &&& r@ == old(self).spec_data().subrange(old(self).spec_pos(), old(self).spec_pos() + n)
                &&& final(self).spec_pos() == old(self).spec_pos() + n
            }),
    {
        let left = self.data.len() - self.pos;
        let n = if left < room {
            left
        } else {
            room
        };
        let mut out: Vec<u8> = Vec::new();
        let mut i: usize = 0;
        while i < n
            invariant
                self.pos + n <= self.data.len(),
                i <= n,
                out@ == self.data@.subrange(self.pos as int, self.pos + i),
            decreases n - i,
        {
            out.push(self.data[self.pos + i]);
            proof {
                assert(out@ =~= self.data@.subrange(self.pos as int, self.pos + i + 1));
            }
            i = i + 1;
        }
        self.pos = self.pos + n;
        out
    }
}

/// Which listeners the server starts once the platform's own transport
/// (Unix socket or named pipe) was tried.
#[derive(Debug, Clone, Copy, PartialEq, Eq, Structural)]
pub struct TransportPlan {
    /// Start a TCP listener.
    pub tcp: bool,
    /// Record the TCP listener's port in the port file, for local clients.
    pub write_port_file: bool,
    /// Remove a port file left behind by an earlier run.
    pub remove_stale_port_file: bool,
    /// Start a UDP listener.
    pub udp: bool,
}

/// Plans the listeners: TCP when the platform's own transport could not be
/// bound or an address is configured (`Some((is_loopback, port))`), on the
/// loopback's port 0 when none is; a port file only for a loopback listener
/// on port 0, whose port clients cannot know otherwise; removal of a stale
/// port file when the platform's own transport serves alone; UDP when
/// configured.
pub fn plan_transports(native_bound: bool, tcp_bind: Option<(bool, u16)>, udp_bind: bool) -> (r:
    TransportPlan)
    ensures
        r.tcp == (!native_bound || tcp_bind is Some),
        r.write_port_file == (r.tcp && match tcp_bind {
            None => true,
            Some((loopback, port)) => loopback && port == 0,
        }),
        r.remove_stale_port_file == (native_bound && tcp_bind is None),
        r.udp == udp_bind,
{
    let tcp = !native_bound || tcp_bind.is_some();
    let write_port_file = tcp && match tcp_bind {
        None => true,
        Some((loopback, port)) => loopback && port == 0,
    };
    TransportPlan {
        tcp,
        write_port_file,
        remove_stale_port_file: !tcp && native_bound,
        udp: udp_bind,
    }
}

/// Wire format of the control interface.
#[derive(Debug, Clone, Copy, PartialEq, Eq, Structural)]
pub enum IpcWire {
    /// Length-prefixed protobuf messages.
    Proto,
    /// Newline-delimited JSON.
    Json,
}

impl IpcWire {
    /// Protobuf unless JSON is forced.
    pub fn select(force_json: bool) -> (r: IpcWire)
        ensures
            r == (if force_json {
                IpcWire::Json
            } else {
                IpcWire::Proto
            }),
    {
        if force_json {
            IpcWire::Json
        } else {
            IpcWire::Proto
        }
    }
}

} // verus!
