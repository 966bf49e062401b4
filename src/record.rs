use vstd::prelude::*;
use vstd::string::StringExecFns;

verus! {

/// The character of a decimal digit.
pub open spec fn digit_char(d: nat) -> char {
    if d == 0 { '0' }
    else if d == 1 { '1' }
    else if d == 2 { '2' }
    else if d == 3 { '3' }
    else if d == 4 { '4' }
    else if d == 5 { '5' }
    else if d == 6 { '6' }
    else if d == 7 { '7' }
    else if d == 8 { '8' }
    else { '9' }
}

/// The decimal notation of `n`, without leading zeros.
pub open spec fn decimal(n: nat) -> Seq<char>
    decreases n,
{
    if n < 10 {
        seq![digit_char(n)]
    } else {
        decimal(n / 10) + seq![digit_char(n % 10)]
    }
}

/// The identity key `"{ip}:{port}"` of a server.
pub open spec fn id_of(ip: Seq<char>, port: u16) -> Seq<char> {
    ip + seq![':'] + decimal(port as nat)
}

fn digit_str(d: u16) -> (r: &'static str)
    requires
        d < 10,
    ensures
        r@ == seq![digit_char(d as nat)],
{
    proof {
        reveal_strlit("0");
        reveal_strlit("1");
        reveal_strlit("2");
        reveal_strlit("3");
        reveal_strlit("4");
        reveal_strlit("5");
        reveal_strlit("6");
        reveal_strlit("7");
        reveal_strlit("8");
        reveal_strlit("9");
    }
    if d == 0 { "0" }
    else if d == 1 { "1" }
    else if d == 2 { "2" }
    else if d == 3 { "3" }
    else if d == 4 { "4" }
    else if d == 5 { "5" }
    else if d == 6 { "6" }
    else if d == 7 { "7" }
    else if d == 8 { "8" }
    else { "9" }
}

/// Appends the decimal notation of `n` to `out`.
fn push_decimal(out: &mut String, n: u16)
    ensures
        final(out)@ == old(out)@ + decimal(n as nat),
    decreases n,
{
    if n < 10 {
        out.append(digit_str(n));
    } else {
        push_decimal(out, n / 10);
        out.append(digit_str(n % 10));
        assert(final(out)@ =~= old(out)@ + decimal(n as nat));
    }
}

/// Builds the identity key of a server from its address and port.
pub fn make_id(ip: &String, port: u16) -> (r: String)
    ensures
        r@ == id_of(ip@, port),
{
    let mut out = ip.clone();
    out.append(":");
    proof {
        reveal_strlit(":");
    }
    push_decimal(&mut out, port);
    assert(out@ =~= id_of(ip@, port));
    out
}

/// The mathematical content of a cached record.
pub struct RecordView {
    pub hostname: Seq<char>,
    pub ip: Seq<char>,
    pub port: u16,
    pub region: Seq<char>,
}

impl RecordView {
    pub open spec fn id(self) -> Seq<char> {
        id_of(self.ip, self.port)
    }
}

/// One known server together with the region that it was located in.
pub struct ServerCache {
    pub hostname: String,
    pub ip: String,
    pub port: u16,
    pub region: String,
}

impl View for ServerCache {
    type V = RecordView;

    open spec fn view(&self) -> RecordView {
        RecordView {
            hostname: self.hostname@,
            ip: self.ip@,
            port: self.port,
            region: self.region@,
        }
    }
}

/// The mathematical content of a live server observation.
pub struct InfoView {
    pub hostname: Seq<char>,
    pub ip: Seq<char>,
    pub port: u16,
    pub game: Seq<char>,
}

/// A server as the directory service advertises it.
pub struct ServerInfo {
    pub hostname: String,
    pub ip: String,
    pub port: u16,
    pub game: String,
}

impl View for ServerInfo {
    type V = InfoView;

    open spec fn view(&self) -> InfoView {
        InfoView { hostname: self.hostname@, ip: self.ip@, port: self.port, game: self.game@ }
    }
}

/// The record that a located server becomes.
pub open spec fn record_of(s: InfoView, region: Seq<char>) -> RecordView {
    RecordView { hostname: s.hostname, ip: s.ip, port: s.port, region }
}

impl ServerCache {
    pub fn from(value: &ServerInfo, region: String) -> (r: ServerCache)
        ensures
            r@ == record_of(value@, region@),
    {
        ServerCache {
            hostname: value.hostname.clone(),
            ip: value.ip.clone(),
            port: value.port,
            region,
        }
    }

    pub fn consume(value: ServerInfo, region: String) -> (r: ServerCache)
        ensures
            r@ == record_of(value@, region@),
    {
        ServerCache { hostname: value.hostname, ip: value.ip, port: value.port, region }
    }

    /// The identity key `"{ip}:{port}"` of this record.
    pub fn get_id(&self) -> (r: String)
        ensures
            r@ == self@.id(),
    {
        make_id(&self.ip, self.port)
    }

    /// A copy of this record.
    pub fn duplicate(&self) -> (r: ServerCache)
        ensures
            r@ == self@,
    {
        ServerCache {
            hostname: self.hostname.clone(),
            ip: self.ip.clone(),
            port: self.port,
            region: self.region.clone(),
        }
    }
}

impl ServerInfo {
    /// The identity key `"{ip}:{port}"` of this server.
    pub fn get_id(&self) -> (r: String)
        ensures
            r@ == id_of(self.ip@, self.port),
    {
        make_id(&self.ip, self.port)
    }

    /// A copy of this observation.
    pub fn duplicate(&self) -> (r: ServerInfo)
        ensures
            r@ == self@,
    {
        ServerInfo {
            hostname: self.hostname.clone(),
            ip: self.ip.clone(),
            port: self.port,
            game: self.game.clone(),
        }
    }
}

} // verus!
