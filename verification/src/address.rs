//! Multiaddresses: text form, binary form, and the fixed addresses the peers use.

use vstd::prelude::*;
use libp2p::multiaddr::Multiaddr;

verus! {

/// Declares the error type of the `multiaddr` crate so that it can be carried through.
#[verifier::external_type_specification]
#[verifier::external_body]
pub struct ExMultiaddrError(libp2p::multiaddr::Error);

/// The binary encoding of the multiaddress written as `text`, or `None` when
/// `multiaddr` rejects the text.
pub uninterp spec fn multiaddr_encoding(text: Seq<char>) -> Option<Seq<u8>>;

/// The ten decimal digits.
pub open spec fn digit(d: nat) -> char {
    seq!['0', '1', '2', '3', '4', '5', '6', '7', '8', '9'][(d % 10) as int]
}

/// Shortest decimal rendering of `n` (no leading zeros).
pub open spec fn decimal(n: nat) -> Seq<char>
    decreases n,
{
    if n < 10 {
        seq![digit(n)]
    } else {
        decimal(n / 10).push(digit(n % 10))
    }
}

/// An IPv4 address and a TCP port, `/ip4/a.b.c.d/tcp/port` as a multiaddress.
pub struct Ip4Tcp {
    pub a: u8,
    pub b: u8,
    pub c: u8,
    pub d: u8,
    pub port: u16,
}

/// The canonical text `/ip4/a.b.c.d/tcp/port`.
pub open spec fn ip4_tcp_text(e: Ip4Tcp) -> Seq<char> {
    seq!['/', 'i', 'p', '4', '/'] + decimal(e.a as nat) + seq!['.'] + decimal(e.b as nat) + seq![
        '.',
    ] + decimal(e.c as nat) + seq!['.'] + decimal(e.d as nat) + seq!['/', 't', 'c', 'p', '/']
        + decimal(e.port as nat)
}

/// Binary form of `/ip4/a.b.c.d/tcp/port`: protocol code 4, the four octets,
/// protocol code 6, the port in big-endian order.
pub open spec fn ip4_tcp_encoding(e: Ip4Tcp) -> Seq<u8> {
    seq![4u8, e.a, e.b, e.c, e.d, 6u8, (e.port / 256) as u8, (e.port % 256) as u8]
}

/// Parses `text` with `<Multiaddr as FromStr>::from_str` and returns the
/// parsed address's `to_vec()` bytes. Claimed of the call: the outcome is the
/// function `multiaddr_encoding` of the text; the empty text is the empty
/// address; a text that does not start with `/` is rejected; a canonical
/// `/ip4/a.b.c.d/tcp/port` text encodes as `ip4_tcp_encoding`.
#[verifier::external_body]
fn multiaddr_from_text(text: &str) -> (r: Result<Vec<u8>, libp2p::multiaddr::Error>)
    ensures
        r is Ok <==> multiaddr_encoding(text@) is Some,
        r matches Ok(bytes) ==> multiaddr_encoding(text@) == Some(bytes@),
        text@.len() == 0 ==> r is Ok && r->Ok_0@.len() == 0,
        text@.len() > 0 && text@[0] != '/' ==> r is Err,
        forall|e: Ip4Tcp|
            #[trigger] ip4_tcp_text(e) == text@ ==> r is Ok && r->Ok_0@ == ip4_tcp_encoding(e),
{
    match text.parse::<Multiaddr>() {
        Ok(addr) => Ok(addr.to_vec()),
        Err(e) => Err(e),
    }
}

/// A multiaddress accepted by `multiaddr`, held as its binary encoding.
#[derive(Debug, Clone)]
pub struct Address {
    bytes: Vec<u8>,
}

impl View for Address {
    type V = Seq<u8>;

    closed spec fn view(&self) -> Seq<u8> {
        self.bytes@
    }
}

/// Why a text is not a multiaddress.
#[derive(Debug)]
pub enum AddressError {
    /// `multiaddr` rejected the text with this error.
    Malformed(libp2p::multiaddr::Error),
}

impl Address {
    /// The binary encoding, as `Multiaddr::try_from` takes it.
    pub fn to_bytes(&self) -> (r: Vec<u8>)
        ensures
            r@ == self@,
    {
        self.bytes.clone()
    }
}

/// Reads a multiaddress from its text form.
pub fn parse_address(text: &str) -> (r: Result<Address, AddressError>)
    ensures
        r is Ok <==> multiaddr_encoding(text@) is Some,
        r matches Ok(a) ==> multiaddr_encoding(text@) == Some(a@),
{
    match multiaddr_from_text(text) {
        Ok(bytes) => Ok(Address { bytes }),
        Err(e) => Err(AddressError::Malformed(e)),
    }
}

/// Parses a text known to be a canonical `/ip4/../tcp/..` address.
fn fixed_ip4_tcp(text: &str, e: Ghost<Ip4Tcp>) -> (r: Address)
    requires
        text@ == ip4_tcp_text(e@),
    ensures
        r@ == ip4_tcp_encoding(e@),
        multiaddr_encoding(text@) == Some(r@),
{
    match multiaddr_from_text(text) {
        Ok(bytes) => Address { bytes },
        Err(_) => {
            proof {
                assert(false);
            }
            Address { bytes: Vec::new() }
        },
    }
}

/// `/ip4/127.0.0.1/tcp/8080`: where the TCP listeners listen and the dialers dial.
pub fn local_service_address() -> (r: Address)
    ensures
        r@ == ip4_tcp_encoding(Ip4Tcp { a: 127, b: 0, c: 0, d: 1, port: 8080 }),
        r@ == seq![4u8, 127, 0, 0, 1, 6, 31, 144],
        multiaddr_encoding("/ip4/127.0.0.1/tcp/8080"@) == Some(r@),
{
    let text = "/ip4/127.0.0.1/tcp/8080";
    let e = Ghost(Ip4Tcp { a: 127, b: 0, c: 0, d: 1, port: 8080 });
    proof {
        reveal_strlit("/ip4/127.0.0.1/tcp/8080");
        reveal_with_fuel(decimal, 5);
        assert(decimal(127) =~= seq!['1', '2', '7']);
        assert(decimal(0) =~= seq!['0']);
        assert(decimal(1) =~= seq!['1']);
        assert(decimal(8080) =~= seq!['8', '0', '8', '0']);
        assert(ip4_tcp_text(e@) =~= text@);
    }
    let r = fixed_ip4_tcp(text, e);
    assert(r@ =~= seq![4u8, 127, 0, 0, 1, 6, 31, 144]);
    r
}

/// `/ip4/0.0.0.0/tcp/0`: every interface, on whatever port the system assigns.
pub fn any_interface_address() -> (r: Address)
    ensures
        r@ == ip4_tcp_encoding(Ip4Tcp { a: 0, b: 0, c: 0, d: 0, port: 0 }),
        r@ == seq![4u8, 0, 0, 0, 0, 6, 0, 0],
        multiaddr_encoding("/ip4/0.0.0.0/tcp/0"@) == Some(r@),
{
    let text = "/ip4/0.0.0.0/tcp/0";
    let e = Ghost(Ip4Tcp { a: 0, b: 0, c: 0, d: 0, port: 0 });
    proof {
        reveal_strlit("/ip4/0.0.0.0/tcp/0");
        assert(decimal(0) =~= seq!['0']);
        assert(ip4_tcp_text(e@) =~= text@);
    }
    let r = fixed_ip4_tcp(text, e);
    assert(r@ =~= seq![4u8, 0, 0, 0, 0, 6, 0, 0]);
    r
}

/// `/ip4/127.0.0.1/tcp/38067`: where the ping client finds its server.
pub fn ping_server_address() -> (r: Address)
    ensures
        r@ == ip4_tcp_encoding(Ip4Tcp { a: 127, b: 0, c: 0, d: 1, port: 38067 }),
        r@ == seq![4u8, 127, 0, 0, 1, 6, 148, 179],
        multiaddr_encoding("/ip4/127.0.0.1/tcp/38067"@) == Some(r@),
{
    let text = "/ip4/127.0.0.1/tcp/38067";
    let e = Ghost(Ip4Tcp { a: 127, b: 0, c: 0, d: 1, port: 38067 });
    proof {
        reveal_strlit("/ip4/127.0.0.1/tcp/38067");
        reveal_with_fuel(decimal, 6);
        assert(decimal(127) =~= seq!['1', '2', '7']);
        assert(decimal(0) =~= seq!['0']);
        assert(decimal(1) =~= seq!['1']);
        assert(decimal(38067) =~= seq!['3', '8', '0', '6', '7']);
        assert(ip4_tcp_text(e@) =~= text@);
    }
    let r = fixed_ip4_tcp(text, e);
    assert(r@ =~= seq![4u8, 127, 0, 0, 1, 6, 148, 179]);
    r
}

} // verus!
