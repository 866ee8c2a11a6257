//! Lightning peers: a node's public key and the address it listens on.

use vstd::prelude::*;
use vstd::arithmetic::power::{lemma_pow0, pow};
use vstd::arithmetic::power2::{lemma2_to64, lemma_pow2_adds, pow2};
use ldk_node::lightning::ln::msgs::SocketAddress as LdkAddress;
use crate::hex::{hex_bytes, hex_to_vec, is_hex, law_hex_digits};
use crate::text::{sides, split_once};

verus! {

/// A point on the curve secp256k1 in its compressed encoding.
#[derive(Debug, Clone, PartialEq, Eq)]
pub struct PublicKey {
    pub bytes: [u8; 33],
}

impl View for PublicKey {
    type V = Seq<u8>;

    open spec fn view(&self) -> Seq<u8> {
        self.bytes@
    }
}

/// An address that a lightning node can be reached at.
#[derive(Debug, Clone, PartialEq, Eq)]
pub enum SocketAddress {
    TcpIpV4 { addr: [u8; 4], port: u16 },
    TcpIpV6 { addr: [u8; 16], port: u16 },
    OnionV2([u8; 12]),
    OnionV3 { ed25519_pubkey: [u8; 32], checksum: u16, version: u8, port: u16 },
    Hostname { hostname: String, port: u16 },
}

/// What a `SocketAddress` says.
pub enum SocketAddressView {
    TcpIpV4 { addr: Seq<u8>, port: u16 },
    TcpIpV6 { addr: Seq<u8>, port: u16 },
    OnionV2(Seq<u8>),
    OnionV3 { ed25519_pubkey: Seq<u8>, checksum: u16, version: u8, port: u16 },
    Hostname { hostname: Seq<char>, port: u16 },
}

impl View for SocketAddress {
    type V = SocketAddressView;

    open spec fn view(&self) -> SocketAddressView {
        match *self {
            SocketAddress::TcpIpV4 { addr, port } => SocketAddressView::TcpIpV4 {
                addr: addr@,
                port,
            },
            SocketAddress::TcpIpV6 { addr, port } => SocketAddressView::TcpIpV6 {
                addr: addr@,
                port,
            },
            SocketAddress::OnionV2(bytes) => SocketAddressView::OnionV2(bytes@),
            SocketAddress::OnionV3 { ed25519_pubkey, checksum, version, port } => {
                SocketAddressView::OnionV3 {
                    ed25519_pubkey: ed25519_pubkey@,
                    checksum,
                    version,
                    port,
                }
            },
            SocketAddress::Hostname { hostname, port } => SocketAddressView::Hostname {
                hostname: hostname@,
                port,
            },
        }
    }
}

/// The size of the field over which secp256k1 is defined.
pub open spec fn field_prime() -> nat {
    0xffff_ffff_ffff_ffff_ffff_ffff_ffff_ffff_ffff_ffff_ffff_ffff_ffff_fffe_ffff_fc2f_nat
}

/// The number that bytes stand for, the most significant first.
pub open spec fn be_value(bytes: Seq<u8>) -> nat
    decreases bytes.len(),
{
    if bytes.len() == 0 {
        0
    } else {
        256 * be_value(bytes.drop_last()) + bytes.last() as nat
    }
}

/// Whether some point of secp256k1 has the coordinate `x`.
pub open spec fn on_curve(x: nat) -> bool {
    exists|y: nat|
        y < field_prime() && #[trigger] (y * y) % field_prime() == (x * x * x + 7) % field_prime()
}

/// Whether `bytes` encode a point in compressed form: the parity of `y` as a
/// tag, then `x`.
pub open spec fn is_compressed_point(bytes: Seq<u8>) -> bool {
    &&& bytes.len() == 33
    &&& bytes[0] == 2 || bytes[0] == 3
    &&& be_value(bytes.skip(1)) < field_prime()
    &&& on_curve(be_value(bytes.skip(1)))
}

/// The key that hexadecimal text stands for, if it does stand for one.
pub open spec fn compressed_key(hex: Seq<char>) -> Option<Seq<u8>> {
    if hex.len() == 66 && is_hex(hex) && is_compressed_point(hex_bytes(hex)) {
        Some(hex_bytes(hex))
    } else {
        None
    }
}

/// What `lightning::ln::msgs::SocketAddress::from_str` makes of a text: the
/// address, or nothing where it returns an error.
pub uninterp spec fn parsed_socket_address(text: Seq<char>) -> Option<SocketAddressView>;

/// The key and the address in a text of the form `key@address`.
pub open spec fn peer_of(text: Seq<char>) -> Option<(Seq<u8>, SocketAddressView)> {
    match sides(text, '@') {
        Some((key, address)) => match (compressed_key(key), parsed_socket_address(address)) {
            (Some(key), Some(address)) => Some((key, address)),
            _ => None,
        },
        None => None,
    }
}

/// Calls `bitcoin::secp256k1::PublicKey::from_slice` on a compressed encoding
/// and takes the key's own encoding, `PublicKey::serialize`, for the result.
/// Claimed: of 33 bytes it accepts exactly those that encode a point of the
/// curve, and the key encodes as the bytes that it was read from.
#[verifier::external_body]
fn point_from_slice(data: &[u8]) -> (res: Option<PublicKey>)
    requires
        data@.len() == 33,
    ensures
        match res {
            Some(key) => is_compressed_point(data@) && key@ == data@,
            None => !is_compressed_point(data@),
        },
{
    match bitcoin::secp256k1::PublicKey::from_slice(data) {
        Ok(key) => Some(PublicKey { bytes: key.serialize() }),
        Err(_) => None,
    }
}

/// Calls `ldk_node::lightning::ln::msgs::SocketAddress::from_str`. Claimed:
/// what it returns depends on the text alone; the name for it is
/// `parsed_socket_address`.
#[verifier::external_body]
fn parse_socket_address(text: &str) -> (res: Option<SocketAddress>)
    ensures
        match res {
            Some(address) => parsed_socket_address(text@) == Some(address@),
            None => parsed_socket_address(text@) is None,
        },
{
    match text.parse::<LdkAddress>() {
        Ok(LdkAddress::TcpIpV4 { addr, port }) => Some(SocketAddress::TcpIpV4 { addr, port }),
        Ok(LdkAddress::TcpIpV6 { addr, port }) => Some(SocketAddress::TcpIpV6 { addr, port }),
        Ok(LdkAddress::OnionV2(bytes)) => Some(SocketAddress::OnionV2(bytes)),
        Ok(LdkAddress::OnionV3 { ed25519_pubkey, checksum, version, port }) => Some(
            SocketAddress::OnionV3 { ed25519_pubkey, checksum, version, port },
        ),
        Ok(LdkAddress::Hostname { hostname, port }) => Some(
            SocketAddress::Hostname { hostname: hostname.into(), port },
        ),
        Err(_) => None,
    }
}

/// The compressed public key that 66 hexadecimal digits stand for.
pub fn hex_to_compressed_pubkey(hex: &str) -> (res: Option<PublicKey>)
    ensures
        match res {
            Some(key) => compressed_key(hex@) == Some(key@),
            None => compressed_key(hex@) is None,
        },
{
    if hex.unicode_len() != 33 * 2 {
        return None;
    }
    match hex_to_vec(hex) {
        Some(data) => point_from_slice(data.as_slice()),
        None => None,
    }
}

/// A peer, once the reading of its address has been tried.
pub fn peer_with_address(key: PublicKey, address: Option<SocketAddress>) -> (res: Result<
    (PublicKey, SocketAddress),
    (),
>)
    ensures
        match address {
            Some(address) => res == Ok::<(PublicKey, SocketAddress), ()>((key, address)),
            None => res is Err,
        },
{
    match address {
        Some(address) => Ok((key, address)),
        None => Err(()),
    }
}

/// The key and the address of a peer written as `key@address`.
pub fn convert_peer_info(peer_pubkey_and_ip_addr: &str) -> (res: Result<
    (PublicKey, SocketAddress),
    (),
>)
    ensures
        match res {
            Ok((key, address)) => peer_of(peer_pubkey_and_ip_addr@) == Some((key@, address@)),
            Err(_) => peer_of(peer_pubkey_and_ip_addr@) is None,
        },
{
    if let Some((pubkey_str, peer_str)) = split_once(peer_pubkey_and_ip_addr, '@') {
        if let Some(key) = hex_to_compressed_pubkey(pubkey_str.as_str()) {
            return peer_with_address(key, parse_socket_address(peer_str.as_str()));
        }
    }
    Err(())
}

/// A byte in front counts 256 times as much for each byte behind it.
pub proof fn law_be_value(b: u8, rest: Seq<u8>)
    ensures
        be_value(Seq::empty()) == 0,
        be_value(seq![b] + rest) == b * pow(256, rest.len()) + be_value(rest),
    decreases rest.len(),
{
    let whole = seq![b] + rest;
    if rest.len() == 0 {
        assert(whole.drop_last() == Seq::<u8>::empty());
        assert(whole.last() == b);
        lemma_pow0(256);
        assert(be_value(Seq::<u8>::empty()) == 0);
    } else {
        let front = rest.drop_last();
        law_be_value(b, front);
        assert(whole.drop_last() == seq![b] + front);
        assert(whole.last() == rest.last());
        let power = pow(256, front.len());
        assert(pow(256, rest.len()) == 256 * power) by {
            reveal(pow);
        }
        assert(256 * (b * power) == b * (256 * power)) by (nonlinear_arith);
    }
}

/// The field of secp256k1 has 2^256 - 2^32 - 977 elements.
pub proof fn law_field_prime()
    ensures
        field_prime() == pow2(256) - pow2(32) - 977,
{
    lemma2_to64();
    lemma_pow2_adds(64, 64);
    lemma_pow2_adds(128, 128);
    assert(pow2(64) == 0x1_0000_0000_0000_0000_nat);
    assert(0x1_0000_0000_0000_0000_nat * 0x1_0000_0000_0000_0000_nat
        == 0x1_0000_0000_0000_0000_0000_0000_0000_0000_nat) by (nonlinear_arith);
    assert(0x1_0000_0000_0000_0000_0000_0000_0000_0000_nat
        * 0x1_0000_0000_0000_0000_0000_0000_0000_0000_nat
        == 0x1_0000_0000_0000_0000_0000_0000_0000_0000_0000_0000_0000_0000_0000_0000_0000_0000_nat)
        by (nonlinear_arith);
}

/// A text is read as a key exactly if it is made of 66 hexadecimal digits that
/// stand for a tag of 2 or 3 and a coordinate of a point of the curve; the key
/// is the bytes that they stand for.
pub proof fn law_key_read(hex: Seq<char>, key: Seq<u8>)
    ensures
        compressed_key(hex) == Some(key) <==> {
            &&& hex.len() == 66
            &&& forall|i: int|
                0 <= i < hex.len() ==> "0123456789abcdefABCDEF"@.contains(#[trigger] hex[i])
            &&& key == hex_bytes(hex)
            &&& key[0] == 2 || key[0] == 3
            &&& be_value(key.skip(1)) < field_prime()
            &&& exists|y: nat|
                y < field_prime() && #[trigger] (y * y) % field_prime() == (be_value(key.skip(1))
                    * be_value(key.skip(1)) * be_value(key.skip(1)) + 7) % field_prime()
        },
{
    law_hex_digits(hex);
}

/// A peer is read from what stands left of the first at sign, as a key, and
/// what stands right of it, as an address of whatever kind. It is not read
/// where either is not, or where there is no at sign.
pub proof fn law_peer_read(
    left: Seq<char>,
    right: Seq<char>,
    key: Seq<u8>,
    address: SocketAddressView,
)
    requires
        !left.contains('@'),
    ensures
        peer_of(left) is None,
        peer_of(left.push('@') + right) == Some((key, address)) <==> {
            &&& compressed_key(left) == Some(key)
            &&& parsed_socket_address(right) == Some(address)
        },
{
    let text = left.push('@') + right;
    let at = left.len() as int;
    assert(text[at] == '@');
    text.index_of_first_ensures('@');
    let i = text.index_of_first('@').unwrap();
    if i < at {
        assert(left[i] == '@');
    }
    assert(text.take(at) == left);
    assert(text.skip(at + 1) == right);
}

} // verus!
