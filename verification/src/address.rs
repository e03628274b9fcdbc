//! Network addresses: which of them may be dialled, published or used for the service.

use crate::bytes::copy_text;
use crate::sorted::views;
use libp2p::multiaddr::Protocol;
use libp2p::{Multiaddr, PeerId};
use vstd::prelude::*;

verus! {

/// One part of a network address. A peer is named by its id in text form, a protocol
/// that the messenger does not look at by its own text.
#[derive(Debug, Clone, PartialEq, Eq)]
pub enum Part {
    Ip4([u8; 4]),
    Ip6([u8; 16]),
    Tcp(u16),
    Udp(u16),
    Dns(String),
    Dns4(String),
    Dns6(String),
    P2p(String),
    P2pCircuit,
    Other(String),
}

#[verifier::ext_equal]
pub enum PartView {
    Ip4(Seq<u8>),
    Ip6(Seq<u8>),
    Tcp(u16),
    Udp(u16),
    Dns(Seq<char>),
    Dns4(Seq<char>),
    Dns6(Seq<char>),
    P2p(Seq<char>),
    P2pCircuit,
    Other(Seq<char>),
}

impl View for Part {
    type V = PartView;

    open spec fn view(&self) -> PartView {
        match *self {
            Part::Ip4(octets) => PartView::Ip4(octets@),
            Part::Ip6(octets) => PartView::Ip6(octets@),
            Part::Tcp(port) => PartView::Tcp(port),
            Part::Udp(port) => PartView::Udp(port),
            Part::Dns(name) => PartView::Dns(name@),
            Part::Dns4(name) => PartView::Dns4(name@),
            Part::Dns6(name) => PartView::Dns6(name@),
            Part::P2p(peer) => PartView::P2p(peer@),
            Part::P2pCircuit => PartView::P2pCircuit,
            Part::Other(text) => PartView::Other(text@),
        }
    }
}

impl Part {
    pub fn duplicate(&self) -> (copy: Part)
        ensures
            copy@ == self@,
    {
        match self {
            Part::Ip4(octets) => Part::Ip4(*octets),
            Part::Ip6(octets) => Part::Ip6(*octets),
            Part::Tcp(port) => Part::Tcp(*port),
            Part::Udp(port) => Part::Udp(*port),
            Part::Dns(name) => Part::Dns(name.clone()),
            Part::Dns4(name) => Part::Dns4(name.clone()),
            Part::Dns6(name) => Part::Dns6(name.clone()),
            Part::P2p(peer) => Part::P2p(peer.clone()),
            Part::P2pCircuit => Part::P2pCircuit,
            Part::Other(text) => Part::Other(text.clone()),
        }
    }
}

/// A network address: its parts, the outermost last.
#[derive(Debug, Clone, PartialEq, Eq)]
pub struct Address {
    pub parts: Vec<Part>,
}

impl View for Address {
    type V = Seq<PartView>;

    open spec fn view(&self) -> Seq<PartView> {
        views(self.parts@)
    }
}

/// One part of an address at which a peer is dialled directly.
#[derive(Debug, Clone, Copy, PartialEq, Eq)]
pub enum DirectPart {
    Ip4([u8; 4]),
    Ip6([u8; 16]),
    Tcp(u16),
}

#[verifier::ext_equal]
pub enum DirectPartView {
    Ip4(Seq<u8>),
    Ip6(Seq<u8>),
    Tcp(u16),
}

impl View for DirectPart {
    type V = DirectPartView;

    open spec fn view(&self) -> DirectPartView {
        match *self {
            DirectPart::Ip4(octets) => DirectPartView::Ip4(octets@),
            DirectPart::Ip6(octets) => DirectPartView::Ip6(octets@),
            DirectPart::Tcp(port) => DirectPartView::Tcp(port),
        }
    }
}

/// An IP address by its octets.
#[derive(Debug, Clone, Copy, PartialEq, Eq)]
pub enum IpAddress {
    V4([u8; 4]),
    V6([u8; 16]),
}

#[verifier::ext_equal]
pub enum IpView {
    V4(Seq<u8>),
    V6(Seq<u8>),
}

impl View for IpAddress {
    type V = IpView;

    open spec fn view(&self) -> IpView {
        match *self {
            IpAddress::V4(octets) => IpView::V4(octets@),
            IpAddress::V6(octets) => IpView::V6(octets@),
        }
    }
}

/// Where an application listens.
#[derive(Debug, Clone, Copy, PartialEq, Eq)]
pub struct SocketAddress {
    pub ip: IpAddress,
    pub port: u16,
}

/// Why an address does not say where an application listens.
#[derive(Debug, Clone, Copy, PartialEq, Eq, Structural)]
pub enum AppAddressError {
    MissingIp,
    UnknownPeerIp,
    MissingPort,
}

impl AppAddressError {
    pub open spec fn name(self) -> Seq<char> {
        match self {
            AppAddressError::MissingIp => "app multiaddr is missing an IP address"@,
            AppAddressError::UnknownPeerIp =>
                "discovered app address was unspecified and no peer IP was known"@,
            AppAddressError::MissingPort => "app multiaddr is missing a UDP port"@,
        }
    }

    pub fn message(&self) -> (text: &'static str)
        ensures
            text@ == self.name(),
    {
        match self {
            AppAddressError::MissingIp => "app multiaddr is missing an IP address",
            AppAddressError::UnknownPeerIp =>
                "discovered app address was unspecified and no peer IP was known",
            AppAddressError::MissingPort => "app multiaddr is missing a UDP port",
        }
    }
}

/// Why an address cannot be that of the pairing service.
#[derive(Debug, Clone, Copy, PartialEq, Eq, Structural)]
pub enum ServiceAddressError {
    Invalid,
    Incomplete,
    NotPublic,
}

impl ServiceAddressError {
    pub open spec fn name(self) -> Seq<char> {
        match self {
            ServiceAddressError::Invalid =>
                "CipherMesh pairing service configuration is invalid"@,
            ServiceAddressError::Incomplete =>
                "CipherMesh pairing service configuration is incomplete."@,
            ServiceAddressError::NotPublic =>
                "CipherMesh pairing service must use a publicly reachable address."@,
        }
    }

    pub fn message(&self) -> (text: &'static str)
        ensures
            text@ == self.name(),
    {
        match self {
            ServiceAddressError::Invalid => "CipherMesh pairing service configuration is invalid",
            ServiceAddressError::Incomplete =>
                "CipherMesh pairing service configuration is incomplete.",
            ServiceAddressError::NotPublic =>
                "CipherMesh pairing service must use a publicly reachable address.",
        }
    }
}

/// The parts of the address that a text stands for, as the libp2p crate reads it.
pub uninterp spec fn parsed_address(text: Seq<char>) -> Option<Seq<PartView>>;

/// The text of a direct address, as the libp2p crate writes it.
pub uninterp spec fn direct_text(parts: Seq<DirectPartView>) -> Seq<char>;

/// Reading a `libp2p::Multiaddr` from text: its protocols in order, or nothing where the
/// text is no address.
#[verifier::external_body]
pub(crate) fn read_address(text: &str) -> (parts: Option<Vec<Part>>)
    ensures
        match parts {
            Some(parts) => parsed_address(text@) == Some(views(parts@)),
            None => parsed_address(text@) is None,
        },
{
    let address: Multiaddr = text.parse().ok()?;
    Some(address.iter().map(|protocol| match protocol {
        Protocol::Ip4(ip) => Part::Ip4(ip.octets()),
        Protocol::Ip6(ip) => Part::Ip6(ip.octets()),
        Protocol::Tcp(port) => Part::Tcp(port),
        Protocol::Udp(port) => Part::Udp(port),
        Protocol::Dns(name) => Part::Dns(name.to_string()),
        Protocol::Dns4(name) => Part::Dns4(name.to_string()),
        Protocol::Dns6(name) => Part::Dns6(name.to_string()),
        Protocol::P2p(peer) => Part::P2p(peer.to_string()),
        Protocol::P2pCircuit => Part::P2pCircuit,
        other => Part::Other(other.to_string()),
    }).collect())
}

/// Writing a `libp2p::Multiaddr` of IP addresses and TCP ports as text: a function of its
/// parts, which reading gives back.
#[verifier::external_body]
pub(crate) fn write_direct_address(parts: &[DirectPart]) -> (text: String)
    ensures
        text@ == direct_text(views(parts@)),
        parsed_address(text@) == Some(as_parts(views(parts@))),
{
    let address: Multiaddr = parts.iter().map(|part| match part {
        DirectPart::Ip4(octets) => Protocol::Ip4((*octets).into()),
        DirectPart::Ip6(octets) => Protocol::Ip6((*octets).into()),
        DirectPart::Tcp(port) => Protocol::Tcp(*port),
    }).collect();
    address.to_string()
}

/// The usual text form of the peer id that a text stands for, as the libp2p crate reads
/// and writes it.
pub uninterp spec fn canonical_peer(text: Seq<char>) -> Option<Seq<char>>;

/// Reading a `libp2p::PeerId` from text and writing it again; nothing where the text is no
/// peer id.
#[verifier::external_body]
pub(crate) fn read_peer_id(text: &str) -> (peer: Option<String>)
    ensures
        match peer {
            Some(peer) => canonical_peer(text@) == Some(peer@),
            None => canonical_peer(text@) is None,
        },
{
    text.parse::<PeerId>().ok().map(|peer| peer.to_string())
}

pub open spec fn as_part(part: DirectPartView) -> PartView {
    match part {
        DirectPartView::Ip4(octets) => PartView::Ip4(octets),
        DirectPartView::Ip6(octets) => PartView::Ip6(octets),
        DirectPartView::Tcp(port) => PartView::Tcp(port),
    }
}

pub open spec fn as_parts(parts: Seq<DirectPartView>) -> Seq<PartView> {
    parts.map_values(|part: DirectPartView| as_part(part))
}

/// The address that stands for any.
pub open spec fn v4_unspecified(ip: Seq<u8>) -> bool {
    ip[0] == 0 && ip[1] == 0 && ip[2] == 0 && ip[3] == 0
}

pub open spec fn v4_loopback(ip: Seq<u8>) -> bool {
    ip[0] == 127
}

pub open spec fn v4_private(ip: Seq<u8>) -> bool {
    ||| ip[0] == 10
    ||| ip[0] == 172 && 16 <= ip[1] <= 31
    ||| ip[0] == 192 && ip[1] == 168
}

pub open spec fn v4_link_local(ip: Seq<u8>) -> bool {
    ip[0] == 169 && ip[1] == 254
}

pub open spec fn v4_multicast(ip: Seq<u8>) -> bool {
    224 <= ip[0] <= 239
}

pub open spec fn v4_broadcast(ip: Seq<u8>) -> bool {
    ip[0] == 255 && ip[1] == 255 && ip[2] == 255 && ip[3] == 255
}

pub open spec fn v4_documentation(ip: Seq<u8>) -> bool {
    ||| ip[0] == 192 && ip[1] == 0 && ip[2] == 2
    ||| ip[0] == 198 && ip[1] == 51 && ip[2] == 100
    ||| ip[0] == 203 && ip[1] == 0 && ip[2] == 113
}

/// All octets but the last are zero.
pub open spec fn v6_zero_but_last(ip: Seq<u8>) -> bool {
    forall|i: int| 0 <= i < 15 ==> #[trigger] ip[i] == 0
}

/// The address that stands for any.
pub open spec fn v6_unspecified(ip: Seq<u8>) -> bool {
    v6_zero_but_last(ip) && ip[15] == 0
}

pub open spec fn v6_loopback(ip: Seq<u8>) -> bool {
    v6_zero_but_last(ip) && ip[15] == 1
}

pub open spec fn v6_unique_local(ip: Seq<u8>) -> bool {
    ip[0] == 0xfc || ip[0] == 0xfd
}

pub open spec fn v6_link_local(ip: Seq<u8>) -> bool {
    ip[0] == 0xfe && 0x80 <= ip[1] <= 0xbf
}

pub open spec fn v6_multicast(ip: Seq<u8>) -> bool {
    ip[0] == 0xff
}

pub open spec fn is_unspecified(ip: IpView) -> bool {
    match ip {
        IpView::V4(ip) => v4_unspecified(ip),
        IpView::V6(ip) => v6_unspecified(ip),
    }
}

/// Whether a peer may be dialled at an IP address.
pub open spec fn is_dialable(ip: IpView) -> bool {
    match ip {
        IpView::V4(ip) => {
            &&& !v4_unspecified(ip)
            &&& !v4_loopback(ip)
            &&& !v4_link_local(ip)
            &&& !v4_multicast(ip)
            &&& !v4_broadcast(ip)
            &&& !v4_documentation(ip)
        },
        IpView::V6(ip) => {
            &&& !v6_unspecified(ip)
            &&& !v6_loopback(ip)
            &&& !v6_link_local(ip)
            &&& !v6_multicast(ip)
        },
    }
}

/// Whether an IP address can be reached from elsewhere at all.
pub open spec fn is_usable(ip: IpView) -> bool {
    match ip {
        IpView::V4(ip) => !v4_unspecified(ip) && !v4_loopback(ip),
        IpView::V6(ip) => !v6_unspecified(ip) && !v6_loopback(ip),
    }
}

/// Whether one part makes the address of a service a public one.
pub open spec fn is_public_part(part: PartView) -> bool {
    match part {
        PartView::Ip4(ip) => {
            &&& !v4_unspecified(ip)
            &&& !v4_loopback(ip)
            &&& !v4_private(ip)
            &&& !v4_link_local(ip)
            &&& !v4_multicast(ip)
            &&& !v4_documentation(ip)
        },
        PartView::Ip6(ip) => {
            &&& !v6_unspecified(ip)
            &&& !v6_loopback(ip)
            &&& !v6_unique_local(ip)
            &&& !v6_link_local(ip)
            &&& !v6_multicast(ip)
        },
        PartView::Dns(_) => true,
        PartView::Dns4(_) => true,
        PartView::Dns6(_) => true,
        _ => false,
    }
}

/// Whether the address of a service is a public one.
pub open spec fn is_public(address: Seq<PartView>) -> bool {
    exists|i: int| 0 <= i < address.len() && is_public_part(#[trigger] address[i])
}

/// The dialable IP addresses and the TCP ports of an address, in order.
pub open spec fn direct_parts(address: Seq<PartView>) -> Seq<DirectPartView>
    decreases address.len(),
{
    if address.len() == 0 {
        Seq::empty()
    } else {
        let before = direct_parts(address.drop_last());
        match address.last() {
            PartView::Ip4(ip) => if is_dialable(IpView::V4(ip)) {
                before.push(DirectPartView::Ip4(ip))
            } else {
                before
            },
            PartView::Ip6(ip) => if is_dialable(IpView::V6(ip)) {
                before.push(DirectPartView::Ip6(ip))
            } else {
                before
            },
            PartView::Tcp(port) => before.push(DirectPartView::Tcp(port)),
            _ => before,
        }
    }
}

/// Whether a direct address has an IP address.
pub open spec fn has_ip(parts: Seq<DirectPartView>) -> bool {
    exists|i: int| 0 <= i < parts.len() && !(#[trigger] parts[i] is Tcp)
}

/// Whether a direct address has a TCP port.
pub open spec fn has_tcp(parts: Seq<DirectPartView>) -> bool {
    exists|i: int| 0 <= i < parts.len() && #[trigger] parts[i] is Tcp
}

/// Whether an address leads through a relay.
pub open spec fn is_relayed(address: Seq<PartView>) -> bool {
    exists|i: int| 0 <= i < address.len() && #[trigger] address[i] is P2pCircuit
}

/// What is left of an address for dialling a peer directly; nothing of an address that
/// leads through a relay, or that lacks a dialable IP address or a TCP port.
pub open spec fn sanitized(address: Seq<PartView>) -> Option<Seq<DirectPartView>> {
    let parts = direct_parts(address);
    if is_relayed(address) || !has_ip(parts) || !has_tcp(parts) {
        None
    } else {
        Some(parts)
    }
}

/// The text that is left of the text of an address.
pub open spec fn sanitized_text(text: Seq<char>) -> Option<Seq<char>> {
    match parsed_address(text) {
        Some(address) => match sanitized(address) {
            Some(parts) => Some(direct_text(parts)),
            None => None,
        },
        None => None,
    }
}

/// The texts that are left of a list, in order.
pub open spec fn sanitized_texts(texts: Seq<Seq<char>>) -> Seq<Seq<char>>
    decreases texts.len(),
{
    if texts.len() == 0 {
        Seq::empty()
    } else {
        let before = sanitized_texts(texts.drop_last());
        match sanitized_text(texts.last()) {
            Some(text) => before.push(text),
            None => before,
        }
    }
}

/// The direct parts of the address of a listener on a machine with the IP address `lan`,
/// which takes the place of the address that stands for any.
pub open spec fn listener_parts(address: Seq<PartView>, lan: Option<IpView>) -> Option<
    Seq<DirectPartView>,
>
    decreases address.len(),
{
    if address.len() == 0 {
        Some(Seq::empty())
    } else {
        match (listener_parts(address.drop_last(), lan), address.last()) {
            (None, _) => None,
            (Some(before), PartView::Ip4(ip)) => if v4_unspecified(ip) {
                match lan {
                    Some(IpView::V4(lan)) => Some(before.push(DirectPartView::Ip4(lan))),
                    _ => None,
                }
            } else if is_usable(IpView::V4(ip)) {
                Some(before.push(DirectPartView::Ip4(ip)))
            } else {
                Some(before)
            },
            (Some(before), PartView::Ip6(ip)) => if v6_unspecified(ip) {
                None
            } else if is_usable(IpView::V6(ip)) {
                Some(before.push(DirectPartView::Ip6(ip)))
            } else {
                Some(before)
            },
            (Some(before), PartView::Tcp(port)) => Some(before.push(DirectPartView::Tcp(port))),
            (Some(before), _) => Some(before),
        }
    }
}

/// The address under which a listener is published.
pub open spec fn published(address: Seq<PartView>, lan: Option<IpView>) -> Option<
    Seq<DirectPartView>,
> {
    match listener_parts(address, lan) {
        Some(parts) => if has_ip(parts) && has_tcp(parts) {
            Some(parts)
        } else {
            None
        },
        None => None,
    }
}

/// The last peer that an address names.
pub open spec fn named_peer(address: Seq<PartView>) -> Option<Seq<char>>
    decreases address.len(),
{
    if address.len() == 0 {
        None
    } else {
        match address.last() {
            PartView::P2p(peer) => Some(peer),
            _ => named_peer(address.drop_last()),
        }
    }
}

/// An address without the peers that it names.
pub open spec fn without_peers(address: Seq<PartView>) -> Seq<PartView>
    decreases address.len(),
{
    if address.len() == 0 {
        Seq::empty()
    } else if address.last() is P2p {
        without_peers(address.drop_last())
    } else {
        without_peers(address.drop_last()).push(address.last())
    }
}

/// The address of a peer through a relay.
pub open spec fn through_relay(relay: Seq<PartView>, peer: Seq<char>) -> Seq<PartView> {
    relay.push(PartView::P2pCircuit).push(PartView::P2p(peer))
}

/// The addresses of a peer through those relays that name themselves.
pub open spec fn through_relays(relays: Seq<Seq<PartView>>, peer: Seq<char>) -> Seq<Seq<PartView>>
    decreases relays.len(),
{
    if relays.len() == 0 {
        Seq::empty()
    } else if named_peer(relays.last()) is Some {
        through_relays(relays.drop_last(), peer).push(through_relay(relays.last(), peer))
    } else {
        through_relays(relays.drop_last(), peer)
    }
}

/// The last IP address in an address.
pub open spec fn last_ip(address: Seq<PartView>) -> Option<IpView>
    decreases address.len(),
{
    if address.len() == 0 {
        None
    } else {
        match address.last() {
            PartView::Ip4(ip) => Some(IpView::V4(ip)),
            PartView::Ip6(ip) => Some(IpView::V6(ip)),
            _ => last_ip(address.drop_last()),
        }
    }
}

/// The last UDP port in an address.
pub open spec fn last_port(address: Seq<PartView>) -> Option<u16>
    decreases address.len(),
{
    if address.len() == 0 {
        None
    } else {
        match address.last() {
            PartView::Udp(port) => Some(port),
            _ => last_port(address.drop_last()),
        }
    }
}

/// Where the application of a peer listens: the IP address of an address, the peer's own
/// where that one stands for any, and its UDP port.
pub open spec fn app_socket(address: Seq<PartView>, fallback: Option<IpView>) -> Result<
    (IpView, u16),
    AppAddressError,
> {
    match last_ip(address) {
        None => Err(AppAddressError::MissingIp),
        Some(ip) => if is_unspecified(ip) && fallback is None {
            Err(AppAddressError::UnknownPeerIp)
        } else {
            match last_port(address) {
                None => Err(AppAddressError::MissingPort),
                Some(port) => Ok(
                    (
                        if is_unspecified(ip) {
                            fallback->0
                        } else {
                            ip
                        },
                        port,
                    ),
                ),
            }
        },
    }
}

/// The first IP address in an address that does not stand for any.
pub open spec fn first_ip(address: Seq<PartView>) -> Option<IpView>
    decreases address.len(),
{
    if address.len() == 0 {
        None
    } else {
        match address[0] {
            PartView::Ip4(ip) if !v4_unspecified(ip) => Some(IpView::V4(ip)),
            PartView::Ip6(ip) if !v6_unspecified(ip) => Some(IpView::V6(ip)),
            _ => first_ip(address.drop_first()),
        }
    }
}

fn is_v4_unspecified(ip: &[u8; 4]) -> (answer: bool)
    ensures
        answer == v4_unspecified(ip@),
{
    ip[0] == 0 && ip[1] == 0 && ip[2] == 0 && ip[3] == 0
}

fn is_v4_documentation(ip: &[u8; 4]) -> (answer: bool)
    ensures
        answer == v4_documentation(ip@),
{
    (ip[0] == 192 && ip[1] == 0 && ip[2] == 2) || (ip[0] == 198 && ip[1] == 51 && ip[2] == 100)
        || (ip[0] == 203 && ip[1] == 0 && ip[2] == 113)
}

fn is_v6_zero_but_last(ip: &[u8; 16]) -> (answer: bool)
    ensures
        answer == v6_zero_but_last(ip@),
{
    let mut i: usize = 0;
    while i < 15
        invariant
            i <= 15,
            forall|j: int| 0 <= j < i ==> #[trigger] ip@[j] == 0,
        decreases 15 - i,
    {
        if ip[i] != 0 {
            assert(ip@[i as int] != 0);
            return false;
        }
        i += 1;
    }
    true
}

fn is_v6_unspecified(ip: &[u8; 16]) -> (answer: bool)
    ensures
        answer == v6_unspecified(ip@),
{
    is_v6_zero_but_last(ip) && ip[15] == 0
}

impl IpAddress {
    pub fn is_unspecified(&self) -> (answer: bool)
        ensures
            answer == is_unspecified(self@),
    {
        match self {
            IpAddress::V4(ip) => is_v4_unspecified(ip),
            IpAddress::V6(ip) => is_v6_unspecified(ip),
        }
    }
}

/// Whether a peer may be dialled at the IP address.
pub fn is_dialable_peer_ip(ip: IpAddress) -> (answer: bool)
    ensures
        answer == is_dialable(ip@),
{
    match ip {
        IpAddress::V4(ip) => !is_v4_unspecified(&ip) && ip[0] != 127 && !(ip[0] == 169 && ip[1]
            == 254) && !(224 <= ip[0] && ip[0] <= 239) && !(ip[0] == 255 && ip[1] == 255 && ip[2]
            == 255 && ip[3] == 255) && !is_v4_documentation(&ip),
        IpAddress::V6(ip) => !(is_v6_zero_but_last(&ip) && ip[15] <= 1) && !(ip[0] == 0xfe && 0x80
            <= ip[1] && ip[1] <= 0xbf) && ip[0] != 0xff,
    }
}

/// Whether the IP address can be reached from elsewhere at all.
pub fn is_usable_remote_ip(ip: IpAddress) -> (answer: bool)
    ensures
        answer == is_usable(ip@),
{
    match ip {
        IpAddress::V4(ip) => !is_v4_unspecified(&ip) && ip[0] != 127,
        IpAddress::V6(ip) => !(is_v6_zero_but_last(&ip) && ip[15] <= 1),
    }
}

fn is_part_public(part: &Part) -> (answer: bool)
    ensures
        answer == is_public_part(part@),
{
    match part {
        Part::Ip4(ip) => !is_v4_unspecified(ip) && ip[0] != 127 && !(ip[0] == 10 || (ip[0] == 172
            && 16 <= ip[1] && ip[1] <= 31) || (ip[0] == 192 && ip[1] == 168)) && !(ip[0] == 169
            && ip[1] == 254) && !(224 <= ip[0] && ip[0] <= 239) && !is_v4_documentation(ip),
        Part::Ip6(ip) => !(is_v6_zero_but_last(ip) && ip[15] <= 1) && !(ip[0] == 0xfc || ip[0]
            == 0xfd) && !(ip[0] == 0xfe && 0x80 <= ip[1] && ip[1] <= 0xbf) && ip[0] != 0xff,
        Part::Dns(_) => true,
        Part::Dns4(_) => true,
        Part::Dns6(_) => true,
        _ => false,
    }
}

impl Address {
    pub fn duplicate(&self) -> (copy: Address)
        ensures
            copy@ == self@,
    {
        let mut parts: Vec<Part> = Vec::new();
        let mut i: usize = 0;
        while i < self.parts.len()
            invariant
                i <= self.parts@.len(),
                views(parts@) == self@.take(i as int),
            decreases self.parts@.len() - i,
        {
            let ghost before = parts@;
            parts.push(self.parts[i].duplicate());
            assert(views(parts@) =~= views(before).push(self@[i as int]));
            assert(self@.take(i + 1) =~= self@.take(i as int).push(self@[i as int]));
            i += 1;
        }
        assert(self@.take(i as int) =~= self@);
        Address { parts }
    }

    /// The address that the text stands for.
    pub fn parse(text: &str) -> (address: Option<Address>)
        ensures
            match address {
                Some(address) => parsed_address(text@) == Some(address@),
                None => parsed_address(text@) is None,
            },
    {
        match read_address(text) {
            Some(parts) => Some(Address { parts }),
            None => None,
        }
    }
}

/// Whether the address of a service is a public one.
pub fn service_address_is_public(address: &Address) -> (answer: bool)
    ensures
        answer == is_public(address@),
{
    let mut i: usize = 0;
    while i < address.parts.len()
        invariant
            i <= address.parts@.len(),
            forall|j: int| 0 <= j < i ==> !is_public_part(#[trigger] address@[j]),
        decreases address.parts@.len() - i,
    {
        if is_part_public(&address.parts[i]) {
            assert(is_public_part(address@[i as int]));
            return true;
        }
        i += 1;
    }
    false
}

/// The address without the peers that it names, and the last of them.
pub fn strip_p2p(address: &Address) -> (stripped: (Address, Option<String>))
    ensures
        stripped.0@ == without_peers(address@),
        match stripped.1 {
            Some(peer) => named_peer(address@) == Some(peer@),
            None => named_peer(address@) is None,
        },
{
    let mut parts: Vec<Part> = Vec::new();
    let mut peer: Option<String> = None;
    let mut i: usize = 0;
    assert(views(parts@) =~= without_peers(address@.take(0)));
    while i < address.parts.len()
        invariant
            i <= address.parts@.len(),
            views(parts@) == without_peers(address@.take(i as int)),
            match peer {
                Some(peer) => named_peer(address@.take(i as int)) == Some(peer@),
                None => named_peer(address@.take(i as int)) is None,
            },
        decreases address.parts@.len() - i,
    {
        let ghost so_far = address@.take(i + 1);
        assert(so_far.drop_last() =~= address@.take(i as int));
        assert(so_far.last() == address.parts@[i as int]@);
        let ghost before = parts@;
        match &address.parts[i] {
            Part::P2p(value) => {
                peer = Some(value.clone());
            },
            other => {
                parts.push(other.duplicate());
                assert(views(parts@) =~= views(before).push(so_far.last()));
            },
        }
        i += 1;
    }
    assert(address@.take(i as int) =~= address@);
    (Address { parts }, peer)
}

/// The peer that the address of the pairing service names.
pub fn peer_id_from_service_addr(address: &Address) -> (peer: Result<String, ServiceAddressError>)
    ensures
        match peer {
            Ok(peer) => named_peer(address@) == Some(peer@),
            Err(error) => error == ServiceAddressError::Incomplete && named_peer(address@) is None,
        },
{
    match strip_p2p(address).1 {
        Some(peer) => Ok(peer),
        None => Err(ServiceAddressError::Incomplete),
    }
}

/// The address of the pairing service that a configured text stands for: it names the
/// service's peer and is a public one.
pub fn service_address(text: &str) -> (address: Result<Address, ServiceAddressError>)
    ensures
        match address {
            Ok(address) => {
                &&& parsed_address(text@) == Some(address@)
                &&& named_peer(address@) is Some
                &&& is_public(address@)
            },
            Err(ServiceAddressError::Invalid) => parsed_address(text@) is None,
            Err(ServiceAddressError::Incomplete) => {
                &&& parsed_address(text@) is Some
                &&& named_peer(parsed_address(text@)->0) is None
            },
            Err(ServiceAddressError::NotPublic) => {
                &&& parsed_address(text@) is Some
                &&& named_peer(parsed_address(text@)->0) is Some
                &&& !is_public(parsed_address(text@)->0)
            },
        },
{
    match Address::parse(text) {
        None => Err(ServiceAddressError::Invalid),
        Some(address) => match peer_id_from_service_addr(&address) {
            Err(error) => Err(error),
            Ok(_) => if service_address_is_public(&address) {
                Ok(address)
            } else {
                Err(ServiceAddressError::NotPublic)
            },
        },
    }
}

/// What is left of the address for dialling a peer directly.
pub fn sanitize_direct_address(address: &Address) -> (direct: Option<Vec<DirectPart>>)
    ensures
        match direct {
            Some(parts) => sanitized(address@) == Some(views(parts@)),
            None => sanitized(address@) is None,
        },
{
    let mut direct: Vec<DirectPart> = Vec::new();
    let mut has_usable_ip = false;
    let mut has_transport = false;
    let mut i: usize = 0;
    assert(views(direct@) =~= direct_parts(address@.take(0)));
    while i < address.parts.len()
        invariant
            i <= address.parts@.len(),
            views(direct@) == direct_parts(address@.take(i as int)),
            has_usable_ip == has_ip(views(direct@)),
            has_transport == has_tcp(views(direct@)),
            forall|j: int| 0 <= j < i ==> !(#[trigger] address@[j] is P2pCircuit),
        decreases address.parts@.len() - i,
    {
        let ghost so_far = address@.take(i + 1);
        let ghost before = views(direct@);
        assert(so_far.drop_last() =~= address@.take(i as int));
        assert(so_far.last() == address.parts@[i as int]@);
        match &address.parts[i] {
            Part::P2pCircuit => {
                assert(address@[i as int] is P2pCircuit);
                return None;
            },
            Part::Ip4(ip) => {
                if is_dialable_peer_ip(IpAddress::V4(*ip)) {
                    has_usable_ip = true;
                    direct.push(DirectPart::Ip4(*ip));
                    proof {
                        lemma_direct_push(before, DirectPartView::Ip4(ip@));
                        assert(views(direct@) =~= before.push(DirectPartView::Ip4(ip@)));
                    }
                }
            },
            Part::Ip6(ip) => {
                if is_dialable_peer_ip(IpAddress::V6(*ip)) {
                    has_usable_ip = true;
                    direct.push(DirectPart::Ip6(*ip));
                    proof {
                        lemma_direct_push(before, DirectPartView::Ip6(ip@));
                        assert(views(direct@) =~= before.push(DirectPartView::Ip6(ip@)));
                    }
                }
            },
            Part::Tcp(port) => {
                has_transport = true;
                direct.push(DirectPart::Tcp(*port));
                proof {
                    lemma_direct_push(before, DirectPartView::Tcp(*port));
                    assert(views(direct@) =~= before.push(DirectPartView::Tcp(*port)));
                }
            },
            _ => {},
        }
        i += 1;
    }
    assert(address@.take(i as int) =~= address@);
    if has_usable_ip && has_transport {
        Some(direct)
    } else {
        None
    }
}

proof fn lemma_direct_push(parts: Seq<DirectPartView>, part: DirectPartView)
    ensures
        has_ip(parts.push(part)) == (has_ip(parts) || !(part is Tcp)),
        has_tcp(parts.push(part)) == (has_tcp(parts) || part is Tcp),
{
    let more = parts.push(part);
    assert(more[parts.len() as int] == part);
    if has_ip(parts) {
        let i = choose|i: int| 0 <= i < parts.len() && !(#[trigger] parts[i] is Tcp);
        assert(!(more[i] is Tcp));
    }
    if has_tcp(parts) {
        let i = choose|i: int| 0 <= i < parts.len() && #[trigger] parts[i] is Tcp;
        assert(more[i] is Tcp);
    }
    if has_ip(more) && part is Tcp {
        let i = choose|i: int| 0 <= i < more.len() && !(#[trigger] more[i] is Tcp);
        assert(!(parts[i] is Tcp));
    }
    if has_tcp(more) && !(part is Tcp) {
        let i = choose|i: int| 0 <= i < more.len() && #[trigger] more[i] is Tcp;
        assert(parts[i] is Tcp);
    }
}

/// Every IP address of a direct address may be dialled.
pub open spec fn all_dialable(parts: Seq<DirectPartView>) -> bool {
    forall|i: int| 0 <= i < parts.len() ==> match #[trigger] parts[i] {
        DirectPartView::Ip4(ip) => is_dialable(IpView::V4(ip)),
        DirectPartView::Ip6(ip) => is_dialable(IpView::V6(ip)),
        DirectPartView::Tcp(_) => true,
    }
}

proof fn lemma_direct_parts_are_dialable(address: Seq<PartView>)
    ensures
        all_dialable(direct_parts(address)),
    decreases address.len(),
{
    if address.len() > 0 {
        lemma_direct_parts_are_dialable(address.drop_last());
    }
}

proof fn lemma_dialable_parts_stay(parts: Seq<DirectPartView>)
    requires
        all_dialable(parts),
    ensures
        direct_parts(as_parts(parts)) == parts,
        !is_relayed(as_parts(parts)),
    decreases parts.len(),
{
    let address = as_parts(parts);
    if parts.len() > 0 {
        let before = parts.drop_last();
        assert(all_dialable(before)) by {
            assert forall|i: int| 0 <= i < before.len() implies match #[trigger] before[i] {
                DirectPartView::Ip4(ip) => is_dialable(IpView::V4(ip)),
                DirectPartView::Ip6(ip) => is_dialable(IpView::V6(ip)),
                DirectPartView::Tcp(_) => true,
            } by {
                assert(before[i] == parts[i]);
            }
        }
        lemma_dialable_parts_stay(before);
        assert(address.drop_last() =~= as_parts(before));
        assert(address.last() == as_part(parts[parts.len() - 1]));
        assert(before.push(parts.last()) =~= parts);
    } else {
        assert(parts =~= Seq::<DirectPartView>::empty());
    }
    assert forall|i: int| 0 <= i < address.len() implies !(#[trigger] address[i] is P2pCircuit) by {
        assert(address[i] == as_part(parts[i]));
    }
}

/// What is left of an address for dialling directly has only dialable IP addresses, at
/// least one of them, and is let through unchanged from then on.
pub proof fn law_sanitized_address_is_dialable(address: Seq<PartView>)
    requires
        sanitized(address) is Some,
    ensures
        all_dialable(sanitized(address)->0),
        has_ip(sanitized(address)->0),
        sanitized(as_parts(sanitized(address)->0)) == sanitized(address),
{
    lemma_direct_parts_are_dialable(address);
    lemma_dialable_parts_stay(direct_parts(address));
}

/// What is left of the text of an address for dialling a peer directly. What comes out is
/// let through unchanged from then on.
pub fn sanitize_direct_address_text(address: &str) -> (text: Option<String>)
    ensures
        match text {
            Some(text) => {
                &&& sanitized_text(address@) == Some(text@)
                &&& sanitized_text(text@) == Some(text@)
            },
            None => sanitized_text(address@) is None,
        },
{
    match Address::parse(address) {
        None => None,
        Some(parsed) => match sanitize_direct_address(&parsed) {
            None => None,
            Some(direct) => {
                let text = write_direct_address(direct.as_slice());
                proof {
                    law_sanitized_address_is_dialable(parsed@);
                }
                Some(text)
            },
        },
    }
}

/// The texts that are left of the list, in order.
pub fn sanitize_all(addresses: &Vec<String>) -> (kept: Vec<String>)
    ensures
        views(kept@) == sanitized_texts(views(addresses@)),
{
    let mut kept: Vec<String> = Vec::new();
    let mut i: usize = 0;
    assert(views(kept@) =~= sanitized_texts(views(addresses@).take(0)));
    while i < addresses.len()
        invariant
            i <= addresses@.len(),
            views(kept@) == sanitized_texts(views(addresses@).take(i as int)),
        decreases addresses@.len() - i,
    {
        let ghost so_far = views(addresses@).take(i + 1);
        let ghost before = kept@;
        assert(so_far.drop_last() =~= views(addresses@).take(i as int));
        assert(so_far.last() == addresses@[i as int]@);
        if let Some(text) = sanitize_direct_address_text(addresses[i].as_str()) {
            kept.push(text);
            assert(views(kept@) =~= views(before).push(text@));
        }
        i += 1;
    }
    assert(views(addresses@).take(i as int) =~= views(addresses@));
    kept
}

/// The address under which a listener is published, on a machine with the IP address
/// `lan` in its network.
pub fn direct_address_from_listener(address: &Address, lan: Option<IpAddress>) -> (direct: Option<
    Vec<DirectPart>,
>)
    ensures
        match direct {
            Some(parts) => published(
                address@,
                match lan {
                    Some(lan) => Some(lan@),
                    None => None,
                },
            ) == Some(views(parts@)),
            None => published(
                address@,
                match lan {
                    Some(lan) => Some(lan@),
                    None => None,
                },
            ) is None,
        },
{
    let ghost lan_view: Option<IpView> = match lan {
        Some(lan) => Some(lan@),
        None => None,
    };
    let mut direct: Vec<DirectPart> = Vec::new();
    let mut has_usable_ip = false;
    let mut has_transport = false;
    let mut i: usize = 0;
    assert(views(direct@) =~= Seq::<DirectPartView>::empty());
    assert(address@.take(0) =~= Seq::<PartView>::empty());
    while i < address.parts.len()
        invariant
            i <= address.parts@.len(),
            lan_view == (match lan {
                Some(lan) => Some(lan@),
                None => None,
            }),
            listener_parts(address@.take(i as int), lan_view) == Some(views(direct@)),
            has_usable_ip == has_ip(views(direct@)),
            has_transport == has_tcp(views(direct@)),
        decreases address.parts@.len() - i,
    {
        let ghost so_far = address@.take(i + 1);
        let ghost before = views(direct@);
        assert(so_far.drop_last() =~= address@.take(i as int));
        assert(so_far.last() == address.parts@[i as int]@);
        let added: Option<DirectPart> = match &address.parts[i] {
            Part::Ip4(ip) => {
                if is_v4_unspecified(ip) {
                    match lan {
                        Some(IpAddress::V4(lan)) => Some(DirectPart::Ip4(lan)),
                        _ => {
                            proof {
                                lemma_unpublished(address@, i + 1, lan_view);
                            }
                            return None;
                        },
                    }
                } else if is_usable_remote_ip(IpAddress::V4(*ip)) {
                    Some(DirectPart::Ip4(*ip))
                } else {
                    None
                }
            },
            Part::Ip6(ip) => {
                if is_v6_unspecified(ip) {
                    proof {
                        lemma_unpublished(address@, i + 1, lan_view);
                    }
                    return None;
                } else if is_usable_remote_ip(IpAddress::V6(*ip)) {
                    Some(DirectPart::Ip6(*ip))
                } else {
                    None
                }
            },
            Part::Tcp(port) => Some(DirectPart::Tcp(*port)),
            _ => None,
        };
        if let Some(part) = added {
            proof {
                lemma_direct_push(before, part@);
            }
            match part {
                DirectPart::Tcp(_) => {
                    has_transport = true;
                },
                _ => {
                    has_usable_ip = true;
                },
            }
            direct.push(part);
            assert(views(direct@) =~= before.push(part@));
        }
        i += 1;
    }
    assert(address@.take(i as int) =~= address@);
    if has_usable_ip && has_transport {
        Some(direct)
    } else {
        None
    }
}

proof fn lemma_unpublished(address: Seq<PartView>, end: int, lan: Option<IpView>)
    requires
        0 <= end <= address.len(),
        listener_parts(address.take(end), lan) is None,
    ensures
        listener_parts(address, lan) is None,
    decreases address.len() - end,
{
    if end == address.len() {
        assert(address.take(end) =~= address);
    } else {
        assert(address.take(end + 1).drop_last() =~= address.take(end));
        lemma_unpublished(address, end + 1, lan);
    }
}

/// The text of a direct address.
pub fn direct_address_text(parts: &Vec<DirectPart>) -> (text: String)
    ensures
        text@ == direct_text(views(parts@)),
{
    write_direct_address(parts.as_slice())
}

/// The address on which a client listens for direct connections: any port of its IP
/// address.
pub fn direct_listen_address(ip: IpAddress) -> (address: Address)
    ensures
        address@ == seq![
            match ip@ {
                IpView::V4(octets) => PartView::Ip4(octets),
                IpView::V6(octets) => PartView::Ip6(octets),
            },
            PartView::Tcp(0),
        ],
{
    let mut parts: Vec<Part> = Vec::new();
    match ip {
        IpAddress::V4(octets) => parts.push(Part::Ip4(octets)),
        IpAddress::V6(octets) => parts.push(Part::Ip6(octets)),
    }
    parts.push(Part::Tcp(0));
    let address = Address { parts };
    assert(address@ =~= seq![
        match ip@ {
            IpView::V4(octets) => PartView::Ip4(octets),
            IpView::V6(octets) => PartView::Ip6(octets),
        },
        PartView::Tcp(0),
    ]);
    address
}

/// The address that asks a relay for a reservation.
pub fn relay_listen_address(relay: &Address) -> (address: Address)
    ensures
        address@ == relay@.push(PartView::P2pCircuit),
{
    let mut address = relay.duplicate();
    let ghost before = address.parts@;
    address.parts.push(Part::P2pCircuit);
    assert(address@ =~= views(before).push(PartView::P2pCircuit));
    address
}

/// The address of a peer through a relay.
pub fn relay_dial_address(relay: &Address, target_peer_id: &str) -> (address: Address)
    ensures
        address@ == through_relay(relay@, target_peer_id@),
{
    let mut address = relay_listen_address(relay);
    let ghost before = address.parts@;
    address.parts.push(Part::P2p(copy_text(target_peer_id)));
    assert(address@ =~= views(before).push(PartView::P2p(target_peer_id@)));
    address
}

/// The addresses of a peer through those relays that name themselves.
pub fn relay_dial_addresses(relay_peers: &Vec<Address>, target_peer_id: &str) -> (addresses: Vec<
    Address,
>)
    ensures
        views(addresses@) == through_relays(views(relay_peers@), target_peer_id@),
{
    let mut addresses: Vec<Address> = Vec::new();
    let mut i: usize = 0;
    assert(views(addresses@) =~= through_relays(views(relay_peers@).take(0), target_peer_id@));
    while i < relay_peers.len()
        invariant
            i <= relay_peers@.len(),
            views(addresses@) == through_relays(
                views(relay_peers@).take(i as int),
                target_peer_id@,
            ),
        decreases relay_peers@.len() - i,
    {
        let ghost so_far = views(relay_peers@).take(i + 1);
        let ghost before = addresses@;
        assert(so_far.drop_last() =~= views(relay_peers@).take(i as int));
        assert(so_far.last() == relay_peers@[i as int]@);
        if strip_p2p(&relay_peers[i]).1.is_some() {
            let address = relay_dial_address(&relay_peers[i], target_peer_id);
            addresses.push(address);
            assert(views(addresses@) =~= views(before).push(address@));
        }
        i += 1;
    }
    assert(views(relay_peers@).take(i as int) =~= views(relay_peers@));
    addresses
}

/// The address that says where an application listens.
pub fn socket_to_app_multiaddr(socket: SocketAddress) -> (address: Address)
    ensures
        address@ == seq![
            match socket.ip@ {
                IpView::V4(octets) => PartView::Ip4(octets),
                IpView::V6(octets) => PartView::Ip6(octets),
            },
            PartView::Udp(socket.port),
        ],
{
    let mut parts: Vec<Part> = Vec::new();
    match socket.ip {
        IpAddress::V4(octets) => parts.push(Part::Ip4(octets)),
        IpAddress::V6(octets) => parts.push(Part::Ip6(octets)),
    }
    parts.push(Part::Udp(socket.port));
    let address = Address { parts };
    assert(address@ =~= seq![
        match socket.ip@ {
            IpView::V4(octets) => PartView::Ip4(octets),
            IpView::V6(octets) => PartView::Ip6(octets),
        },
        PartView::Udp(socket.port),
    ]);
    address
}

/// Where the application of a peer listens, by an address that it published and the IP
/// address at which the peer was found.
pub fn socket_from_app_multiaddr(address: &Address, fallback_ip: Option<IpAddress>) -> (socket:
    Result<SocketAddress, AppAddressError>)
    ensures
        match socket {
            Ok(socket) => app_socket(
                address@,
                match fallback_ip {
                    Some(ip) => Some(ip@),
                    None => None,
                },
            ) == Ok::<(IpView, u16), AppAddressError>((socket.ip@, socket.port)),
            Err(error) => app_socket(
                address@,
                match fallback_ip {
                    Some(ip) => Some(ip@),
                    None => None,
                },
            ) == Err::<(IpView, u16), AppAddressError>(error),
        },
{
    let mut ip: Option<IpAddress> = None;
    let mut port: Option<u16> = None;
    let mut i: usize = 0;
    while i < address.parts.len()
        invariant
            i <= address.parts@.len(),
            match ip {
                Some(ip) => last_ip(address@.take(i as int)) == Some(ip@),
                None => last_ip(address@.take(i as int)) is None,
            },
            port == last_port(address@.take(i as int)),
        decreases address.parts@.len() - i,
    {
        let ghost so_far = address@.take(i + 1);
        assert(so_far.drop_last() =~= address@.take(i as int));
        assert(so_far.last() == address.parts@[i as int]@);
        match &address.parts[i] {
            Part::Ip4(value) => {
                ip = Some(IpAddress::V4(*value));
            },
            Part::Ip6(value) => {
                ip = Some(IpAddress::V6(*value));
            },
            Part::Udp(value) => {
                port = Some(*value);
            },
            _ => {},
        }
        i += 1;
    }
    assert(address@.take(i as int) =~= address@);
    let mut ip = match ip {
        Some(ip) => ip,
        None => {
            return Err(AppAddressError::MissingIp);
        },
    };
    if ip.is_unspecified() {
        match fallback_ip {
            Some(fallback) => {
                ip = fallback;
            },
            None => {
                return Err(AppAddressError::UnknownPeerIp);
            },
        }
    }
    match port {
        Some(port) => Ok(SocketAddress { ip, port }),
        None => Err(AppAddressError::MissingPort),
    }
}

/// The first IP address in the address that does not stand for any.
pub fn multiaddr_ip(address: &Address) -> (ip: Option<IpAddress>)
    ensures
        match ip {
            Some(ip) => first_ip(address@) == Some(ip@),
            None => first_ip(address@) is None,
        },
{
    let mut i: usize = 0;
    assert(address@.skip(0) =~= address@);
    while i < address.parts.len()
        invariant
            i <= address.parts@.len(),
            first_ip(address@) == first_ip(address@.skip(i as int)),
        decreases address.parts@.len() - i,
    {
        assert(address@.skip(i as int)[0] == address.parts@[i as int]@);
        assert(address@.skip(i as int).drop_first() =~= address@.skip(i + 1));
        match &address.parts[i] {
            Part::Ip4(ip) => {
                if !is_v4_unspecified(ip) {
                    return Some(IpAddress::V4(*ip));
                }
            },
            Part::Ip6(ip) => {
                if !is_v6_unspecified(ip) {
                    return Some(IpAddress::V6(*ip));
                }
            },
            _ => {},
        }
        i += 1;
    }
    None
}

/// An application's own address is read back: its socket if it listens at a certain IP
/// address, else its port at the IP address where the peer was found.
pub proof fn law_app_address_is_read_back(ip: IpView, port: u16, fallback: Option<IpView>)
    ensures
        ({
            let part = match ip {
                IpView::V4(octets) => PartView::Ip4(octets),
                IpView::V6(octets) => PartView::Ip6(octets),
            };
            let address = seq![part, PartView::Udp(port)];
            &&& !is_unspecified(ip) ==> app_socket(address, fallback) == Ok::<
                (IpView, u16),
                AppAddressError,
            >((ip, port))
            &&& is_unspecified(ip) && fallback is Some ==> app_socket(address, fallback) == Ok::<
                (IpView, u16),
                AppAddressError,
            >((fallback->0, port))
        }),
{
    let part = match ip {
        IpView::V4(octets) => PartView::Ip4(octets),
        IpView::V6(octets) => PartView::Ip6(octets),
    };
    let address = seq![part, PartView::Udp(port)];
    assert(address.drop_last() =~= seq![part]);
    assert(last_ip(seq![part]) == Some(ip));
    assert(last_ip(address) == last_ip(address.drop_last()));
    assert(last_port(address) == Some(port));
}

/// A relay's address names the peer that is reached through it, not the relay.
pub proof fn law_relay_address_names_target(relay: Seq<PartView>, peer: Seq<char>)
    ensures
        named_peer(through_relay(relay, peer)) == Some(peer),
        is_relayed(through_relay(relay, peer)),
        sanitized(through_relay(relay, peer)) is None,
{
    let address = through_relay(relay, peer);
    assert(address[relay.len() as int] is P2pCircuit);
}

} // verus!
