//! Quality of Service server implementation, this is a pretty crude implementation
//! but it at least allows clients to sometimes obtain the correct address, usually
//! the server can fix it

use vstd::prelude::*;

use crate::address::{ipv4_text, law_ipv4_text_tells_address, parse_ipv4};
use crate::text::{characters, law_trimmed, remove_all, trim, trimmed, white_space};
use crate::wire::be16_bytes;

verus! {

/// The size of the buffer for reading incoming messages
pub const READ_BUFFER_LENGTH: usize = 4096;

/// Cache public address for 30 minutes, in nanoseconds
pub const ADDR_CACHE_TIME: i128 = 1_800_000_000_000;

/// Number of APIs for IP lookup
pub const LOOKUP_COUNT: usize = 2;

/// The address that stands for none
pub const UNSPECIFIED: [u8; 4] = [0, 0, 0, 0];

/// What is sent back for a message: the message, then the address and the port
/// of the client, then four bytes of padding
pub open spec fn response_bytes(message: Seq<u8>, address: Seq<u8>, port: u16) -> Seq<u8> {
    message + address + be16_bytes(port) + seq![0u8, 0, 0, 0]
}

/// Creates the response to a message
///
/// ## Arguments
/// * `message` - The bytes received from the client
/// * `address` - The address to tell the client, its own if that is not known
/// * `own`     - The IPv4 address that the message came from, none if it came
///               from an address of another kind
/// * `port`    - The port that the message came from
pub fn create_response(
    message: &[u8],
    address: Option<[u8; 4]>,
    own: Option<[u8; 4]>,
    port: u16,
) -> (output: Vec<u8>)
    ensures
        output@ == response_bytes(message@, told_address(address, own)@, port),
{
    // Extract the IPv4 address from the socket address (Fallback to 0.0.0.0)
    let own: [u8; 4] = match own {
        Some(own) => own,
        None => UNSPECIFIED,
    };
    let address: [u8; 4] = match address {
        Some(address) => address,
        None => own,
    };
    let mut output: Vec<u8> = Vec::new();
    output.extend_from_slice(message);
    output.extend_from_slice(&address);
    output.push((port / 0x100) as u8);
    output.push((port % 0x100) as u8);
    output.extend_from_slice(&[0, 0, 0, 0]);
    assert(output@ =~= response_bytes(message@, address@, port));
    output
}

/// The address that a client is told: the public one, else the one its message
/// came from, else 0.0.0.0
pub open spec fn told_address(address: Option<[u8; 4]>, own: Option<[u8; 4]>) -> [u8; 4] {
    match (address, own) {
        (Some(address), _) => address,
        (None, Some(own)) => own,
        (None, None) => UNSPECIFIED,
    }
}

/// What an API for IP lookup says with its response: the text without the white
/// space around it and without line breaks
pub open spec fn lookup_text(response: Seq<char>) -> Seq<char> {
    trimmed(response).filter(|character: char| character != '\n')
}

/// The address that the response of an API for IP lookup gives, if it gives one
pub open spec fn given_address(response: Seq<char>) -> Option<[u8; 4]> {
    if exists|address: [u8; 4]| lookup_text(response) == ipv4_text(address@) {
        Some(choose|address: [u8; 4]| lookup_text(response) == ipv4_text(address@))
    } else {
        None
    }
}

/// A response that is the text form of an address gives that address
pub proof fn law_given_address(response: Seq<char>, address: [u8; 4])
    requires
        lookup_text(response) == ipv4_text(address@),
    ensures
        given_address(response) == Some(address),
{
    let given = given_address(response)->0;
    law_ipv4_text_tells_address(given@, address@);
    assert(given =~= address);
}

/// Provides the address that the response of an API for IP lookup gives
///
/// ## Arguments
/// * `response` - The text of the response
pub fn address_in(response: &str) -> (address: Option<[u8; 4]>)
    ensures
        address == given_address(response@),
{
    let text = trim(&characters(response));
    let text = remove_all(&text, '\n');
    let address = parse_ipv4(&text);
    proof {
        match address {
            Some(address) => {
                law_given_address(response@, address);
            },
            None => {
                assert forall|address: [u8; 4]| lookup_text(response@) != ipv4_text(address@) by {
                    assert(address@.len() == 4);
                }
            },
        }
    }
    address
}

/// Provides the URL of an API for IP lookup
///
/// ## Arguments
/// * `index` - The number of the API
pub fn lookup_url(index: usize) -> (url: &'static str)
    requires
        index < LOOKUP_COUNT,
    ensures
        url@ == (if index == 0 {
            "https://api.ipify.org/"@
        } else {
            "https://ipv4.icanhazip.com/"@
        }),
{
    if index == 0 {
        "https://api.ipify.org/"
    } else {
        "https://ipv4.icanhazip.com/"
    }
}

/// The lookup of the public address: all APIs are tried using the first valid
/// value, and without any the local address is used
#[derive(Debug, Clone, Copy, PartialEq, Eq)]
pub enum AddressLookup {
    /// The response of the API with the number is needed
    Api(usize),
    /// The local address is needed
    Local,
    /// The lookup is complete, without an address if there was none
    Done(Option<[u8; 4]>),
}

impl AddressLookup {
    /// Whether the lookup can be in this state
    pub open spec fn well_formed(self) -> bool {
        self matches AddressLookup::Api(index) ==> index < LOOKUP_COUNT
    }

    /// The lookup after an API gave an address, or gave none
    pub open spec fn after_api(self, address: Option<[u8; 4]>) -> AddressLookup {
        match address {
            Some(_) => AddressLookup::Done(address),
            None => if self->Api_0 + 1 < LOOKUP_COUNT {
                AddressLookup::Api((self->Api_0 + 1) as usize)
            } else {
                AddressLookup::Local
            },
        }
    }

    /// Starts with the first API
    pub fn new() -> (lookup: AddressLookup)
        ensures
            lookup == AddressLookup::Api(0),
            lookup.well_formed(),
    {
        AddressLookup::Api(0)
    }

    /// Takes the text of the response of the API that is asked, or none if there
    /// was no response, and provides how the lookup goes on
    pub fn api_response(self, response: Option<&str>) -> (next: AddressLookup)
        requires
            self is Api,
            self.well_formed(),
        ensures
            next.well_formed(),
            next == self.after_api(
                match response {
                    Some(response) => given_address(response@),
                    None => None,
                },
            ),
    {
        let address: Option<[u8; 4]> = match response {
            Some(response) => address_in(response),
            None => None,
        };
        match (self, address) {
            (_, Some(_)) => AddressLookup::Done(address),
            (AddressLookup::Api(index), None) => if index + 1 < LOOKUP_COUNT {
                AddressLookup::Api(index + 1)
            } else {
                // If we couldn't connect to any IP services its likely
                // we don't have internet lets try using our local address
                AddressLookup::Local
            },
            _ => self,
        }
    }

    /// Takes the local address, or none if it is not known or is no IPv4 address
    pub fn local_address(self, address: Option<[u8; 4]>) -> (next: AddressLookup)
        requires
            self is Local,
        ensures
            next == AddressLookup::Done(address),
    {
        AddressLookup::Done(address)
    }
}

/// Caching structure for the public address value
#[derive(Debug, Clone, Copy, PartialEq, Eq)]
pub enum PublicAddrCache {
    /// The value hasn't yet been computed
    Unset,
    /// The value has been computed
    Known {
        /// The public address value
        value: [u8; 4],
        /// The system time the cache expires at, in nanoseconds
        expires: i128,
    },
}

impl PublicAddrCache {
    /// The cached value at a time, if it is not expired
    pub open spec fn at(self, time: i128) -> Option<[u8; 4]> {
        match self {
            PublicAddrCache::Known { value, expires } => if time < expires {
                Some(value)
            } else {
                None
            },
            PublicAddrCache::Unset => None,
        }
    }

    /// The cache after a lookup at a time found an address, or found none
    pub open spec fn updated(self, address: Option<[u8; 4]>, time: i128) -> PublicAddrCache {
        match address {
            Some(value) => PublicAddrCache::Known {
                value,
                expires: (time + ADDR_CACHE_TIME) as i128,
            },
            None => self,
        }
    }

    /// Provides the cached value if it is not expired
    ///
    /// ## Arguments
    /// * `time` - The system time, in nanoseconds
    pub fn get(&self, time: i128) -> (value: Option<[u8; 4]>)
        ensures
            value == self.at(time),
    {
        match *self {
            PublicAddrCache::Known { value, expires } => if time < expires {
                Some(value)
            } else {
                None
            },
            PublicAddrCache::Unset => None,
        }
    }

    /// Update cached value with the address that was found. A lookup that found
    /// none leaves the cache as it is.
    ///
    /// ## Arguments
    /// * `address` - The address that was found
    /// * `time`    - The system time, in nanoseconds
    pub fn update(&mut self, address: Option<[u8; 4]>, time: i128)
        requires
            time <= i128::MAX - ADDR_CACHE_TIME,
        ensures
            *final(self) == (match address {
                Some(value) => PublicAddrCache::Known {
                    value,
                    expires: (time + ADDR_CACHE_TIME) as i128,
                },
                None => *old(self),
            }),
            *final(self) == old(self).updated(address, time),
    {
        if let Some(value) = address {
            *self = PublicAddrCache::Known { value, expires: time + ADDR_CACHE_TIME };
        }
    }
}

/// The address that a lookup finds when the APIs give the first two addresses
/// and the local address is the third
pub open spec fn found_address(
    first: Option<[u8; 4]>,
    second: Option<[u8; 4]>,
    local: Option<[u8; 4]>,
) -> Option<[u8; 4]> {
    match AddressLookup::Api(0).after_api(first) {
        AddressLookup::Done(address) => address,
        lookup => match lookup.after_api(second) {
            AddressLookup::Done(address) => address,
            _ => local,
        },
    }
}

/// The lookup uses the address of the first API that gives one, and the local
/// address if none does
pub proof fn law_lookup_uses_first(
    first: Option<[u8; 4]>,
    second: Option<[u8; 4]>,
    local: Option<[u8; 4]>,
)
    ensures
        first is Some ==> found_address(first, second, local) == first,
        first is None && second is Some ==> found_address(first, second, local) == second,
        first is None && second is None ==> found_address(first, second, local) == local,
{
}

/// An address that was found is used for 30 minutes, and not any longer
pub proof fn law_address_is_cached(cache: PublicAddrCache, value: [u8; 4], time: i128, later: i128)
    requires
        time <= i128::MAX - ADDR_CACHE_TIME,
        cache == (PublicAddrCache::Known { value, expires: (time + ADDR_CACHE_TIME) as i128 }),
    ensures
        later - time < 1_800_000_000_000 ==> cache.at(later) == Some(value),
        later - time >= 1_800_000_000_000 ==> cache.at(later) is None,
{
}

/// Where the parts of a response stand: the message comes back unchanged, then the
/// four octets of the address and the big-endian port, then four zeros
pub proof fn law_response_layout(message: Seq<u8>, address: [u8; 4], port: u16)
    ensures
        ({
            let output = response_bytes(message, address@, port);
            let length = message.len() as int;
            &&& output.len() == length + 10
            &&& output.take(length) == message
            &&& output.subrange(length, length + 4) == address@
            &&& output[length + 4] * 256 + output[length + 5] == port
            &&& output.skip(length + 6) == seq![0u8, 0, 0, 0]
        }),
{
    let output = response_bytes(message, address@, port);
    let length = message.len() as int;
    assert(output.take(length) =~= message);
    assert(output.subrange(length, length + 4) =~= address@);
    assert(output.skip(length + 6) =~= seq![0u8, 0, 0, 0]);
}

/// A client is told the public address whenever that is known, else the address
/// its message came from, else 0.0.0.0
pub proof fn law_told_address(address: [u8; 4], own: Option<[u8; 4]>, sender: [u8; 4])
    ensures
        told_address(Some(address), own) == address,
        told_address(None, Some(sender)) == sender,
        told_address(None, None)@ == seq![0u8, 0, 0, 0],
{
    assert(told_address(None, None)@ =~= seq![0u8, 0, 0, 0]);
}

/// White space around what an API says does not count, and neither do line breaks
/// within it. Everything else does.
pub proof fn law_lookup_text(lead: Seq<char>, inner: Seq<char>, trail: Seq<char>)
    requires
        forall|i: int| 0 <= i < lead.len() ==> white_space(#[trigger] lead[i]),
        forall|i: int| 0 <= i < trail.len() ==> white_space(#[trigger] trail[i]),
        inner.len() > 0 ==> !white_space(inner[0]) && !white_space(inner.last()),
    ensures
        lookup_text(lead + inner + trail) == inner.filter(|character: char| character != '\n'),
{
    law_trimmed(lead, inner, trail);
}

/// An address is only given by a response that is its text form
pub proof fn law_given_address_is_said(response: Seq<char>)
    ensures
        given_address(response) is Some ==> lookup_text(response) == ipv4_text(
            given_address(response)->0@,
        ),
{
}

/// An API that gives an address ends the lookup with it. The first one that gives
/// none is followed by the second, and that by the local address.
pub proof fn law_lookup_steps(index: usize, address: [u8; 4])
    requires
        index < 2,
    ensures
        AddressLookup::Api(index).well_formed(),
        AddressLookup::Api(index).after_api(Some(address)) == AddressLookup::Done(Some(address)),
        AddressLookup::Api(0).after_api(None) == AddressLookup::Api(1),
        AddressLookup::Api(1).after_api(None) is Local,
        AddressLookup::Local.well_formed(),
{
}

/// A cached address is used exactly until it expires, and there is none before the
/// first
pub proof fn law_cached_address(value: [u8; 4], expires: i128, time: i128)
    ensures
        PublicAddrCache::Unset.at(time) is None,
        time < expires ==> (PublicAddrCache::Known { value, expires }).at(time) == Some(value),
        time >= expires ==> (PublicAddrCache::Known { value, expires }).at(time) is None,
{
}

/// An address that was found replaces whatever was cached and expires 30 minutes
/// later, and without one the cache stays as it is
pub proof fn law_updated_cache(cache: PublicAddrCache, value: [u8; 4], time: i128, later: i128)
    requires
        time <= i128::MAX - ADDR_CACHE_TIME,
    ensures
        cache.updated(None, time) == cache,
        cache.updated(Some(value), time).at(later) == Some(value) <==> later - time
            < 1_800_000_000_000,
        later - time >= 1_800_000_000_000 ==> cache.updated(Some(value), time).at(later) is None,
{
}

} // verus!
