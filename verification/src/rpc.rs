//! The two calls of the ping-pong peers, and how their routes are written.
use vstd::prelude::*;

use crate::benchmark::MAX_DOWNLOAD;
use crate::text::{decimal, decimal_text, parse, parsed, same_text, strip_prefix};

verus! {

/// How many bytes a stream of the ping-pong peers may hold that were not sent yet, and how
/// many may come before they are read.
pub const STREAM_BUFFER: usize = 256 * 1024;

/// How many times each of the ping-pong peers pings the other.
pub const ROUNDS: u64 = 3;

/// How many bytes the first transfer in each direction holds.
pub const SMALL_TRANSFER: usize = 1024 * 1024;

/// How many bytes the second transfer in each direction holds.
pub const LARGE_TRANSFER: usize = 8 * 1024 * 1024;

/// How many seconds the ping-pong peers have for all they do.
pub const EXCHANGE_TIMEOUT: u64 = 180;

/// The route of a call, one byte on the wire.
#[derive(Clone, Copy, Debug, PartialEq, Eq, PartialOrd, Ord, Structural)]
pub struct Key(pub u8);

/// The call that is answered with a pong.
#[derive(Clone, Copy, Debug)]
pub struct Ping;

/// The call that is answered with a download.
#[derive(Clone, Copy, Debug)]
pub struct Transfer;

impl Ping {
    /// The route of the call.
    pub fn key() -> (key: Key)
        ensures
            key == Key(1),
    {
        Key(1)
    }
}

impl Transfer {
    /// The route of the call.
    pub fn key() -> (key: Key)
        ensures
            key == Key(2),
    {
        Key(2)
    }
}

/// The route that some bytes name: one byte, of one of the two calls.
pub open spec fn key_of(bytes: Seq<u8>) -> Option<Key> {
    if bytes.len() == 1 && (bytes[0] == 1 || bytes[0] == 2) {
        Some(Key(bytes[0]))
    } else {
        None
    }
}

impl Key {
    /// How many bytes the route takes.
    pub fn encoded_len(&self) -> (length: usize)
        ensures
            length == 1,
    {
        1
    }

    /// Writes the route behind what is there.
    pub fn encode(&self, out: &mut Vec<u8>)
        ensures
            final(out)@ == old(out)@.push(self.0),
    {
        out.push(self.0);
    }

    /// Reads a route.
    pub fn decode(bytes: &[u8]) -> (key: Option<Self>)
        ensures
            key == key_of(bytes@),
    {
        if bytes.len() == 1 && (bytes[0] == 1 || bytes[0] == 2) {
            Some(Key(bytes[0]))
        } else {
            None
        }
    }
}

/// The routes of the two calls are told apart, and each is read back as it was written.
pub proof fn law_routes_are_read_back(key: Key)
    requires
        key == Key(1) || key == Key(2),
    ensures
        key_of(Seq::<u8>::empty().push(key.0)) == Some(key),
        Key(1) != Key(2),
{
}

/// The answer to a ping: a pong with what the ping carries. Anything else is a breach of the
/// protocol.
pub open spec fn pong_of(request: Seq<char>) -> Option<Seq<char>> {
    if "ping "@.is_prefix_of(request) {
        Some("pong "@ + request.skip("ping "@.len() as int))
    } else {
        None
    }
}

/// Answers a ping.
pub fn pong(request: &str) -> (response: Option<String>)
    ensures
        match pong_of(request@) {
            Some(answer) => response matches Some(response) && response@ == answer,
            None => response is None,
        },
{
    match strip_prefix(request, "ping ") {
        None => None,
        Some(sequence) => {
            assert(request@.skip("ping "@.len() as int) =~= sequence@);
            let response: String = "pong ".to_owned();
            Some(response.concat(sequence))
        },
    }
}

/// The ping of a round.
pub open spec fn ping_of(round: nat) -> Seq<char> {
    "ping "@ + decimal_text(round)
}

/// The ping of a round.
pub fn ping(round: u64) -> (request: String)
    ensures
        request@ == ping_of(round as nat),
        request@ == "ping "@ + decimal_text(round as nat),
{
    let request: String = "ping ".to_owned();
    let number = decimal(round);
    request.concat(number.as_str())
}

/// Whether this is the pong to the ping of a round.
pub open spec fn answers(response: Seq<char>, round: nat) -> bool {
    response == "pong "@ + decimal_text(round)
}

/// Whether this is the pong to the ping of a round.
pub fn is_pong(response: &str, round: u64) -> (is: bool)
    ensures
        is == answers(response@, round as nat),
        is == (response@ == "pong "@ + decimal_text(round as nat)),
{
    let expected: String = "pong ".to_owned();
    let number = decimal(round);
    same_text(response, expected.concat(number.as_str()).as_str())
}

/// The ping of a round is answered with the pong that is waited for, and with no other.
pub proof fn law_ping_gets_its_pong(round: nat)
    ensures
        pong_of("ping "@ + decimal_text(round)) == Some("pong "@ + decimal_text(round)),
{
    let request = "ping "@ + decimal_text(round);
    assert(request.take("ping "@.len() as int) =~= "ping "@);
    assert(request.skip("ping "@.len() as int) =~= decimal_text(round));
}

/// The length that a request asks for.
pub open spec fn length_in(request: Seq<char>) -> Option<int> {
    match parsed(request, usize::MAX as int) {
        Ok(length) => if 1 <= length <= MAX_DOWNLOAD {
            Some(length)
        } else {
            None
        },
        Err(_) => None,
    }
}

/// The length of the download that a request asks for: a number from one up to the limit.
/// Anything else is a breach of the protocol.
pub fn requested_length(request: &str) -> (length: Option<usize>)
    ensures
        length is Some <==> length_in(request@) is Some,
        length matches Some(length) ==> length_in(request@) == Some(length as int),
        length is Some <==> (parsed(request@, usize::MAX as int) matches Ok(n) && 1 <= n
            <= MAX_DOWNLOAD),
        length matches Some(length) ==> parsed(request@, usize::MAX as int) == Ok::<
            int,
            crate::text::ParseError,
        >(length as int),
{
    match parse(request, usize::MAX as u64) {
        Ok(length) => if 1 <= length && length <= MAX_DOWNLOAD {
            Some(length as usize)
        } else {
            None
        },
        Err(_) => None,
    }
}

/// The router that the peers use where none is named.
pub const PUBLIC_ROUTER: &'static str = "router.foundation.xyz:7447";

/// The file with the router's bundle where none is named.
pub const BUNDLE_PATH: &'static str = "bundle.bin";

/// The router's address and the path of its bundle, as the arguments name them.
pub open spec fn named_in(given: Seq<Seq<char>>) -> Option<(Seq<char>, Seq<char>)> {
    if given.len() > 2 {
        None
    } else {
        Some(
            (
                if given.len() >= 1 {
                    given[0]
                } else {
                    PUBLIC_ROUTER@
                },
                if given.len() >= 2 {
                    given[1]
                } else {
                    BUNDLE_PATH@
                },
            ),
        )
    }
}

/// The router's address and the path of its bundle, as the arguments name them; there may
/// be none, one or both, but no more.
pub fn arguments(given: &Vec<String>) -> (named: Option<(String, String)>)
    ensures
        ({
            let views = given@.map_values(|text: String| text@);
            match named {
                Some((address, bundle)) => named_in(views) == Some((address@, bundle@)),
                None => named_in(views) is None,
            }
        }),
        named is Some <==> given@.len() <= 2,
        named matches Some((address, bundle)) ==> {
            &&& address@ == if given@.len() >= 1 {
                given@[0]@
            } else {
                PUBLIC_ROUTER@
            }
            &&& bundle@ == if given@.len() >= 2 {
                given@[1]@
            } else {
                BUNDLE_PATH@
            }
        },
{
    if given.len() > 2 {
        return None;
    }
    let address: String = if given.len() >= 1 {
        given[0].clone()
    } else {
        PUBLIC_ROUTER.to_owned()
    };
    let bundle: String = if given.len() >= 2 {
        given[1].clone()
    } else {
        BUNDLE_PATH.to_owned()
    };
    Some((address, bundle))
}

} // verus!
