//! The link in a Passport's pairing code.
use vstd::prelude::*;

use crate::external::{
    hex_bytes, hex_decode, hex_digit, hex_text, hex_value, is_hex, pairs_view, url_parse, url_parts,
};
use crate::qid::Qid;
use crate::text::same_text;

verus! {

/// The host of every pairing link.
pub const PAIRING_HOST: &'static str = "qr.foundation.xyz";

/// What a Passport invites to pair with: its identity, and the invitation as it is written.
#[derive(Debug)]
pub struct Invite {
    pub qid: Qid,
    pub encoded: Vec<u8>,
}

/// A Passport to pair with: its Bluetooth address and its invitation.
#[derive(Debug)]
pub struct Target {
    pub address: String,
    pub invite: Invite,
}

/// The value of the first pair with this key.
pub open spec fn first_value_of(pairs: Seq<(Seq<char>, Seq<char>)>, key: Seq<char>) -> Option<
    Seq<char>,
>
    decreases pairs.len(),
{
    if pairs.len() == 0 {
        None
    } else if pairs[0].0 == key {
        Some(pairs[0].1)
    } else {
        first_value_of(pairs.skip(1), key)
    }
}

/// The value of the first pair with this key.
pub fn first_value(pairs: &Vec<(String, String)>, key: &str) -> (value: Option<String>)
    ensures
        value is Some <==> first_value_of(pairs_view(pairs@), key@) is Some,
        value matches Some(value) ==> first_value_of(pairs_view(pairs@), key@) == Some(value@),
{
    let ghost views = pairs_view(pairs@);
    let mut i: usize = 0;
    assert(views.skip(0) =~= views);
    while i < pairs.len()
        invariant
            i <= pairs.len(),
            views == pairs_view(pairs@),
            first_value_of(views, key@) == first_value_of(views.skip(i as int), key@),
        decreases pairs.len() - i,
    {
        assert(views.skip(i as int)[0] == (pairs@[i as int].0@, pairs@[i as int].1@));
        assert(views.skip(i as int).skip(1) =~= views.skip(i + 1));
        if same_text(pairs[i].0.as_str(), key) {
            return Some(pairs[i].1.clone());
        }
        i += 1;
    }
    None
}

/// The address and the bytes of the invitation that a pairing link holds: a URL of the
/// pairing host, with the address under `p` and the invitation, in hexadecimal, under `k`.
pub open spec fn link_parts(
    parts: Option<(Option<Seq<char>>, Seq<(Seq<char>, Seq<char>)>)>,
) -> Option<(Seq<char>, Seq<u8>)> {
    match parts {
        Some((Some(host), pairs)) => match (
            first_value_of(pairs, "p"@),
            first_value_of(pairs, "k"@),
        ) {
            (Some(address), Some(invite)) if host == PAIRING_HOST@ && is_hex(invite) => Some(
                (address, hex_bytes(invite)),
            ),
            _ => None,
        },
        _ => None,
    }
}

/// The target is what the codec makes of the parts of a pairing link.
pub open spec fn targets<D>(
    parts: Option<(Seq<char>, Seq<u8>)>,
    decode: D,
    target: Option<Target>,
) -> bool where D: FnOnce(&[u8]) -> Option<Invite> {
    match parts {
        None => target is None,
        Some((address, invite)) => exists|bytes: &[u8], decoded: Option<Invite>|
            {
                &&& bytes@ == invite
                &&& #[trigger] call_ensures(decode, (bytes,), decoded)
                &&& match decoded {
                    None => target is None,
                    Some(invite) => {
                        &&& target matches Some(target)
                        &&& target.address@ == address
                        &&& target.invite == invite
                    },
                }
            },
    }
}

impl Target {
    /// Reads the text of a pairing code. `decode` reads the invitation.
    pub fn parse<D>(payload: &str, decode: D) -> (target: Option<Self>) where
        D: FnOnce(&[u8]) -> Option<Invite>,

        requires
            forall|bytes: &[u8]| call_requires(decode, (bytes,)),
        ensures
            targets(link_parts(url_parts(payload@)), decode, target),
    {
        match url_parse(payload) {
            Some((host, pairs)) => Target::from_link(host, &pairs, decode),
            None => None,
        }
    }

    /// Reads a pairing link that is taken apart already: its host, and its query as pairs.
    pub fn from_link<D>(
        host: Option<String>,
        pairs: &Vec<(String, String)>,
        decode: D,
    ) -> (target: Option<Self>) where D: FnOnce(&[u8]) -> Option<Invite>
        requires
            forall|bytes: &[u8]| call_requires(decode, (bytes,)),
        ensures
            targets(
                link_parts(
                    Some(
                        (
                            match host {
                                Some(host) => Some(host@),
                                None => None,
                            },
                            pairs_view(pairs@),
                        ),
                    ),
                ),
                decode,
                target,
            ),
    {
        let host = match host {
            Some(host) => host,
            None => return None,
        };
        if !same_text(host.as_str(), PAIRING_HOST) {
            return None;
        }
        let address = match first_value(pairs, "p") {
            Some(address) => address,
            None => return None,
        };
        let invite = match first_value(pairs, "k") {
            Some(invite) => invite,
            None => return None,
        };
        let bytes = match hex_decode(invite.as_str()) {
            Some(bytes) => bytes,
            None => return None,
        };
        let slice = bytes.as_slice();
        let decoded = decode(slice);
        let ghost seen = decoded;
        assert(call_ensures(decode, (slice,), seen));
        match decoded {
            Some(invite) => Some(Target { address, invite }),
            None => None,
        }
    }
}

/// An invitation that is written in hexadecimal is read back as it was.
pub proof fn law_hex_is_read_back(bytes: Seq<u8>)
    ensures
        is_hex(hex_text(bytes)),
        hex_bytes(hex_text(bytes)) == bytes,
{
    let text = hex_text(bytes);
    assert forall|n: int| 0 <= n < 16 implies hex_value(#[trigger] hex_digit(n)) == Some(n) by {}
    assert forall|i: int| 0 <= i < text.len() implies hex_value(#[trigger] text[i]) is Some by {
        let byte = bytes[i / 2] as int;
        assert(text[i] == hex_digit(byte / 16) || text[i] == hex_digit(byte % 16));
    }
    assert forall|i: int| 0 <= i < bytes.len() implies #[trigger] hex_bytes(text)[i]
        == bytes[i] by {
        let byte = bytes[i] as int;
        assert(text[2 * i] == hex_digit(byte / 16));
        assert(text[2 * i + 1] == hex_digit(byte % 16));
        assert(byte == (byte / 16) * 16 + byte % 16);
    }
    assert(hex_bytes(text) =~= bytes);
}

/// A link of the pairing host that carries an address and an invitation leads to just these.
pub proof fn law_pairing_link_is_read_back(
    address: Seq<char>,
    invite: Seq<u8>,
    more: Seq<(Seq<char>, Seq<char>)>,
)
    ensures
        link_parts(
            Some(
                (Some(PAIRING_HOST@), seq![("p"@, address), ("k"@, hex_text(invite))] + more),
            ),
        ) == Some((address, invite)),
{
    reveal_strlit("p");
    reveal_strlit("k");
    law_hex_is_read_back(invite);
    let pairs = seq![("p"@, address), ("k"@, hex_text(invite))] + more;
    assert(pairs[0] == ("p"@, address));
    assert(pairs[1] == ("k"@, hex_text(invite)));
    assert(pairs.skip(1)[0] == pairs[1]);
    assert("p"@[0] != "k"@[0]);
    reveal_with_fuel(first_value_of, 3);
}

} // verus!
