//! Every trusted item of the library: the calls into other crates and into the parts of
//! the standard library that have no specification yet. What is stated here is not
//! proved; everything else is proved from it.
use vstd::prelude::*;

verus! {

/// The lower-case hexadecimal digit of a number below sixteen.
pub open spec fn hex_digit(n: int) -> char {
    if n < 10 {
        (48 + n) as char
    } else {
        (87 + n) as char
    }
}

/// The lower-case hexadecimal text of a byte string, two digits a byte, high half first.
pub open spec fn hex_text(bytes: Seq<u8>) -> Seq<char> {
    Seq::new(
        2 * bytes.len(),
        |i: int|
            if i % 2 == 0 {
                hex_digit(bytes[i / 2] as int / 16)
            } else {
                hex_digit(bytes[i / 2] as int % 16)
            },
    )
}

/// The value of a hexadecimal digit of either case.
pub open spec fn hex_value(c: char) -> Option<int> {
    if '0' <= c <= '9' {
        Some(c as int - 48)
    } else if 'a' <= c <= 'f' {
        Some(c as int - 87)
    } else if 'A' <= c <= 'F' {
        Some(c as int - 55)
    } else {
        None
    }
}

/// Whether a text is an even number of hexadecimal digits.
pub open spec fn is_hex(text: Seq<char>) -> bool {
    &&& text.len() % 2 == 0
    &&& forall|i: int| 0 <= i < text.len() ==> hex_value(#[trigger] text[i]) is Some
}

/// The bytes that a hexadecimal text stands for.
pub open spec fn hex_bytes(text: Seq<char>) -> Seq<u8> {
    Seq::new(
        (text.len() / 2) as nat,
        |i: int| (hex_value(text[2 * i])->0 * 16 + hex_value(text[2 * i + 1])->0) as u8,
    )
}

/// `hex::encode`: the lower-case hexadecimal text of the bytes.
#[verifier::external_body]
pub(crate) fn hex_encode(bytes: &[u8]) -> (text: String)
    ensures
        text@ == hex_text(bytes@),
{
    hex::encode(bytes)
}

/// `hex::decode`: the bytes of a text made of an even number of hexadecimal digits of
/// either case, and nothing for any other text.
#[verifier::external_body]
pub(crate) fn hex_decode(text: &str) -> (bytes: Option<Vec<u8>>)
    ensures
        bytes is Some <==> is_hex(text@),
        bytes matches Some(bytes) ==> bytes@ == hex_bytes(text@),
{
    hex::decode(text).ok()
}

/// A list of text pairs by what its texts hold.
pub open spec fn pairs_view(pairs: Seq<(String, String)>) -> Seq<(Seq<char>, Seq<char>)> {
    pairs.map_values(|pair: (String, String)| (pair.0@, pair.1@))
}

/// What `url::Url::parse` makes of a text: the host that `Url::host_str` gives and the
/// decoded pairs that `Url::query_pairs` walks, in order, or nothing where the text is
/// no URL.
pub uninterp spec fn url_parts(text: Seq<char>) -> Option<
    (Option<Seq<char>>, Seq<(Seq<char>, Seq<char>)>),
>;

/// `url::Url::parse`, then `Url::host_str` and `Url::query_pairs` of the URL: the result
/// is a function of the text alone, named by `url_parts`.
#[verifier::external_body]
pub(crate) fn url_parse(text: &str) -> (parts: Option<(Option<String>, Vec<(String, String)>)>)
    ensures
        parts is Some <==> url_parts(text@) is Some,
        parts matches Some(parts) ==> {
            &&& parts.0 is Some <==> (url_parts(text@)->0).0 is Some
            &&& parts.0 matches Some(host) ==> host@ == (url_parts(text@)->0).0->0
            &&& pairs_view(parts.1@) == (url_parts(text@)->0).1
        },
{
    let url = url::Url::parse(text).ok()?;
    let host = url.host_str().map(str::to_owned);
    let pairs = url.query_pairs();
    let query = pairs.map(|(key, value)| (key.into_owned(), value.into_owned())).collect();
    Some((host, query))
}

/// The hash map that the route and peer tables are kept in.
#[verifier::external_type_specification]
#[verifier::external_body]
#[verifier::reject_recursive_types(K)]
#[verifier::reject_recursive_types(V)]
#[verifier::reject_recursive_types(S)]
pub struct ExDashMap<K, V, S>(dashmap::DashMap<K, V, S>);

/// What a table holds under each key. The library changes a table only through an
/// exclusive reference, so what a shared one holds stays.
pub uninterp spec fn entries(table: dashmap::DashMap<Vec<u8>, u64>) -> Map<Seq<u8>, u64>;

/// `dashmap::DashMap::new`: a table that holds nothing.
#[verifier::external_body]
pub(crate) fn table_new() -> (table: dashmap::DashMap<Vec<u8>, u64>)
    ensures
        forall|key: Seq<u8>| !entries(table).contains_key(key),
{
    dashmap::DashMap::new()
}

/// `dashmap::DashMap::insert`: the key holds the value, in place of what it held; no other
/// key is touched.
#[verifier::external_body]
pub(crate) fn table_insert(table: &mut dashmap::DashMap<Vec<u8>, u64>, key: Vec<u8>, value: u64)
    ensures
        entries(*final(table)) == entries(*old(table)).insert(key@, value),
{
    table.insert(key, value);
}

/// `dashmap::DashMap::get`: what the key holds, if it holds anything.
#[verifier::external_body]
pub(crate) fn table_get(table: &dashmap::DashMap<Vec<u8>, u64>, key: &[u8]) -> (value: Option<u64>)
    ensures
        value == if entries(*table).contains_key(key@) {
            Some(entries(*table)[key@])
        } else {
            None
        },
{
    table.get(key).map(|entry| *entry.value())
}

/// `dashmap::DashMap::remove`: the key holds nothing; no other key is touched.
#[verifier::external_body]
pub(crate) fn table_remove(table: &mut dashmap::DashMap<Vec<u8>, u64>, key: &[u8])
    ensures
        entries(*final(table)) == entries(*old(table)).remove(key@),
{
    table.remove(key);
}

/// A table's contents without a key, if the key holds just this value.
pub open spec fn without(table: Map<Seq<u8>, u64>, key: Seq<u8>, value: u64) -> Map<Seq<u8>, u64> {
    if table.contains_key(key) && table[key] == value {
        table.remove(key)
    } else {
        table
    }
}

/// `dashmap::DashMap::remove_if`, with the test whether the value is this one: the key
/// holds nothing if it held just this value, and is left alone otherwise; no other key is
/// touched.
#[verifier::external_body]
pub(crate) fn table_remove_if(
    table: &mut dashmap::DashMap<Vec<u8>, u64>,
    key: &[u8],
    expected: u64,
)
    ensures
        entries(*final(table)) == without(entries(*old(table)), key@, expected),
{
    table.remove_if(key, |_, value| same_value(value, expected));
}

/// Whether a table's value is the expected one.
fn same_value(value: &u64, expected: u64) -> (same: bool)
    ensures
        same == (*value == expected),
{
    *value == expected
}

/// The SHA-256 hasher.
#[verifier::external_type_specification]
#[verifier::external_body]
pub struct ExSha256(sha2::Sha256);

/// The bytes that a hasher has taken in, in order.
pub uninterp spec fn absorbed(hasher: sha2::Sha256) -> Seq<u8>;

/// The SHA-256 digest of a byte string.
pub uninterp spec fn sha256(bytes: Seq<u8>) -> Seq<u8>;

/// `sha2::Sha256::new`: a hasher that has taken in nothing.
#[verifier::external_body]
pub(crate) fn sha256_new() -> (hasher: sha2::Sha256)
    ensures
        absorbed(hasher) == Seq::<u8>::empty(),
{
    <sha2::Sha256 as sha2::Digest>::new()
}

/// `sha2::Digest::update`: the hasher takes in the bytes behind those it has.
#[verifier::external_body]
pub(crate) fn sha256_update(hasher: &mut sha2::Sha256, bytes: &[u8])
    ensures
        absorbed(*final(hasher)) == absorbed(*old(hasher)) + bytes@,
{
    sha2::Digest::update(hasher, bytes)
}

/// `sha2::Digest::finalize`: the digest, 32 bytes, of all that the hasher has taken in.
#[verifier::external_body]
pub(crate) fn sha256_finalize(hasher: sha2::Sha256) -> (digest: Vec<u8>)
    ensures
        digest@ == sha256(absorbed(hasher)),
        digest@.len() == 32,
{
    sha2::Digest::finalize(hasher).to_vec()
}

/// The symbol that `qrcode::QrCode::new` makes of some data: its width in modules and,
/// row by row, which modules are dark; nothing where the data is too long for a symbol.
pub uninterp spec fn qr_symbol(data: Seq<u8>) -> Option<(nat, Seq<bool>)>;

/// `qrcode::QrCode::new` with `QrCode::width` and `QrCode::to_colors` of the symbol: the
/// result is a function of the data alone, named by `qr_symbol`. A symbol of the largest
/// version has 177 modules a side, and every symbol is a square.
#[verifier::external_body]
pub(crate) fn qr_encode(data: &[u8]) -> (symbol: Option<(usize, Vec<bool>)>)
    ensures
        symbol is Some <==> qr_symbol(data@) is Some,
        symbol matches Some(symbol) ==> {
            &&& symbol.0 == (qr_symbol(data@)->0).0
            &&& symbol.1@ == (qr_symbol(data@)->0).1
            &&& symbol.0 <= 177
            &&& symbol.1@.len() == symbol.0 * symbol.0
        },
{
    let code = qrcode::QrCode::new(data).ok()?;
    let dark = |color| match color {
        qrcode::Color::Dark => true,
        qrcode::Color::Light => false,
    };
    Some((code.width(), code.to_colors().into_iter().map(dark).collect()))
}

/// `std::str::from_utf8`: the text that the bytes are the UTF-8 form of, and nothing where
/// they are not UTF-8.
#[verifier::external_body]
pub(crate) fn utf8_text(bytes: &[u8]) -> (text: Option<String>)
    ensures
        text is Some <==> vstd::utf8::valid_utf8(bytes@),
        text matches Some(text) ==> text@ == vstd::utf8::decode_utf8(bytes@),
{
    std::str::from_utf8(bytes).ok().map(str::to_owned)
}

} // verus!
