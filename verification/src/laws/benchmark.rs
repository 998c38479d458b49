//! What is promised of the generated downloads, of the two calls of the ping-pong peers and
//! of the terminal peer.
use vstd::prelude::*;

use crate::benchmark::{
    content, content_at, length_of_size, pattern_of, piece, pieces_of, Download, DownloadError,
    Pieces, SizeError, TransferCheck, TransferError, CHUNK_LEN, LARGE_CHUNK_LEN, MAX_DOWNLOAD,
    PATTERN_PERIOD, REPORT_INTERVAL,
};
use crate::error::Error;
use crate::external::sha256;
use crate::laws::text::{all_digits, unsigned, value_of};
use crate::platform::Timer;
use crate::protocol::frame::joined;
use crate::relay::link::PeerStatus;
use crate::router::RouterError;
use crate::rpc::{
    answers, key_of, length_in, named_in, ping_of, pong_of, Key, EXCHANGE_TIMEOUT, LARGE_TRANSFER, ROUNDS,
    SMALL_TRANSFER, STREAM_BUFFER,
};
use crate::terminal::{
    delay_of, image_of, image_side, is_dark, Activity, App, Request, RECEIVE_WINDOW,
};
use crate::text::{decimal_text, ParseError};
use crate::theme::Tone;

verus! {

/// The bytes of a download count up from nought, one a byte, and start again after 251 and
/// with each piece, up to the last byte.
pub proof fn law_downloads_count_up(chunk: int, length: nat, i: int)
    requires
        0 < chunk,
        0 <= i < length,
    ensures
        content(chunk, length).len() == length,
        i % chunk == 0 ==> content(chunk, length)[i] == 0,
        i % chunk != 0 && content(chunk, length)[i - 1] != 250 ==> content(chunk, length)[i]
            == content(chunk, length)[i - 1] + 1,
        i % chunk != 0 && content(chunk, length)[i - 1] == 250 ==> content(chunk, length)[i] == 0,
        pattern_of(length).len() == length,
        pattern_of(length) == content(length as int, length),
        content_at(i) == content(4096, length)[i],
{
    if i % chunk != 0 {
        assert(i >= 1) by {
            if i == 0 {
                vstd::arithmetic::div_mod::lemma_small_mod(0, chunk as nat);
            }
        }
        assert((i - 1) % chunk == i % chunk - 1) by (nonlinear_arith)
            requires
                0 < chunk,
                i >= 1,
                i % chunk != 0,
        {
            vstd::arithmetic::div_mod::lemma_fundamental_div_mod(i, chunk);
            vstd::arithmetic::div_mod::lemma_fundamental_div_mod_converse(
                i - 1,
                chunk,
                i / chunk,
                i % chunk - 1,
            );
        }
        let at = i % chunk;
        assert(0 <= at - 1 < chunk && 0 <= at < chunk);
        assert((at - 1) % 251 == 250 ==> at % 251 == 0);
        assert((at - 1) % 251 != 250 ==> at % 251 == (at - 1) % 251 + 1);
    }
    assert forall|k: int| 0 <= k < length implies pattern_of(length)[k] == content(
        length as int,
        length,
    )[k] by {
        vstd::arithmetic::div_mod::lemma_small_mod(k as nat, length);
    }
    assert(pattern_of(length) =~= content(length as int, length));
}

/// The pieces of a download make it up, in order; each but the last is as long as a piece may
/// be, and none is empty or longer.
pub proof fn law_pieces_are_full(length: nat, chunk: nat, i: int)
    requires
        0 < chunk,
        0 <= i < pieces_of(length, chunk).len(),
    ensures
        joined(pieces_of(length, chunk)) == content(chunk as int, length),
        0 < pieces_of(length, chunk)[i].len() <= chunk,
        i < pieces_of(length, chunk).len() - 1 ==> pieces_of(length, chunk)[i].len() == chunk,
        piece(length as int, chunk as int) == vstd::math::min(length as int, chunk as int),
    decreases length,
{
    crate::benchmark::law_pieces_make_the_content(length, chunk);
    if length > 0 {
        let size = piece(length as int, chunk as int);
        let rest = pieces_of((length - size) as nat, chunk);
        let all = pieces_of(length, chunk);
        assert(all[0] == pattern_of(chunk).take(size));
        assert(all.skip(1) =~= rest);
        if i > 0 {
            law_pieces_are_full((length - size) as nat, chunk, i - 1);
            assert(all[i] == rest[i - 1]);
        } else if all.len() > 1 {
            assert(rest.len() > 0);
            assert(length - size > 0);
        }
    }
}

/// The check of a transfer takes bytes exactly if each of them is the one that is due where it
/// stands, counted from the start of the transfer.
pub proof fn law_transfers_are_checked_byte_by_byte(check: TransferCheck, chunk: Seq<u8>)
    ensures
        check.matches_content(chunk) <==> forall|i: int|
            0 <= i < chunk.len() ==> #[trigger] chunk[i] as int == ((check.spec_received() + i)
                % 4096) % 251,
        check.well_formed() <==> check.spec_received() <= check.spec_length(),
{
    assert forall|i: int| 0 <= i < chunk.len() implies (chunk[i] == content_at(
        check.spec_received() + i,
    ) <==> chunk[i] as int == ((check.spec_received() + i) % 4096) % 251) by {}
    if check.matches_content(chunk) {
        assert forall|i: int| 0 <= i < chunk.len() implies #[trigger] chunk[i] as int == ((
        check.spec_received() + i) % 4096) % 251 by {}
    }
    if forall|i: int|
        0 <= i < chunk.len() ==> #[trigger] chunk[i] as int == ((check.spec_received() + i) % 4096)
            % 251 {
        assert forall|i: int| 0 <= i < chunk.len() implies #[trigger] chunk[i] == content_at(
            check.spec_received() + i,
        ) by {}
    }
}

/// A size in kibibytes can be asked for exactly if it is a number from 1 to 16384, and comes
/// to 1024 bytes each; other numbers are out of range or, where the bytes cannot be counted,
/// too large.
pub proof fn law_sizes_in_kibibytes(size: Seq<char>)
    requires
        unsigned(size).len() > 0,
        all_digits(unsigned(size)),
        value_of(unsigned(size)) <= u64::MAX,
    ensures
        ({
            let kibibytes = value_of(unsigned(size));
            length_of_size(size) == if 1 <= kibibytes <= 16384 {
                Ok::<int, SizeError>(1024 * kibibytes)
            } else if kibibytes > u64::MAX / 1024 {
                Err(SizeError::TooLarge)
            } else {
                Err(SizeError::Range)
            }
        }),
{
    crate::laws::text::law_digits_are_read(size, u64::MAX as int);
    lemma_value_not_negative(unsigned(size));
}

proof fn lemma_value_not_negative(digits: Seq<char>)
    requires
        all_digits(digits),
    ensures
        value_of(digits) >= 0,
    decreases digits.len(),
{
    if digits.len() > 0 {
        let front = digits.drop_last();
        assert forall|i: int| 0 <= i < front.len() implies crate::laws::text::is_digit(
            #[trigger] front[i],
        ) by {
            assert(crate::laws::text::is_digit(digits[i]));
        }
        lemma_value_not_negative(front);
        assert(crate::laws::text::is_digit(digits[digits.len() - 1]));
    }
}

/// What can be asked for, and in which pieces it is sent.
pub proof fn law_download_limits()
    ensures
        PATTERN_PERIOD == 251,
        CHUNK_LEN == 4096,
        LARGE_CHUNK_LEN == 32768,
        MAX_DOWNLOAD == 16777216,
        REPORT_INTERVAL == 250,
        ROUNDS == 3,
        SMALL_TRANSFER == 1048576,
        LARGE_TRANSFER == 8388608,
        EXCHANGE_TIMEOUT == 180,
        STREAM_BUFFER == 262144,
{
}

/// Bytes name a call exactly if they are a single one or a single two.
pub proof fn law_calls_are_named_by_one_byte(bytes: Seq<u8>, key: Key)
    ensures
        key_of(bytes) == Some(key) <==> bytes == seq![key.0] && (key.0 == 1 || key.0 == 2),
{
    if key_of(bytes) == Some(key) {
        assert(bytes =~= seq![key.0]);
    }
}

/// Whatever a ping carries, its pong carries; and nothing but a ping has a pong.
pub proof fn law_pong_carries_what_the_ping_carries(carried: Seq<char>, other: Seq<char>)
    ensures
        pong_of("ping "@ + carried) == Some("pong "@ + carried),
        pong_of(other) matches Some(pong) ==> exists|content: Seq<char>|
            other == "ping "@ + content && pong == #[trigger] ("pong "@ + content),
{
    let request = "ping "@ + carried;
    assert(request.take("ping "@.len() as int) =~= "ping "@);
    assert("ping "@.is_prefix_of(request));
    assert(request.skip("ping "@.len() as int) =~= carried);
    if let Some(pong) = pong_of(other) {
        let content = other.skip("ping "@.len() as int);
        assert(other =~= "ping "@ + content);
        assert(pong == "pong "@ + content);
    }
}

/// Every module of a symbol is a square of eight by eight pixels of the image, four modules
/// in from each side, black if the module is dark and white if not, in all three colours.
pub proof fn law_every_module_is_drawn(
    width: int,
    modules: Seq<bool>,
    column: int,
    row: int,
    dx: int,
    dy: int,
    colour: int,
)
    requires
        0 < width,
        modules.len() == width * width,
        0 <= column < width,
        0 <= row < width,
        0 <= dx < 8,
        0 <= dy < 8,
        0 <= colour < 3,
    ensures
        ({
            let side = 8 * width + 64;
            let x = 8 * (column + 4) + dx;
            let y = 8 * (row + 4) + dy;
            let at = 3 * (y * side + x) + colour;
            &&& image_side(width) == side
            &&& image_of(width, modules).len() == side * side * 3
            &&& 0 <= at < side * side * 3
            &&& image_of(width, modules)[at] == if modules[row * width + column] {
                0u8
            } else {
                255u8
            }
        }),
{
    let side = 8 * width + 64;
    let x = 8 * (column + 4) + dx;
    let y = 8 * (row + 4) + dy;
    lemma_pixel(width, modules, x, y, colour);
    assert(x / 8 == column + 4 && y / 8 == row + 4);
}

/// All around the symbol the image is white, four modules wide.
pub proof fn law_margin_is_white(
    width: int,
    modules: Seq<bool>,
    x: int,
    y: int,
    colour: int,
)
    requires
        0 < width,
        modules.len() == width * width,
        0 <= x < 8 * width + 64,
        0 <= y < 8 * width + 64,
        0 <= colour < 3,
        x < 32 || x >= 8 * width + 32 || y < 32 || y >= 8 * width + 32,
    ensures
        image_of(width, modules)[3 * (y * (8 * width + 64) + x) + colour] == 255,
{
    lemma_pixel(width, modules, x, y, colour);
}

proof fn lemma_pixel(width: int, modules: Seq<bool>, x: int, y: int, colour: int)
    requires
        0 < width,
        0 <= x < 8 * width + 64,
        0 <= y < 8 * width + 64,
        0 <= colour < 3,
    ensures
        image_side(width) == 8 * width + 64,
        0 <= 3 * (y * (8 * width + 64) + x) + colour < (8 * width + 64) * (8 * width + 64) * 3,
        image_of(width, modules).len() == (8 * width + 64) * (8 * width + 64) * 3,
        image_of(width, modules)[3 * (y * (8 * width + 64) + x) + colour] == if is_dark(
            width,
            modules,
            x,
            y,
        ) {
            0u8
        } else {
            255u8
        },
{
    let side = 8 * width + 64;
    let pixel = y * side + x;
    let at = 3 * pixel + colour;
    assert(image_side(width) == side);
    assert(0 <= pixel < side * side) by (nonlinear_arith)
        requires
            0 <= x < side,
            0 <= y < side,
            pixel == y * side + x,
    ;
    assert(at / 3 == pixel);
    assert(pixel % side == x && pixel / side == y) by (nonlinear_arith)
        requires
            0 <= x < side,
            0 <= y,
            pixel == y * side + x,
    ;
}

/// The terminal can ask its peer for something exactly while the router is reached, the
/// session stands, the peer gave its permission and no request is under way.
pub proof fn law_terminal_asks_when_it_may(app: App)
    ensures
        app.spec_enabled() <==> app.router_connected && app.peer is Connected && app.permitted
            && !app.busy,
{
}

/// The pieces of a download come one by one: each is the front of the pattern, as long as a
/// piece may be or as what is left, and there is one as long as something is left.
pub proof fn law_next_piece(before: Pieces, after: Pieces, next: Option<Seq<u8>>, i: int)
    requires
        before.chunk() > 0,
        before.gives(after, next),
    ensures
        before.remaining() == 0 ==> next is None && after.remaining() == 0,
        before.remaining() > 0 ==> {
            &&& next matches Some(bytes)
            &&& bytes.len() == vstd::math::min(before.remaining() as int, before.chunk() as int)
            &&& after.remaining() == before.remaining() - bytes.len()
            &&& 0 <= i < bytes.len() ==> bytes[i] as int == i % 251
        },
        after.chunk() == before.chunk(),
{
}

/// The check of a transfer takes the next bytes exactly if no more come than were asked for
/// and each is the one that is due; it counts what it takes and names the first wrong byte.
pub proof fn law_transfer_check(
    before: TransferCheck,
    chunk: Seq<u8>,
    after: TransferCheck,
    outcome: Result<(), TransferError>,
    wrong: int,
)
    requires
        before.checks(chunk, after, outcome),
        0 <= wrong <= chunk.len(),
        forall|i: int|
            0 <= i < wrong ==> #[trigger] chunk[i] as int == ((before.spec_received() + i) % 4096)
                % 251,
        wrong < chunk.len() ==> chunk[wrong] as int != ((before.spec_received() + wrong) % 4096)
            % 251,
        before.spec_received() + chunk.len() <= usize::MAX,
    ensures
        before.spec_received() + chunk.len() > before.spec_length() ==> outcome == Err::<
            (),
            TransferError,
        >(TransferError::TooManyBytes),
        before.spec_received() + chunk.len() <= before.spec_length() && wrong == chunk.len()
            ==> outcome is Ok,
        before.spec_received() + chunk.len() <= before.spec_length() && wrong < chunk.len()
            ==> outcome == Err::<(), TransferError>(
            TransferError::Mismatch((before.spec_received() + wrong) as usize),
        ),
        outcome is Ok ==> after.spec_received() == before.spec_received() + chunk.len(),
        outcome is Err ==> after.spec_received() == before.spec_received(),
        after.spec_length() == before.spec_length(),
{
    if before.spec_received() + chunk.len() <= before.spec_length() {
        if outcome is Ok {
            if wrong < chunk.len() {
                assert(chunk[wrong] == content_at(before.spec_received() + wrong));
            }
        } else {
            let at = (outcome->Err_0)->Mismatch_0;
            let offset = at - before.spec_received();
            assert(0 <= offset < chunk.len());
            assert(chunk[offset] != content_at(before.spec_received() + offset));
            if offset < wrong {
                assert(chunk[offset] as int == ((before.spec_received() + offset) % 4096) % 251);
            } else if offset > wrong {
                assert(chunk.take(offset)[wrong] == content_at(before.spec_received() + wrong));
                assert(chunk[wrong] == content_at(before.spec_received() + wrong));
            }
        }
    }
}

/// A transfer has one part, under its own name, and ends well exactly if all that was asked
/// for came and nothing behind it.
pub proof fn law_transfer_ends(check: TransferCheck, extra_part: bool, filename: Seq<char>)
    ensures
        check.ends(extra_part) is Ok <==> !extra_part && check.spec_received()
            == check.spec_length(),
        extra_part ==> check.ends(extra_part) == Err::<(), TransferError>(TransferError::ExtraPart),
        !extra_part && check.spec_received() != check.spec_length() ==> check.ends(extra_part)
            == Err::<(), TransferError>(
            TransferError::Length {
                received: check.spec_received(),
                expected: check.spec_length(),
            },
        ),
        TransferCheck::named(Some(filename)) is Ok <==> filename == "pattern.bin"@,
        TransferCheck::named(Some(filename)) matches Err(error) ==> error
            == TransferError::Filename,
        TransferCheck::named(None) == Err::<(), TransferError>(TransferError::MissingPart),
{
}

/// A download takes all bytes up to the length that was asked for, whatever they are, and none
/// beyond; it ends well exactly if it is whole and has the digest that was announced. Its
/// progress is reported at its end, and else a quarter of a second after the last report.
pub proof fn law_download_is_checked_as_a_whole(
    before: Download,
    chunk: Seq<u8>,
    after: Download,
    outcome: Result<(), DownloadError>,
    hash: Seq<u8>,
    since_report: u64,
)
    requires
        before.takes(chunk, after, outcome),
    ensures
        outcome is Ok <==> before.spec_content().len() + chunk.len() <= before.spec_length(),
        outcome is Ok ==> after.spec_content() == before.spec_content() + chunk,
        outcome is Err ==> outcome == Err::<(), DownloadError>(DownloadError::Excess)
            && after.spec_content() == before.spec_content(),
        after.spec_length() == before.spec_length(),
        before.ends(hash) is Ok <==> before.spec_content().len() == before.spec_length() && hash
            == sha256(before.spec_content()),
        before.spec_content().len() != before.spec_length() ==> before.ends(hash) == Err::<
            (),
            DownloadError,
        >(DownloadError::Length),
        before.ends(hash) == Err::<(), DownloadError>(DownloadError::Hash) ==> hash != sha256(
            before.spec_content(),
        ),
        before.reports_after(since_report) <==> since_report >= 250 || before.spec_content().len()
            == before.spec_length(),
{
}

/// A download can be asked for of 1 to 16777216 bytes, in decimal, and of no other length.
pub proof fn law_requested_lengths(request: Seq<char>)
    requires
        unsigned(request).len() > 0,
        all_digits(unsigned(request)),
    ensures
        length_in(request) == if 1 <= value_of(unsigned(request)) <= 16777216 {
            Some(value_of(unsigned(request)))
        } else {
            None
        },
{
    lemma_value_not_negative(unsigned(request));
    crate::laws::text::law_digits_are_read(request, usize::MAX as int);
}

/// What is no number asks for nothing. `bad` is where it has something else than a digit.
pub proof fn law_other_requests_ask_for_nothing(request: Seq<char>, bad: int)
    requires
        0 <= bad < unsigned(request).len(),
        all_digits(unsigned(request).take(bad)),
        !crate::laws::text::is_digit(unsigned(request)[bad]),
    ensures
        length_in(request) is None,
        length_in(Seq::empty()) is None,
{
    crate::laws::text::law_other_texts_are_refused(request, bad, usize::MAX as int);
}

/// The first argument is the router's address and the second the path of its bundle, whatever
/// they are; what is not given is the public router and its usual file, and there are no more.
pub proof fn law_arguments_are_taken_in_order(given: Seq<Seq<char>>)
    ensures
        named_in(given) is Some <==> given.len() <= 2,
        named_in(given) matches Some((address, bundle)) ==> {
            &&& address == if given.len() > 0 {
                given[0]
            } else {
                "router.foundation.xyz:7447"@
            }
            &&& bundle == if given.len() > 1 {
                given[1]
            } else {
                "bundle.bin"@
            }
        },
{
}

/// A request is made exactly if the user asks for one and the terminal may ask: for the
/// download, with the size as it was written, if that is asked for, and else for the echo of
/// the message. Then the terminal is busy, and all else stays.
pub proof fn law_requests_are_made(
    before: App,
    send: bool,
    download: bool,
    after: App,
    request: Option<Request>,
)
    requires
        before.submits(send, download, after, request),
    ensures
        ({
            let may = before.router_connected && before.peer is Connected && before.permitted
                && !before.busy;
            &&& request is Some <==> (send || download) && may
            &&& request is None ==> after == before
            &&& may && download ==> request == Some(Request::Download(before.download_size))
                && after.download_result@ == "Downloading..."@ && after.echo_result
                == before.echo_result
            &&& may && send && !download ==> request == Some(Request::Echo(before.echo))
                && after.echo_result@ == "Sending..."@ && after.download_result
                == before.download_result
            &&& request is Some ==> after.busy
        }),
        after.router == before.router && after.peer == before.peer && after.peer_details
            == before.peer_details,
        after.router_connected == before.router_connected && after.permitted == before.permitted,
        after.echo == before.echo && after.download_size == before.download_size,
        after.activity == before.activity,
{
}

/// The end of a request is shown in its place, with what it came to or why it failed, and the
/// terminal is free again.
pub proof fn law_results_are_shown(
    before: App,
    download: bool,
    outcome: Result<String, String>,
    after: App,
)
    requires
        before.finishes(download, outcome, after),
    ensures
        !after.busy,
        ({
            let words = match outcome {
                Ok(result) => result@,
                Err(error) => "failed: "@ + error@,
            };
            &&& download ==> after.download_result@ == words && after.echo_result
                == before.echo_result
            &&& !download ==> after.echo_result@ == words && after.download_result
                == before.download_result
        }),
        after.router == before.router && after.peer == before.peer && after.peer_details
            == before.peer_details,
        after.router_connected == before.router_connected && after.permitted == before.permitted,
        after.echo == before.echo && after.download_size == before.download_size,
        after.activity == before.activity,
{
}

/// The terminal waits until its next timer is due, or without end if there is none; for 16
/// milliseconds if it has to be drawn again; and not at all behind a full batch of 64 tasks or
/// 32 inputs.
pub proof fn law_terminal_waits(
    polled: usize,
    inputs: usize,
    redraw: bool,
    deadline: Option<u64>,
    elapsed: u64,
)
    ensures
        polled == 64 || inputs == 32 ==> delay_of(polled, inputs, redraw, deadline, elapsed)
            == Some(0u64),
        polled != 64 && inputs != 32 && redraw ==> delay_of(
            polled,
            inputs,
            redraw,
            deadline,
            elapsed,
        ) == Some(16_000_000u64),
        polled != 64 && inputs != 32 && !redraw ==> match deadline {
            None => delay_of(polled, inputs, redraw, deadline, elapsed) is None,
            Some(due) => {
                &&& delay_of(polled, inputs, redraw, deadline, elapsed) matches Some(delay)
                &&& due >= elapsed ==> elapsed + delay == due
                &&& due < elapsed ==> delay == 0
            },
        },
        RECEIVE_WINDOW == 131072,
{
}

/// Every session needs its own permission: whatever the session comes to, and when the router
/// is lost, the terminal may not ask until the peer permits it again. Reaching the router
/// changes nothing of the session.
pub proof fn law_permission_is_for_one_session(app: App, status: PeerStatus, words: String)
    ensures
        !app.standing(status).permitted,
        app.standing(status).peer == status,
        app.standing(status).router_connected == app.router_connected,
        app.standing(status).busy == app.busy,
        app.standing(status).peer_details == app.peer_details,
        app.standing(status).echo == app.echo && app.standing(status).download_size
            == app.download_size,
        app.reached(words).router_connected,
        app.reached(words).router == words,
        app.reached(words).peer == app.peer && app.reached(words).permitted == app.permitted,
        app.reached(words).busy == app.busy && app.reached(words).peer_details == app.peer_details,
        !app.lost(words).router_connected,
        !app.lost(words).permitted,
        app.lost(words).peer is Disconnected,
        app.lost(words).router == words,
        app.lost(words).busy == app.busy && app.lost(words).peer_details == app.peer_details,
{
}

/// A session is shown as connected exactly once the peer permitted it, and the pairing image
/// exactly while the router is reached and nobody is paired.
pub proof fn law_terminal_shows_its_session(app: App, length: u64, error: String)
    ensures
        app.peer is Connected && app.permitted ==> app.shown_peer() == (
            "● Connected"@,
            Tone::Positive,
        ),
        app.peer is Connected && !app.permitted ==> app.shown_peer() == (
            "● Authorizing"@,
            Tone::Accent,
        ),
        app.peer is Initiator ==> app.shown_peer() == ("● Pairing"@, Tone::Accent),
        app.peer is Disconnected || app.peer is Unpaired ==> app.shown_peer() == (
            "○ Disconnected"@,
            Tone::Muted,
        ),
        app.shown_slot() is None <==> app.router_connected && app.peer_details is None,
        app.peer_details is Some ==> app.shown_slot() == Some("Paired"@),
        app.peer_details is None && !app.router_connected ==> app.shown_slot() == Some("—"@),
        Activity::served_words(length, Ok(())) == "served "@ + decimal_text(length as nat)
            + " bytes to Prime"@,
        Activity::served_words(length, Err(error)) == "download failed: "@ + error@,
{
}

/// The ping of every round is answered by the pong that is waited for, and no other text is
/// taken for it.
pub proof fn law_rounds_are_answered(round: nat, response: Seq<char>)
    ensures
        pong_of(ping_of(round)) matches Some(pong) && answers(pong, round),
        answers(response, round) <==> pong_of(ping_of(round)) == Some(response),
{
    law_pong_carries_what_the_ping_carries(decimal_text(round), response);
}

/// A timer goes off at its deadline and from then on, however late that is, and never if it is
/// not set.
pub proof fn law_timers_go_off(timer: Timer, now: u64, later: u64)
    requires
        now <= later,
    ensures
        timer.spec_deadline() is None ==> !timer.went_off(now),
        timer.spec_deadline() matches Some(deadline) ==> (timer.went_off(now) <==> now >= deadline),
        timer.went_off(now) ==> timer.went_off(later),
{
}

/// Messages name the numbers that they are about, in decimal, and the reasons that they wrap.
pub proof fn law_messages_name_their_reasons(
    at: usize,
    received: usize,
    expected: usize,
    reason: ParseError,
    error: Error,
)
    ensures
        TransferError::Mismatch(at).spec_message() == "byte mismatch at "@ + decimal_text(
            at as nat,
        ),
        (TransferError::Length { received, expected }).spec_message() == "received "@
            + decimal_text(received as nat) + " bytes, expected "@ + decimal_text(expected as nat),
        SizeError::Parse(reason).spec_message() == reason.spec_message(),
        RouterError::Io(error).spec_message() == "I/O error: "@ + error.spec_message(),
{
}

} // verus!
