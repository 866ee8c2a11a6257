//! What the faucet says: the messages, and the page that carries them.

use vstd::prelude::*;
use crate::clock::Duration;
use crate::hex::{bytes_to_hex, hex_text};
use crate::parse::{law_number_at_end, trailing_number};
use crate::text::{decimal, decimal_text};

verus! {

/// What the faucet can be asked for.
pub const USAGE: &'static str = "<pre>Usage:\n\t/getsats/BITCOIN_ADDRESS\t\t... to get some sats\n\t/getinvoice/PASSPHRASE\t\t\t... to get a payable invoice and start the challenge\n\t/getchannel/NODE_ID@IP_ADDR:PORT\t... to have a channel opened to you\n\t/getnodeid\t\t\t\t... to get the faucet's node id\n\t/getfundingaddress\t\t\t... to get the faucet's funding address\n\t/getleaderboard\t\t\t\t... to show the leaderboard\n\t/payinvoice/INVOICE\t\t\t... to have the faucet pay an invoice (e.g., to balance a channel)</pre>";

pub const PAGE_HEAD: &'static str = "<html><style>body { font-family: \"Lucida Console\", \"Courier New\", monospace; }</style><head></head><body>";

pub const PAGE_FOOT: &'static str = "</body></html>";

pub const BOARD_HEAD: &'static str = "<center><meta http-equiv=\"refresh\" content=\"5\" /><table style=\"margin-left:auto;margin-right:auto;text-align: center;\"><tr style=\"border-bottom: 1px solid black\"><th style=\"padding: 10px\">Passphrase</th><th style=\"padding:10px\">Time (sec.)</th></tr>";

pub const BOARD_FOOT: &'static str = "</table></center>";

/// The answer where the faucet is asked to pay an invoice of its own.
pub const OWN_INVOICE: &'static str = "Won't pay my own invoices!";

/// A message as an HTML page.
pub open spec fn page(message: Seq<char>) -> Seq<char> {
    PAGE_HEAD@ + message + PAGE_FOOT@
}

/// The answer after coins were sent.
pub open spec fn sent_text(txid: Seq<char>) -> Seq<char> {
    "OK: "@ + txid
}

/// The answer after coins were sent.
pub fn sent(txid: &str) -> (res: String)
    ensures
        res@ == sent_text(txid@),
{
    let mut res = "OK: ".to_owned();
    res.append(txid);
    res
}

/// The answer where a request failed.
pub open spec fn request_error_text(err: Seq<char>, path: Seq<char>) -> Seq<char> {
    "ERR: "@ + err + " for request: \""@ + path + "\""@
}

/// The answer where a request failed.
pub fn request_error(err: &str, path: &str) -> (res: String)
    ensures
        res@ == request_error_text(err@, path@),
{
    let mut res = "ERR: ".to_owned();
    res.append(err);
    res.append(" for request: \"");
    res.append(path);
    res.append("\"");
    res
}

/// The answer to a participant who has paid.
pub open spec fn challenge_done_text(time: Duration) -> Seq<char> {
    "DONE! You paid the invoice in "@ + decimal_text(time.secs()) + " seconds!"@
}

/// The answer to a participant who has paid.
pub fn challenge_done(time: &Duration) -> (res: String)
    ensures
        res@ == challenge_done_text(*time),
{
    let mut res = "DONE! You paid the invoice in ".to_owned();
    res.append(decimal(time.as_secs()).as_str());
    res.append(" seconds!");
    res
}

/// The answer to a participant who has yet to pay.
pub open spec fn challenge_open_text(passphrase: Seq<char>, invoice: Seq<char>) -> Seq<char> {
    "<meta http-equiv=\"refresh\" content=\"5\" />Hi "@ + passphrase
        + "! Please pay this invoice as quickly as possible:<br><br>"@ + invoice
}

/// The answer to a participant who has yet to pay.
pub fn challenge_open(passphrase: &str, invoice: &str) -> (res: String)
    ensures
        res@ == challenge_open_text(passphrase@, invoice@),
{
    let mut res = "<meta http-equiv=\"refresh\" content=\"5\" />Hi ".to_owned();
    res.append(passphrase);
    res.append("! Please pay this invoice as quickly as possible:<br><br>");
    res.append(invoice);
    res
}

/// The answer to a new participant: a redirection to the challenge.
pub open spec fn registered_text(passphrase: Seq<char>) -> Seq<char> {
    "<meta http-equiv=\"refresh\" content=\"0; URL=./getinvoice/"@ + passphrase
        + "\" />Generated new passphrase: "@ + passphrase
}

/// The answer to a new participant: a redirection to the challenge.
pub fn registered(passphrase: &str) -> (res: String)
    ensures
        res@ == registered_text(passphrase@),
{
    let mut res = "<meta http-equiv=\"refresh\" content=\"0; URL=./getinvoice/".to_owned();
    res.append(passphrase);
    res.append("\" />Generated new passphrase: ");
    res.append(passphrase);
    res
}

/// The answer after a channel was opened.
pub open spec fn opening_channel_text(sats: nat, peer: Seq<char>) -> Seq<char> {
    "Opening channel of "@ + decimal_text(sats) + "sat to: "@ + peer
}

/// The answer after a channel was opened.
pub fn opening_channel(sats: u64, peer: &str) -> (res: String)
    ensures
        res@ == opening_channel_text(sats as nat, peer@),
{
    let mut res = "Opening channel of ".to_owned();
    res.append(decimal(sats as u128).as_str());
    res.append("sat to: ");
    res.append(peer);
    res
}

/// The answer where a channel could not be opened.
pub open spec fn channel_failed_text(err: Seq<char>) -> Seq<char> {
    "ERR: Channel open failed: "@ + err
}

/// The answer where a channel could not be opened.
pub fn channel_failed(err: &str) -> (res: String)
    ensures
        res@ == channel_failed_text(err@),
{
    let mut res = "ERR: Channel open failed: ".to_owned();
    res.append(err);
    res
}

/// The answer where a peer cannot be read.
pub open spec fn bad_peer_text(peer: Seq<char>) -> Seq<char> {
    "ERR: Failed to parse peer info: "@ + peer
}

/// The answer where a peer cannot be read.
pub fn bad_peer(peer: &str) -> (res: String)
    ensures
        res@ == bad_peer_text(peer@),
{
    let mut res = "ERR: Failed to parse peer info: ".to_owned();
    res.append(peer);
    res
}

/// The answer after a payment was started.
pub open spec fn paying_text(payment_hash: Seq<u8>) -> Seq<char> {
    "Paying invoice with hash: "@ + hex_text(payment_hash)
}

/// The answer after a payment was started.
pub fn paying(payment_hash: &[u8; 32]) -> (res: String)
    ensures
        res@ == paying_text(payment_hash@),
{
    let mut res = "Paying invoice with hash: ".to_owned();
    res.append(bytes_to_hex(payment_hash.as_slice()).as_str());
    res
}

/// The answer where an invoice could not be paid.
pub open spec fn payment_failed_text(err: Seq<char>) -> Seq<char> {
    "Failed to pay invoice: "@ + err
}

/// The answer where an invoice could not be paid.
pub fn payment_failed(err: &str) -> (res: String)
    ensures
        res@ == payment_failed_text(err@),
{
    let mut res = "Failed to pay invoice: ".to_owned();
    res.append(err);
    res
}

/// A row of the leaderboard.
pub open spec fn board_row_text(passphrase: Seq<char>, time: Duration) -> Seq<char> {
    "<tr><td style=\"padding: 10px\">"@ + passphrase
        + "</td><td style=\"padding: 10px\">"@ + decimal_text(time.secs()) + "</td>"@
}

/// A row of the leaderboard.
pub fn board_row(passphrase: &str, time: &Duration) -> (res: String)
    ensures
        res@ == board_row_text(passphrase@, *time),
{
    let mut res = "<tr><td style=\"padding: 10px\">".to_owned();
    res.append(passphrase);
    res.append("</td><td style=\"padding: 10px\">");
    res.append(decimal(time.as_secs()).as_str());
    res.append("</td>");
    res
}

/// A message as an HTML page.
pub fn mk_response(message: &str) -> (res: String)
    ensures
        res@ == page(message@),
{
    let mut res = PAGE_HEAD.to_owned();
    res.append(message);
    res.append(PAGE_FOOT);
    res
}

/// The page that explains what the faucet can be asked for.
pub fn default_response() -> (res: String)
    ensures
        res@ == page(USAGE@),
{
    mk_response(USAGE)
}

/// The answer for what came of sending coins: the transaction, or an error.
pub fn send_reply(outcome: Result<String, String>, path: &str) -> (res: String)
    ensures
        res@ == match outcome {
            Ok(txid) => sent_text(txid@),
            Err(err) => request_error_text(err@, path@),
        },
        outcome matches Ok(txid) ==> res@ == "OK: "@ + txid@,
        outcome matches Err(err) ==> res@ == "ERR: "@ + err@ + " for request: \""@ + path@ + "\""@,
{
    match outcome {
        Ok(txid) => sent(txid.as_str()),
        Err(err) => request_error(err.as_str(), path),
    }
}

/// The answer for what came of opening a channel of `sats`.
pub fn channel_reply(outcome: Result<(), String>, sats: u64, peer: &str) -> (res: String)
    ensures
        res@ == match outcome {
            Ok(()) => opening_channel_text(sats as nat, peer@),
            Err(err) => channel_failed_text(err@),
        },
        outcome is Ok ==> res@ == "Opening channel of "@ + decimal_text(sats as nat) + "sat to: "@
            + peer@,
        outcome matches Err(err) ==> res@ == "ERR: Channel open failed: "@ + err@,
{
    match outcome {
        Ok(()) => opening_channel(sats, peer),
        Err(err) => channel_failed(err.as_str()),
    }
}

/// The answer for what came of paying an invoice: its payment hash, or an
/// error.
pub fn payment_reply(outcome: Result<[u8; 32], String>) -> (res: String)
    ensures
        res@ == match outcome {
            Ok(payment_hash) => paying_text(payment_hash@),
            Err(err) => payment_failed_text(err@),
        },
        outcome matches Ok(payment_hash) ==> res@ == "Paying invoice with hash: "@ + hex_text(
            payment_hash@,
        ),
        outcome matches Err(err) ==> res@ == "Failed to pay invoice: "@ + err@,
{
    match outcome {
        Ok(payment_hash) => paying(&payment_hash),
        Err(err) => payment_failed(err.as_str()),
    }
}

/// Between fixed words, the answer to a participant who has paid shows the
/// whole seconds of the time: read as a decimal number, they are the
/// nanoseconds divided by a thousand million.
pub proof fn law_seconds_shown(time: Duration)
    ensures
        ({
            let answer = challenge_done_text(time);
            let before = "DONE! You paid the invoice in "@;
            let after = " seconds!"@;
            let number = answer.subrange(
                before.len() as int,
                answer.len() - after.len(),
            );
            &&& answer == before + number + after
            &&& number == decimal_text(time.nanos as nat / 1_000_000_000)
            &&& trailing_number(number) == time.nanos / 1_000_000_000
            &&& trailing_number(before + number) == time.nanos / 1_000_000_000
        }),
{
    let before = "DONE! You paid the invoice in "@;
    let after = " seconds!"@;
    let number = decimal_text(time.nanos as nat / 1_000_000_000);
    let answer = challenge_done_text(time);
    reveal_strlit("DONE! You paid the invoice in ");
    reveal_strlit("0123456789");
    assert(answer.subrange(before.len() as int, answer.len() - after.len()) == number);
    law_number_at_end(Seq::empty(), time.nanos as nat / 1_000_000_000);
    assert(Seq::<char>::empty() + number == number);
    assert(before.last() == ' ');
    assert(!"0123456789"@.contains(' '));
    law_number_at_end(before, time.nanos as nat / 1_000_000_000);
}

/// Participants who took a different number of whole seconds are shown
/// different answers, and different rows under the same passphrase.
pub proof fn law_seconds_told_apart(a: Duration, b: Duration, passphrase: Seq<char>)
    requires
        a.nanos / 1_000_000_000 != b.nanos / 1_000_000_000,
    ensures
        challenge_done_text(a) != challenge_done_text(b),
        board_row_text(passphrase, a) != board_row_text(passphrase, b),
{
    law_seconds_shown(a);
    law_seconds_shown(b);
    let before = "<tr><td style=\"padding: 10px\">"@ + passphrase
        + "</td><td style=\"padding: 10px\">"@;
    let row_a = board_row_text(passphrase, a);
    let row_b = board_row_text(passphrase, b);
    let after = "</td>"@;
    let from = before.len() as int;
    assert(row_a.subrange(from, row_a.len() - after.len()) == decimal_text(
        a.nanos as nat / 1_000_000_000,
    ));
    assert(row_b.subrange(from, row_b.len() - after.len()) == decimal_text(
        b.nanos as nat / 1_000_000_000,
    ));
    law_number_at_end(Seq::empty(), a.nanos as nat / 1_000_000_000);
    law_number_at_end(Seq::empty(), b.nanos as nat / 1_000_000_000);
    assert(Seq::<char>::empty() + decimal_text(a.nanos as nat / 1_000_000_000) == decimal_text(
        a.nanos as nat / 1_000_000_000,
    ));
    assert(Seq::<char>::empty() + decimal_text(b.nanos as nat / 1_000_000_000) == decimal_text(
        b.nanos as nat / 1_000_000_000,
    ));
}

/// A row shows the passphrase in its first cell and the whole seconds in its
/// second.
pub proof fn law_row_shown(passphrase: Seq<char>, time: Duration)
    ensures
        board_row_text(passphrase, time) == "<tr><td style=\"padding: 10px\">"@ + passphrase
            + "</td><td style=\"padding: 10px\">"@ + decimal_text(
            time.nanos as nat / 1_000_000_000,
        ) + "</td>"@,
{
}

/// Every answer carries what it is about whole and unchanged, with nothing but
/// the fixed words around it.
pub proof fn law_answers(text: Seq<char>, path: Seq<char>, sats: nat, payment_hash: Seq<u8>)
    ensures
        sent_text(text).take(4) == "OK: "@ && sent_text(text).skip(4) == text,
        request_error_text(text, path) == "ERR: "@ + text + " for request: \""@ + path + "\""@,
        challenge_open_text(text, path)
            == "<meta http-equiv=\"refresh\" content=\"5\" />Hi "@ + text
            + "! Please pay this invoice as quickly as possible:<br><br>"@ + path,
        registered_text(text) == "<meta http-equiv=\"refresh\" content=\"0; URL=./getinvoice/"@
            + text + "\" />Generated new passphrase: "@ + text,
        opening_channel_text(sats, text) == "Opening channel of "@ + decimal_text(sats)
            + "sat to: "@ + text,
        channel_failed_text(text) == "ERR: Channel open failed: "@ + text,
        bad_peer_text(text) == "ERR: Failed to parse peer info: "@ + text,
        paying_text(payment_hash) == "Paying invoice with hash: "@ + hex_text(payment_hash),
        payment_failed_text(text) == "Failed to pay invoice: "@ + text,
{
    reveal_strlit("OK: ");
    assert(sent_text(text).take(4) == "OK: "@);
    assert(sent_text(text).skip(4) == text);
}

/// A page carries its message whole and unchanged in a body of its own. The
/// usage names every request, each on a line of its own, and what it is for.
pub proof fn law_pages(message: Seq<char>)
    ensures
        page(message)
            == "<html><style>body { font-family: \"Lucida Console\", \"Courier New\", monospace; }</style><head></head><body>"@
            + message + "</body></html>"@,
        page(USAGE@)
            == "<html><style>body { font-family: \"Lucida Console\", \"Courier New\", monospace; }</style><head></head><body>"@
            + "<pre>Usage:\n\t/getsats/BITCOIN_ADDRESS\t\t... to get some sats\n\t/getinvoice/PASSPHRASE\t\t\t... to get a payable invoice and start the challenge\n\t/getchannel/NODE_ID@IP_ADDR:PORT\t... to have a channel opened to you\n\t/getnodeid\t\t\t\t... to get the faucet's node id\n\t/getfundingaddress\t\t\t... to get the faucet's funding address\n\t/getleaderboard\t\t\t\t... to show the leaderboard\n\t/payinvoice/INVOICE\t\t\t... to have the faucet pay an invoice (e.g., to balance a channel)</pre>"@
            + "</body></html>"@,
{
}

} // verus!
