//! What holds of the faucet as a whole.

use vstd::prelude::*;
use crate::clock::{Duration, Timestamp};
use crate::faucet::{
    challenge_step, channel_step, payment_step, sats_step, step_for, FaucetView, StepView,
    INVOICE_EXPIRY_SECS, INVOICE_MSAT,
};
use crate::hex::{hex_text, is_hex_digit, law_bytes_of_hex, law_hex_of_bytes, lower_hex};
use crate::leaderboard::{
    finished_as, finishers, has_finished, law_finishers, ranking, times_known, RowView,
};
use crate::pages::{challenge_done_text, challenge_open_text, OWN_INVOICE};
use crate::parse::{address_error, readable_hash, trailing_number};
use crate::passphrase::{is_passphrase, passphrase_text};
use crate::peer::{compressed_key, is_compressed_point, parsed_socket_address, peer_of};
use crate::text::{
    decimal_text, digit_char, joined, lack, law_joined, law_sides, lemma_pieces_prefix, pieces,
    sides,
};
use crate::user::{InvoiceView, UserStateView};
use crate::users::{
    distinct, has_hash, lemma_state_of, registered, state_of, with_invoice, with_new, with_payment,
    UserView,
};

verus! {

/// The path of a request for `name` with an argument.
pub open spec fn request_path(name: Seq<char>, argument: Seq<char>) -> Seq<char> {
    "/"@ + name + "/"@ + argument
}

/// The path of a request for `name` alone.
pub open spec fn bare_path(name: Seq<char>) -> Seq<char> {
    "/"@ + name
}

/// Whether a path that starts with `name` asks for something by name.
pub open spec fn is_request_name(name: Seq<char>) -> bool {
    ||| name == "getsats"@
    ||| name == "getinvoice"@
    ||| name == "getchannel"@
    ||| name == "getfundingaddress"@
    ||| name == "getnodeid"@
    ||| name == "getleaderboard"@
    ||| name == "payinvoice"@
}

/// A number is what its decimal notation stands for.
pub proof fn law_decimal(n: nat)
    ensures
        trailing_number(decimal_text(n)) == n,
    decreases n,
{
    if n < 10 {
        assert(decimal_text(n).drop_last() == Seq::<char>::empty());
        assert(trailing_number(Seq::<char>::empty()) == 0);
    } else {
        law_decimal(n / 10);
        assert(decimal_text(n).drop_last() == decimal_text(n / 10));
        assert(decimal_text(n).last() == digit_char(n % 10));
    }
}

/// A participant keeps the first invoice and the first time of payment, and
/// nothing counts as paid before there is an invoice.
pub proof fn law_lifecycle(
    state: UserStateView,
    first: InvoiceView,
    second: InvoiceView,
    t1: Timestamp,
    t2: Timestamp,
)
    ensures
        state.given(first, t1).given(second, t2) == state.given(first, t1),
        state.given(first, t1).invoice() is Some,
        state.invoice() is Some ==> state.given(first, t1) == state,
        state.paid(t1).paid(t2) == state.paid(t1),
        state.paid(t1).invoice() == state.invoice(),
        state is New ==> state.paid(t1) == state,
        state is PaidInvoice ==> state.given(first, t1) == state && state.paid(t1) == state,
        state is New ==> state.given(first, t1).invoice() == Some(first),
        state is New ==> state.given(first, t1).paid(t2).time_diff() == t2.since(t1),
{
}

/// Whoever is registered starts anew; the others stay as they were.
pub proof fn law_registered(users: Seq<UserView>, passphrase: Seq<char>, other: Seq<char>)
    requires
        distinct(users),
        !registered(users, passphrase),
        other != passphrase,
    ensures
        distinct(with_new(users, passphrase)),
        state_of(with_new(users, passphrase), passphrase) == Some(UserStateView::New),
        state_of(with_new(users, passphrase), other) == state_of(users, other),
{
    let after = with_new(users, passphrase);
    lemma_state_of(after, users.len() as int);
    if registered(users, other) {
        let i = choose|i: int| 0 <= i < users.len() && (#[trigger] users[i]).passphrase == other;
        lemma_state_of(users, i);
        assert(after[i] == users[i]);
        lemma_state_of(after, i);
    } else if registered(after, other) {
        let i = choose|i: int| 0 <= i < after.len() && (#[trigger] after[i]).passphrase == other;
        assert(users[i].passphrase == other);
    }
}

/// An invoice changes the participant it is made out to, and nobody else.
pub proof fn law_invoice_given(
    users: Seq<UserView>,
    passphrase: Seq<char>,
    invoice: InvoiceView,
    now: Timestamp,
    asked: Seq<char>,
)
    requires
        distinct(users),
    ensures
        distinct(with_invoice(users, passphrase, invoice, now)),
        state_of(with_invoice(users, passphrase, invoice, now), asked) == match state_of(
            users,
            asked,
        ) {
            Some(state) => if asked == passphrase {
                Some(state.given(invoice, now))
            } else {
                Some(state)
            },
            None => None,
        },
{
    let after = with_invoice(users, passphrase, invoice, now);
    assert forall|i: int, j: int| 0 <= i < j < after.len() implies (
    #[trigger] after[i]).passphrase != (#[trigger] after[j]).passphrase by {
        assert(users[i].passphrase != users[j].passphrase);
    }
    if registered(users, asked) {
        let i = choose|i: int| 0 <= i < users.len() && (#[trigger] users[i]).passphrase == asked;
        lemma_state_of(users, i);
        lemma_state_of(after, i);
    } else if registered(after, asked) {
        let i = choose|i: int| 0 <= i < after.len() && (#[trigger] after[i]).passphrase == asked;
        assert(users[i].passphrase == asked);
    }
}

/// A payment changes those whose invoice it pays, and nobody else.
pub proof fn law_payment_settled(
    users: Seq<UserView>,
    payment_hash: Seq<u8>,
    now: Timestamp,
    asked: Seq<char>,
)
    requires
        distinct(users),
    ensures
        distinct(with_payment(users, payment_hash, now)),
        state_of(with_payment(users, payment_hash, now), asked) == match state_of(users, asked) {
            Some(state) => if state.has_hash(payment_hash) {
                Some(state.paid(now))
            } else {
                Some(state)
            },
            None => None,
        },
{
    let after = with_payment(users, payment_hash, now);
    assert forall|i: int, j: int| 0 <= i < j < after.len() implies (
    #[trigger] after[i]).passphrase != (#[trigger] after[j]).passphrase by {
        assert(users[i].passphrase != users[j].passphrase);
    }
    if registered(users, asked) {
        let i = choose|i: int| 0 <= i < users.len() && (#[trigger] users[i]).passphrase == asked;
        lemma_state_of(users, i);
        lemma_state_of(after, i);
    } else if registered(after, asked) {
        let i = choose|i: int| 0 <= i < after.len() && (#[trigger] after[i]).passphrase == asked;
        assert(users[i].passphrase == asked);
    }
}

/// Whoever has paid keeps their result, whatever happens afterwards.
pub proof fn law_result_kept(
    users: Seq<UserView>,
    finisher: Seq<char>,
    passphrase: Seq<char>,
    invoice: InvoiceView,
    payment_hash: Seq<u8>,
    now: Timestamp,
)
    requires
        distinct(users),
        state_of(users, finisher) matches Some(state) && state is PaidInvoice,
    ensures
        !registered(users, passphrase) ==> state_of(with_new(users, passphrase), finisher)
            == state_of(users, finisher),
        state_of(with_invoice(users, passphrase, invoice, now), finisher) == state_of(
            users,
            finisher,
        ),
        state_of(with_payment(users, payment_hash, now), finisher) == state_of(users, finisher),
{
    if !registered(users, passphrase) {
        law_registered(users, passphrase, finisher);
    }
    law_invoice_given(users, passphrase, invoice, now, finisher);
    law_payment_settled(users, payment_hash, now, finisher);
}

/// As long as payments come in no earlier than the invoices were made out,
/// every result on the leaderboard has a time.
pub proof fn law_times_known(
    users: Seq<UserView>,
    passphrase: Seq<char>,
    invoice: InvoiceView,
    payment_hash: Seq<u8>,
    now: Timestamp,
)
    requires
        times_known(users),
        forall|i: int|
            0 <= i < users.len() ==> match (#[trigger] users[i]).state {
                UserStateView::CreatedInvoice { time_created, .. } => time_created.at() <= now.at(),
                _ => true,
            },
    ensures
        times_known(with_new(users, passphrase)),
        times_known(with_invoice(users, passphrase, invoice, now)),
        times_known(with_payment(users, payment_hash, now)),
{
    let invoiced = with_invoice(users, passphrase, invoice, now);
    assert forall|i: int| 0 <= i < invoiced.len() && (#[trigger] invoiced[i]).state is PaidInvoice
        implies invoiced[i].state.time_diff() is Some by {
        assert(users[i].state == invoiced[i].state);
    }
    let settled = with_payment(users, payment_hash, now);
    assert forall|i: int| 0 <= i < settled.len() && (#[trigger] settled[i]).state is PaidInvoice
        implies settled[i].state.time_diff() is Some by {
        let before = users[i];
        assert(settled[i].state == before.state || settled[i].state == before.state.paid(now));
    }
}

proof fn lemma_request_path(name: Seq<char>, argument: Seq<char>)
    requires
        !name.contains('/'),
        !argument.contains('/'),
    ensures
        pieces(request_path(name, argument), '/') == seq![Seq::empty(), name, argument],
        pieces(bare_path(name), '/') == seq![Seq::empty(), name],
{
    reveal_strlit("/");
    let two = seq![Seq::<char>::empty(), name];
    let three = seq![Seq::<char>::empty(), name, argument];
    law_joined(two, '/');
    law_joined(three, '/');
    assert(two.drop_last() == seq![Seq::<char>::empty()]);
    assert(joined(seq![Seq::<char>::empty()], '/') == Seq::<char>::empty());
    assert(joined(two, '/') == bare_path(name));
    assert(three.drop_last() == two);
    assert(joined(three, '/') == request_path(name, argument));
}

pub proof fn lemma_names()
    ensures
        forall|name: Seq<char>| #[trigger] is_request_name(name) ==> !name.contains('/'),
        "getinvoice"@ != "getsats"@,
        "getchannel"@ != "getsats"@,
        "getchannel"@ != "getinvoice"@,
        "getfundingaddress"@ != "getsats"@,
        "getfundingaddress"@ != "getinvoice"@,
        "getfundingaddress"@ != "getchannel"@,
        "getnodeid"@ != "getsats"@,
        "getnodeid"@ != "getinvoice"@,
        "getnodeid"@ != "getchannel"@,
        "getnodeid"@ != "getfundingaddress"@,
        "getleaderboard"@ != "getsats"@,
        "getleaderboard"@ != "getinvoice"@,
        "getleaderboard"@ != "getchannel"@,
        "getleaderboard"@ != "getfundingaddress"@,
        "getleaderboard"@ != "getnodeid"@,
        "payinvoice"@ != "getsats"@,
        "payinvoice"@ != "getinvoice"@,
        "payinvoice"@ != "getchannel"@,
        "payinvoice"@ != "getfundingaddress"@,
        "payinvoice"@ != "getnodeid"@,
        "payinvoice"@ != "getleaderboard"@,
{
    reveal_strlit("getsats");
    reveal_strlit("getinvoice");
    reveal_strlit("getchannel");
    reveal_strlit("payinvoice");
    reveal_strlit("getfundingaddress");
    reveal_strlit("getnodeid");
    reveal_strlit("getleaderboard");
    assert("getsats"@.len() == 7 && "getnodeid"@.len() == 9 && "getfundingaddress"@.len() == 17);
    assert("getinvoice"@[3] == 'i' && "getchannel"@[3] == 'c');
    assert("getinvoice"@[0] == 'g' && "payinvoice"@[0] == 'p' && "getchannel"@[0] == 'g');
}

/// A request that is not a `GET` is answered with the usage.
pub proof fn law_only_get(faucet: FaucetView, method: Seq<char>, path: Seq<char>)
    requires
        method != "GET"@,
    ensures
        step_for(faucet, method, path) == StepView::Usage,
{
}

/// The step for a request by name and argument is the one for that name.
pub proof fn law_requests(faucet: FaucetView, argument: Seq<char>)
    requires
        !argument.contains('/'),
    ensures
        step_for(faucet, "GET"@, request_path("getsats"@, argument)) == sats_step(
            faucet.sats_per_request,
            request_path("getsats"@, argument),
            argument,
            address_error(argument),
        ),
        step_for(faucet, "GET"@, request_path("getinvoice"@, argument)) == challenge_step(
            argument,
            state_of(faucet.users, argument),
        ),
        step_for(faucet, "GET"@, request_path("getchannel"@, argument)) == channel_step(
            faucet.sats_per_request,
            argument,
            peer_of(argument),
        ),
        step_for(faucet, "GET"@, request_path("payinvoice"@, argument)) == payment_step(
            faucet.users,
            argument,
            readable_hash(argument),
        ),
        step_for(faucet, "GET"@, bare_path("getinvoice"@)) == StepView::Register,
        step_for(faucet, "GET"@, bare_path("getfundingaddress"@)) == StepView::FundingAddress,
        step_for(faucet, "GET"@, bare_path("getnodeid"@)) == StepView::NodeId,
        step_for(faucet, "GET"@, bare_path("getleaderboard"@)) == StepView::Leaderboard,
{
    lemma_names();
    assert(is_request_name("getsats"@) && is_request_name("getinvoice"@));
    assert(is_request_name("getchannel"@) && is_request_name("payinvoice"@));
    assert(is_request_name("getfundingaddress"@) && is_request_name("getnodeid"@));
    assert(is_request_name("getleaderboard"@));
    lemma_request_path("getfundingaddress"@, argument);
    lemma_request_path("getnodeid"@, argument);
    lemma_request_path("getleaderboard"@, argument);
    lemma_request_path("getsats"@, argument);
    lemma_request_path("getinvoice"@, argument);
    lemma_request_path("getchannel"@, argument);
    lemma_request_path("payinvoice"@, argument);
}

/// Coins go out in the fixed amount only, and to valid addresses only.
pub proof fn law_coins(faucet: FaucetView, method: Seq<char>, path: Seq<char>)
    ensures
        step_for(faucet, method, path) matches StepView::SendToAddress { address, sats } ==> {
            &&& method == "GET"@
            &&& sats == faucet.sats_per_request
            &&& address_error(address) is None
        },
{
}

/// An address after the root is enough to ask for coins, unless it reads as
/// the name of a request.
pub proof fn law_bare_address(faucet: FaucetView, address: Seq<char>)
    requires
        !address.contains('/'),
        address_error(address) is None,
        !is_request_name(address),
    ensures
        step_for(faucet, "GET"@, bare_path(address)) == (StepView::SendToAddress {
            address,
            sats: faucet.sats_per_request,
        }),
{
    lemma_request_path(address, Seq::empty());
}

/// The faucet pays no invoice that it made out itself, says so when asked to,
/// and pays every other invoice that it can read.
pub proof fn law_own_invoices(faucet: FaucetView, invoice: Seq<char>)
    requires
        !invoice.contains('/'),
    ensures
        step_for(faucet, "GET"@, request_path("payinvoice"@, invoice)) == match readable_hash(
            invoice,
        ) {
            Some(payment_hash) => if has_hash(faucet.users, payment_hash) {
                StepView::Answer(OWN_INVOICE@)
            } else {
                StepView::PayInvoice { invoice }
            },
            None => StepView::Usage,
        },
{
    law_requests(faucet, invoice);
}

/// Whatever the request, only foreign invoices are paid.
pub proof fn law_foreign_payments(faucet: FaucetView, method: Seq<char>, path: Seq<char>)
    ensures
        step_for(faucet, method, path) matches StepView::PayInvoice { invoice } ==> (readable_hash(
            invoice,
        ) matches Some(payment_hash) && !has_hash(faucet.users, payment_hash)),
{
}

/// A channel is opened in the fixed amount to the peer that was named: the key
/// is the one left of the at sign, the address the one right of it.
pub proof fn law_channels(faucet: FaucetView, method: Seq<char>, path: Seq<char>)
    ensures
        step_for(faucet, method, path) matches StepView::OpenChannel { key, address, sats, peer }
            ==> {
            &&& sats == faucet.sats_per_request
            &&& sides(peer, '@') matches Some((left, right)) && {
                &&& hex_text(key) == lower_hex(left)
                &&& parsed_socket_address(right) == Some(address)
                &&& peer == left.push('@') + right
            }
        },
{
    if let StepView::OpenChannel { key, address, sats, peer } = step_for(faucet, method, path) {
        assert(peer_of(peer) == Some((key, address)));
        law_sides(peer, '@');
        let (left, right) = sides(peer, '@').unwrap();
        assert(compressed_key(left) == Some(key));
        law_bytes_of_hex(left);
    }
}

/// A peer written as the notation of its key, an at sign and an address is
/// read as that key, with whatever the address is read as.
pub proof fn law_peer_written(key: Seq<u8>, address: Seq<char>)
    requires
        is_compressed_point(key),
    ensures
        peer_of(hex_text(key).push('@') + address) == match parsed_socket_address(address) {
            Some(address) => Some((key, address)),
            None => None,
        },
{
    let left = hex_text(key);
    let text = left.push('@') + address;
    law_hex_of_bytes(key);
    assert(text[left.len() as int] == '@');
    text.index_of_first_ensures('@');
    let i = text.index_of_first('@').unwrap();
    assert(i == left.len()) by {
        if i < left.len() {
            assert(text[i] == left[i]);
            assert(is_hex_digit(left[i]));
        }
    }
    assert(text.take(i) == left);
    assert(text.skip(i + 1) == address);
}

/// A passphrase holds no slash where no word does.
pub proof fn law_passphrase_in_path(passphrase: Seq<char>, words: Seq<Seq<char>>)
    requires
        is_passphrase(passphrase, words),
        lack(words, '/'),
    ensures
        !passphrase.contains('/'),
{
    reveal_strlit("-");
    let (a, b, c) = choose|first: Seq<char>, second: Seq<char>, third: Seq<char>|
        {
            &&& words.contains(first)
            &&& words.contains(second)
            &&& words.contains(third)
            &&& passphrase == #[trigger] passphrase_text(first, second, third)
        };
    let i = choose|i: int| 0 <= i < words.len() && words[i] == a;
    let j = choose|j: int| 0 <= j < words.len() && words[j] == b;
    let k = choose|k: int| 0 <= k < words.len() && words[k] == c;
    assert(!words[i].contains('/') && !words[j].contains('/') && !words[k].contains('/'));
    if passphrase.contains('/') {
        let m = choose|m: int| 0 <= m < passphrase.len() && passphrase[m] == '/';
        if m < a.len() {
            assert(a[m] == '/');
        } else if a.len() < m < a.len() + 1 + b.len() {
            assert(b[m - a.len() - 1] == '/');
        } else if m > a.len() + 1 + b.len() {
            assert(c[m - a.len() - 1 - b.len() - 1] == '/');
        }
    }
}

/// The challenge from its start to its end: a new participant gets an invoice,
/// sees the same invoice until it is paid, sees the time once it is, and is on
/// the leaderboard with that time.
pub proof fn law_challenge(
    faucet: FaucetView,
    passphrase: Seq<char>,
    invoice: InvoiceView,
    t1: Timestamp,
    t2: Timestamp,
)
    requires
        distinct(faucet.users),
        !registered(faucet.users, passphrase),
        !passphrase.contains('/'),
        t1.at() <= t2.at(),
    ensures
        ({
            let path = request_path("getinvoice"@, passphrase);
            let time = Duration { nanos: (t2.at() - t1.at()) as u128 };
            let new = FaucetView { users: with_new(faucet.users, passphrase), ..faucet };
            let invoiced = FaucetView {
                users: with_invoice(new.users, passphrase, invoice, t1),
                ..faucet
            };
            let settled = FaucetView {
                users: with_payment(invoiced.users, invoice.payment_hash, t2),
                ..faucet
            };
            &&& step_for(faucet, "GET"@, path) == StepView::Usage
            &&& step_for(new, "GET"@, path) == (StepView::CreateInvoice {
                passphrase,
                amount_msat: INVOICE_MSAT,
                expiry_secs: INVOICE_EXPIRY_SECS,
            })
            &&& step_for(invoiced, "GET"@, path) == StepView::Answer(
                challenge_open_text(passphrase, invoice.text),
            )
            &&& step_for(settled, "GET"@, path) == StepView::Answer(challenge_done_text(time))
            &&& ranking(finishers(settled.users)).contains(RowView { passphrase, time })
        }),
{
    let time = Duration { nanos: (t2.at() - t1.at()) as u128 };
    let new = FaucetView { users: with_new(faucet.users, passphrase), ..faucet };
    let invoiced = FaucetView { users: with_invoice(new.users, passphrase, invoice, t1), ..faucet };
    let settled = FaucetView {
        users: with_payment(invoiced.users, invoice.payment_hash, t2),
        ..faucet
    };
    law_requests(faucet, passphrase);
    law_requests(new, passphrase);
    law_requests(invoiced, passphrase);
    law_requests(settled, passphrase);
    law_registered(faucet.users, passphrase, passphrase.push(' '));
    law_invoice_given(new.users, passphrase, invoice, t1, passphrase);
    law_payment_settled(invoiced.users, invoice.payment_hash, t2, passphrase);
    let row = RowView { passphrase, time };
    let last = faucet.users.len() as int;
    assert(new.users[last].state == UserStateView::New);
    assert(invoiced.users[last].state == UserStateView::New.given(invoice, t1));
    assert(settled.users[last].state == UserStateView::New.given(invoice, t1).paid(t2));
    assert(finished_as(settled.users[last], row));
    assert(has_finished(settled.users, row));
    law_finishers(settled.users, row);
}

/// What follows the argument in a path does not matter, except that an error
/// about an address quotes the whole path.
pub proof fn law_rest_ignored(
    faucet: FaucetView,
    name: Seq<char>,
    argument: Seq<char>,
    rest: Seq<char>,
)
    requires
        !name.contains('/'),
        !argument.contains('/'),
        name == "getsats"@ ==> address_error(argument) is None,
    ensures
        step_for(faucet, "GET"@, request_path(name, argument) + "/"@ + rest) == step_for(
            faucet,
            "GET"@,
            request_path(name, argument),
        ),
{
    reveal_strlit("/");
    let path = request_path(name, argument);
    let longer = path + "/"@ + rest;
    lemma_request_path(name, argument);
    lemma_pieces_prefix(path, rest, '/');
    assert(longer == path.push('/') + rest);
    let parts = pieces(longer, '/');
    assert(parts.take(3)[1] == parts[1]);
    assert(parts.take(3)[2] == parts[2]);
}

/// Coins are asked for by the bare address alone: with anything after it, the
/// answer is the usage.
pub proof fn law_bare_address_alone(faucet: FaucetView, name: Seq<char>, rest: Seq<char>)
    requires
        !name.contains('/'),
        !is_request_name(name),
    ensures
        step_for(faucet, "GET"@, bare_path(name) + "/"@ + rest) == StepView::Usage,
{
    reveal_strlit("/");
    let path = bare_path(name);
    let longer = path + "/"@ + rest;
    lemma_request_path(name, Seq::empty());
    lemma_pieces_prefix(path, rest, '/');
    assert(longer == path.push('/') + rest);
    assert(pieces(longer, '/').take(2)[1] == pieces(longer, '/')[1]);
}

} // verus!
