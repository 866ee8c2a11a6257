use minifaucet::clock::{Duration, Timestamp};
use minifaucet::faucet::{push_msat, Step};
use minifaucet::leaderboard::{has_known_times, leaderboard, rank};
use minifaucet::pages::{
    channel_reply, default_response, mk_response, payment_reply, registered, send_reply,
};
use minifaucet::peer::SocketAddress;
use minifaucet::user::{Invoice, UserState};
use minifaucet::users::Users;
use minifaucet::FaucetSvc;

const KEY: &str = "0279be667ef9dcbbac55a06295ce870b07029bfcdb2dce28d959f2815b16f81798";
const ADDRESS: &str = "bcrt1qmlkulu8hladzejj9gdcjp26cyhq9ql30s7c4ad";
const HASH: [u8; 32] = [
    0, 1, 2, 3, 4, 5, 6, 7, 8, 9, 0, 1, 2, 3, 4, 5, 6, 7, 8, 9, 0, 1, 2, 3, 4, 5, 6, 7, 8, 9, 1, 2,
];
const INVOICE: &str = "lnbc2500u1pvjluezsp5zyg3zyg3zyg3zyg3zyg3zyg3zyg3zyg3zyg3zyg3zyg3zyg3zygspp5qqqsyqcyq5rqwzqfqqqsyqcyq5rqwzqfqqqsyqcyq5rqwzqfqypqdq5xysxxatsyp3k7enxv4jsxqzpu9qrsgquk0rl77nj30yxdy8j9vdx85fkpmdla2087ne0xh8nhedh8w27kyke0lp53ut353s06fv3qfegext0eh0ymjpf39tuven09sam30g4vgpfna3rh";

fn at(secs: u64) -> Timestamp {
    Timestamp { before_epoch: false, secs, nanos: 0 }
}

fn invoice(text: &str, payment_hash: [u8; 32]) -> Invoice {
    Invoice { text: text.to_string(), payment_hash }
}

fn faucet(passphrases: &[&str]) -> FaucetSvc {
    let mut users = Users::new();
    for passphrase in passphrases {
        assert!(users.register(passphrase));
    }
    FaucetSvc::new(1000, users, vec!["zoo".to_string()])
}

fn answer(step: Step) -> String {
    match step {
        Step::Answer(message) => message,
        other => panic!("no answer: {:?}", other),
    }
}

#[test]
fn only_get_is_served() {
    let faucet = faucet(&[]);
    assert_eq!(faucet.call("POST", "/getnodeid"), Step::Usage);
    assert_eq!(faucet.call("get", "/getnodeid"), Step::Usage);
    assert_eq!(faucet.call("GET", "/getnodeid"), Step::NodeId);
}

#[test]
fn requests_by_name() {
    let faucet = faucet(&[]);
    assert_eq!(faucet.call("GET", "/getfundingaddress"), Step::FundingAddress);
    assert_eq!(faucet.call("GET", "/getleaderboard"), Step::Leaderboard);
    assert_eq!(faucet.call("GET", "/getinvoice"), Step::Register);
    assert_eq!(faucet.call("GET", "/getnodeid/and/more"), Step::NodeId);
    assert_eq!(faucet.call("GET", "/getsats"), Step::Usage);
    assert_eq!(faucet.call("GET", "/getchannel"), Step::Usage);
    assert_eq!(faucet.call("GET", "/payinvoice"), Step::Usage);
}

#[test]
fn requests_for_nothing() {
    let faucet = faucet(&[]);
    assert_eq!(faucet.call("GET", ""), Step::Usage);
    assert_eq!(faucet.call("GET", "/"), Step::Usage);
    assert_eq!(faucet.call("GET", "*"), Step::Usage);
    assert_eq!(faucet.call("GET", "getnodeid"), Step::Usage);
    assert_eq!(faucet.call("GET", "/nothing"), Step::Usage);
    assert_eq!(faucet.call("GET", "//getnodeid"), Step::Usage);
    assert_eq!(faucet.call("GET", "/GETNODEID"), Step::Usage);
}

#[test]
fn sats_for_an_address() {
    let faucet = faucet(&[]);
    let step = Step::SendToAddress { address: ADDRESS.to_string(), sats: 1000 };
    assert_eq!(faucet.call("GET", &format!("/getsats/{}", ADDRESS)), step);
    assert_eq!(faucet.call("GET", &format!("/getsats/{}/more", ADDRESS)), step);
    assert_eq!(faucet.call("GET", &format!("/getsats/{}/and/more", ADDRESS)), step);
}

#[test]
fn sats_for_a_bare_address() {
    let faucet = faucet(&[]);
    assert_eq!(
        faucet.call("GET", &format!("/{}", ADDRESS)),
        Step::SendToAddress { address: ADDRESS.to_string(), sats: 1000 }
    );
    assert_eq!(
        faucet.call("GET", "/1BvBMSEYstWetqTFn5Au4m4GFg7xJaNVN2"),
        Step::SendToAddress {
            address: "1BvBMSEYstWetqTFn5Au4m4GFg7xJaNVN2".to_string(),
            sats: 1000
        }
    );
}

#[test]
fn nothing_for_more_than_a_bare_address() {
    let faucet = faucet(&[]);
    assert_eq!(faucet.call("GET", &format!("/{}/", ADDRESS)), Step::Usage);
    assert_eq!(faucet.call("GET", &format!("/{}/x", ADDRESS)), Step::Usage);
    assert_eq!(faucet.call("GET", &format!("/{}/x/y", ADDRESS)), Step::Usage);
}

#[test]
fn sats_for_a_bad_address() {
    let faucet = faucet(&[]);
    let message = answer(faucet.call("GET", "/getsats/nowhere"));
    assert!(message.starts_with("ERR: "));
    assert!(message.ends_with(" for request: \"/getsats/nowhere\""));
    assert!(message.len() > "ERR:  for request: \"/getsats/nowhere\"".len());
    assert!(answer(faucet.call("GET", "/getsats/")).starts_with("ERR: "));
    let other = answer(faucet.call("GET", "/getsats/bc1"));
    assert_ne!(message[..10], other[..10]);
}

#[test]
fn steps_for_given_checks() {
    let faucet = faucet(&[]);
    assert_eq!(
        faucet.sats_step("/getsats/x", "x", Err("bad".to_string())),
        Step::Answer("ERR: bad for request: \"/getsats/x\"".to_string())
    );
    let step = Step::SendToAddress { address: "x".to_string(), sats: 1000 };
    assert_eq!(faucet.sats_step("/getsats/x", "x", Ok(())), step);
    assert_eq!(faucet.bare_step("x", Ok(())), step);
    assert_eq!(faucet.bare_step("x", Err("bad".to_string())), Step::Usage);
    assert_eq!(
        faucet.channel_step("x", Err(())),
        Step::Answer("ERR: Failed to parse peer info: x".to_string())
    );
    assert_eq!(faucet.payment_step("x", None), Step::Usage);
    assert_eq!(
        faucet.payment_step("x", Some(HASH)),
        Step::PayInvoice { invoice: "x".to_string() }
    );
}

#[test]
fn channel_to_a_peer() {
    let faucet = faucet(&[]);
    let peer = format!("{}@127.0.0.1:9735", KEY);
    match faucet.call("GET", &format!("/getchannel/{}", peer)) {
        Step::OpenChannel { key, address, sats, peer: named } => {
            assert_eq!(key.bytes[0], 2);
            assert_eq!(key.bytes[32], 0x98);
            assert_eq!(address, SocketAddress::TcpIpV4 { addr: [127, 0, 0, 1], port: 9735 });
            assert_eq!(sats, 1000);
            assert_eq!(named, peer);
        }
        other => panic!("no channel: {:?}", other),
    }
    assert_eq!(
        faucet.call("GET", "/getchannel/nobody"),
        Step::Answer("ERR: Failed to parse peer info: nobody".to_string())
    );
}

#[test]
fn half_a_channel_is_pushed() {
    assert_eq!(push_msat(0), 0);
    assert_eq!(push_msat(1), 500);
    assert_eq!(push_msat(100_000), 50_000_000);
    assert_eq!(push_msat(u64::MAX / 1000), u64::MAX / 1000 * 500);
}

#[test]
fn foreign_invoices_are_paid() {
    let faucet = faucet(&["a-b-c"]);
    assert_eq!(
        faucet.call("GET", &format!("/payinvoice/{}", INVOICE)),
        Step::PayInvoice { invoice: INVOICE.to_string() }
    );
    assert_eq!(faucet.call("GET", "/payinvoice/nonsense"), Step::Usage);
}

#[test]
fn own_invoices_are_not_paid() {
    let mut faucet = faucet(&["a-b-c", "d-e-f"]);
    faucet.invoice_created_at("d-e-f", invoice("text", HASH), at(1));
    let own = Step::Answer("Won't pay my own invoices!".to_string());
    assert_eq!(faucet.call("GET", &format!("/payinvoice/{}", INVOICE)), own);
    faucet.payment_received_at(&HASH, at(2));
    assert_eq!(faucet.call("GET", &format!("/payinvoice/{}", INVOICE)), own);
}

#[test]
fn challenge_from_start_to_end() {
    let mut faucet = faucet(&["a-b-c", "d-e-f"]);
    assert_eq!(faucet.call("GET", "/getinvoice/x-y-z"), Step::Usage);
    let create = Step::CreateInvoice {
        passphrase: "a-b-c".to_string(),
        amount_msat: 10_000_000,
        expiry_secs: 7200,
    };
    assert_eq!(faucet.call("GET", "/getinvoice/a-b-c"), create);
    let open = "<meta http-equiv=\"refresh\" content=\"5\" />Hi a-b-c! Please pay this invoice as quickly as possible:<br><br>lnbcrt1";
    assert_eq!(faucet.invoice_created_at("a-b-c", invoice("lnbcrt1", [7; 32]), at(100)), open);
    assert_eq!(answer(faucet.call("GET", "/getinvoice/a-b-c")), open);
    faucet.payment_received_at(&[8; 32], at(101));
    assert_eq!(answer(faucet.call("GET", "/getinvoice/a-b-c")), open);
    faucet.payment_received_at(&[7; 32], at(142));
    let done = "DONE! You paid the invoice in 42 seconds!";
    assert_eq!(answer(faucet.call("GET", "/getinvoice/a-b-c")), done);
    faucet.payment_received_at(&[7; 32], at(200));
    faucet.invoice_created_at("a-b-c", invoice("other", [9; 32]), at(300));
    assert_eq!(answer(faucet.call("GET", "/getinvoice/a-b-c")), done);
    assert!(matches!(faucet.call("GET", "/getinvoice/d-e-f"), Step::CreateInvoice { .. }));
}

#[test]
fn challenge_by_the_clock() {
    let mut faucet = faucet(&["a-b-c"]);
    faucet.invoice_created("a-b-c", invoice("lnbcrt1", [7; 32]));
    faucet.payment_received(&[7; 32]);
    assert!(faucet.has_known_times());
    let message = answer(faucet.call("GET", "/getinvoice/a-b-c"));
    assert_eq!(message, "DONE! You paid the invoice in 0 seconds!");
}

#[test]
fn challenge_with_a_clock_that_goes_back() {
    let mut faucet = faucet(&["a-b-c"]);
    faucet.invoice_created_at("a-b-c", invoice("lnbcrt1", [7; 32]), at(100));
    faucet.payment_received_at(&[7; 32], at(99));
    assert!(!faucet.has_known_times());
    assert!(answer(faucet.call("GET", "/getinvoice/a-b-c")).ends_with("<br><br>lnbcrt1"));
}

#[test]
fn new_users_get_fresh_passphrases() {
    let words = vec!["zoo".to_string(), "zone".to_string()];
    let mut faucet = FaucetSvc::new(1, Users::new(), words);
    let mut seen: Vec<String> = Vec::new();
    for _ in 0..8 {
        let free = faucet.free_passphrase().unwrap();
        assert!(!seen.contains(&free));
        assert_eq!(faucet.call("GET", &format!("/getinvoice/{}", free)), Step::Usage);
        let passphrase = faucet.new_user();
        assert!(!seen.contains(&passphrase));
        assert!(matches!(
            faucet.call("GET", &format!("/getinvoice/{}", passphrase)),
            Step::CreateInvoice { .. }
        ));
        seen.push(passphrase);
    }
    assert_eq!(faucet.free_passphrase(), None);
    assert_eq!(FaucetSvc::new(1, Users::new(), vec![]).free_passphrase(), None);
}

#[test]
fn first_free_passphrase() {
    let words = vec!["zoo".to_string(), "zone".to_string()];
    let mut users = Users::new();
    for taken in ["zoo-zoo-zoo", "zoo-zoo-zone", "zoo-zone-zone"] {
        assert!(!users.contains(taken));
        assert!(users.register(taken));
        assert!(users.contains(taken));
    }
    let faucet = FaucetSvc::new(1, users, words);
    assert_eq!(faucet.free_passphrase(), Some("zoo-zone-zoo".to_string()));
}

#[test]
fn passphrases_are_registered_once() {
    let mut users = Users::new();
    assert!(users.register("a-b-c"));
    assert!(!users.register("a-b-c"));
    assert!(users.register("a-b-d"));
    assert_eq!(users.len(), 2);
    assert_eq!(users.nth(1).passphrase, "a-b-d");
    assert_eq!(users.state("a-b-c"), Some(&UserState::New));
    assert_eq!(users.state("x"), None);
}

#[test]
fn user_states() {
    let mut state = UserState::New;
    assert_eq!(state.invoice(), None);
    assert_eq!(state.time_diff(), None);
    state.paid_invoice_at(at(1));
    assert_eq!(state, UserState::New);
    state.created_invoice_at(invoice("one", [1; 32]), at(2));
    state.created_invoice_at(invoice("two", [2; 32]), at(3));
    assert_eq!(state.invoice(), Some(&invoice("one", [1; 32])));
    assert_eq!(state.time_diff(), None);
    assert!(state.has_hash(&[1; 32]) && !state.has_hash(&[2; 32]));
    state.paid_invoice_at(at(5));
    state.paid_invoice_at(at(9));
    assert_eq!(state.time_diff(), Some(Duration { nanos: 3_000_000_000 }));
    assert_eq!(state.invoice(), Some(&invoice("one", [1; 32])));
}

#[test]
fn user_states_by_the_clock() {
    let mut state = UserState::New;
    state.created_invoice(invoice("one", [1; 32]));
    match &state {
        UserState::CreatedInvoice { time_created, .. } => {
            assert!(!time_created.before_epoch);
            assert!(time_created.secs > 1_600_000_000);
            assert!(time_created.nanos < 1_000_000_000);
        }
        other => panic!("no invoice: {:?}", other),
    }
    state.paid_invoice();
    assert!(state.time_diff().unwrap().as_secs() < 20);
}

#[test]
fn times_around_the_epoch() {
    let before = Timestamp { before_epoch: true, secs: 1, nanos: 500_000_000 };
    let after = Timestamp { before_epoch: false, secs: 2, nanos: 250_000_000 };
    let time = after.duration_since(&before).unwrap();
    assert_eq!(time.nanos, 3_750_000_000);
    assert_eq!(time.as_secs(), 3);
    assert_eq!(before.duration_since(&after), None);
    assert_eq!(before.duration_since(&before), Some(Duration { nanos: 0 }));
}

#[test]
fn leaderboard_by_time() {
    let mut users = Users::new();
    for (i, name) in ["slow", "open", "fast", "tied", "new"].iter().enumerate() {
        assert!(users.register(name));
        if *name != "new" {
            users.give_invoice_at(name, invoice(name, [i as u8; 32]), at(10));
        }
    }
    users.settle_at(&[0; 32], at(100));
    users.settle_at(&[2; 32], at(15));
    users.settle_at(&[3; 32], at(15));
    assert!(has_known_times(&users));
    let rows = rank(&users);
    let names: Vec<&str> = rows.iter().map(|row| row.passphrase.as_str()).collect();
    assert_eq!(names, vec!["fast", "tied", "slow"]);
    let text = leaderboard(&users);
    let cells = "<tr><td style=\"padding: 10px\">fast</td><td style=\"padding: 10px\">5</td><tr><td style=\"padding: 10px\">tied</td><td style=\"padding: 10px\">5</td><tr><td style=\"padding: 10px\">slow</td><td style=\"padding: 10px\">90</td></table></center>";
    assert!(text.ends_with(cells));
    assert!(users.knows_hash(&[1; 32]) && !users.knows_hash(&[4; 32]));
}

#[test]
fn leaderboard_without_results() {
    assert_eq!(
        faucet(&["a-b-c"]).leaderboard(),
        "<center><meta http-equiv=\"refresh\" content=\"5\" /><table style=\"margin-left:auto;margin-right:auto;text-align: center;\"><tr style=\"border-bottom: 1px solid black\"><th style=\"padding: 10px\">Passphrase</th><th style=\"padding:10px\">Time (sec.)</th></tr></table></center>"
    );
}

#[test]
fn replies() {
    assert_eq!(send_reply(Ok("ab12".to_string()), "/p"), "OK: ab12");
    assert_eq!(send_reply(Err("no".to_string()), "/p"), "ERR: no for request: \"/p\"");
    assert_eq!(channel_reply(Ok(()), 1000, "me"), "Opening channel of 1000sat to: me");
    assert_eq!(
        channel_reply(Err("Oops".to_string()), 1000, "me"),
        "ERR: Channel open failed: Oops"
    );
    assert_eq!(
        payment_reply(Ok(HASH)),
        "Paying invoice with hash: 0001020304050607080900010203040506070809000102030405060708090102"
    );
    assert_eq!(payment_reply(Err("broke".to_string())), "Failed to pay invoice: broke");
    assert_eq!(
        registered("a-b-c"),
        "<meta http-equiv=\"refresh\" content=\"0; URL=./getinvoice/a-b-c\" />Generated new passphrase: a-b-c"
    );
}

#[test]
fn html_pages() {
    assert_eq!(
        mk_response("hi"),
        "<html><style>body { font-family: \"Lucida Console\", \"Courier New\", monospace; }</style><head></head><body>hi</body></html>"
    );
    let usage = default_response();
    assert!(usage.contains("<pre>Usage:\n\t/getsats/BITCOIN_ADDRESS\t\t... to get some sats\n"));
    assert!(usage.ends_with("(e.g., to balance a channel)</pre></body></html>"));
}
