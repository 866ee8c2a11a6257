use minifaucet::hex::{bytes_to_hex, hex_to_vec};
use minifaucet::parse::{has_overflowing_amount, payment_hash_of};
use minifaucet::peer::{hex_to_compressed_pubkey, peer_with_address, PublicKey, SocketAddress};
use minifaucet::text::{chars_of, decimal, parse_wordlist, split, split_once, str_eq};
use minifaucet::{convert_peer_info, passphrase};

const KEY: &str = "0279be667ef9dcbbac55a06295ce870b07029bfcdb2dce28d959f2815b16f81798";
const INVOICE: &str = "lnbc2500u1pvjluezsp5zyg3zyg3zyg3zyg3zyg3zyg3zyg3zyg3zyg3zyg3zyg3zyg3zygspp5qqqsyqcyq5rqwzqfqqqsyqcyq5rqwzqfqqqsyqcyq5rqwzqfqypqdq5xysxxatsyp3k7enxv4jsxqzpu9qrsgquk0rl77nj30yxdy8j9vdx85fkpmdla2087ne0xh8nhedh8w27kyke0lp53ut353s06fv3qfegext0eh0ymjpf39tuven09sam30g4vgpfna3rh";

fn strings(list: &[&str]) -> Vec<String> {
    list.iter().map(|s| s.to_string()).collect()
}

#[test]
fn hex_digits_of_both_cases() {
    assert_eq!(hex_to_vec("00ff7FaB"), Some(vec![0x00, 0xff, 0x7f, 0xab]));
    assert_eq!(hex_to_vec(""), Some(vec![]));
}

#[test]
fn hex_odd_digit_is_dropped() {
    assert_eq!(hex_to_vec("abc"), Some(vec![0xab]));
    assert_eq!(hex_to_vec("abg"), None);
}

#[test]
fn hex_refuses_other_characters() {
    assert_eq!(hex_to_vec("0x"), None);
    assert_eq!(hex_to_vec("/0"), None);
    assert_eq!(hex_to_vec(":0"), None);
    assert_eq!(hex_to_vec("@0"), None);
    assert_eq!(hex_to_vec("G0"), None);
    assert_eq!(hex_to_vec("`0"), None);
    assert_eq!(hex_to_vec("é"), None);
}

#[test]
fn hex_round_trip() {
    let bytes: Vec<u8> = (0..=255).collect();
    let text = bytes_to_hex(&bytes);
    assert_eq!(text.len(), 512);
    assert!(text.starts_with("000102") && text.ends_with("fdfeff"));
    assert_eq!(hex_to_vec(&text), Some(bytes));
    assert_eq!(bytes_to_hex(&hex_to_vec("DeadBEEF").unwrap()), "deadbeef");
}

#[test]
fn public_key_of_the_generator() {
    let key = hex_to_compressed_pubkey(KEY).unwrap();
    assert_eq!(bytes_to_hex(&key.bytes), KEY);
    let upper = hex_to_compressed_pubkey(&KEY.to_uppercase()).unwrap();
    assert_eq!(upper, key);
}

#[test]
fn public_key_off_the_curve_is_refused() {
    let zeros = "0".repeat(63);
    assert!(hex_to_compressed_pubkey(&format!("02{}1", zeros)).is_some());
    assert!(hex_to_compressed_pubkey(&format!("03{}1", zeros)).is_some());
    assert!(hex_to_compressed_pubkey(&format!("02{}5", zeros)).is_none());
    assert!(hex_to_compressed_pubkey(&format!("04{}1", zeros)).is_none());
    assert!(hex_to_compressed_pubkey(&format!("02{}", "f".repeat(64))).is_none());
}

#[test]
fn public_key_of_another_length_is_refused() {
    assert!(hex_to_compressed_pubkey(&KEY[..64]).is_none());
    assert!(hex_to_compressed_pubkey(&format!("{}00", KEY)).is_none());
    assert!(hex_to_compressed_pubkey("").is_none());
    assert!(hex_to_compressed_pubkey(&"g".repeat(66)).is_none());
}

#[test]
fn peer_by_ip_address() {
    let (key, address) = convert_peer_info(&format!("{}@127.0.0.1:9735", KEY)).unwrap();
    assert_eq!(bytes_to_hex(&key.bytes), KEY);
    assert_eq!(address, SocketAddress::TcpIpV4 { addr: [127, 0, 0, 1], port: 9735 });
    let (_, address) = convert_peer_info(&format!("{}@[::1]:80", KEY)).unwrap();
    let addr = [0, 0, 0, 0, 0, 0, 0, 0, 0, 0, 0, 0, 0, 0, 0, 1];
    assert_eq!(address, SocketAddress::TcpIpV6 { addr, port: 80 });
}

#[test]
fn peer_by_name() {
    let (_, address) = convert_peer_info(&format!("{}@example.com:1", KEY)).unwrap();
    assert_eq!(address, SocketAddress::Hostname { hostname: "example.com".to_string(), port: 1 });
    let onion = format!("{}@{}.onion:9735", KEY, "a".repeat(56));
    let (_, address) = convert_peer_info(&onion).unwrap();
    assert_eq!(
        address,
        SocketAddress::OnionV3 { ed25519_pubkey: [0; 32], checksum: 0, version: 0, port: 9735 }
    );
}

#[test]
fn peer_that_cannot_be_read() {
    assert_eq!(convert_peer_info(""), Err(()));
    assert_eq!(convert_peer_info(KEY), Err(()));
    assert_eq!(convert_peer_info("@127.0.0.1:9735"), Err(()));
    assert_eq!(convert_peer_info(&format!("{}@", KEY)), Err(()));
    assert_eq!(convert_peer_info(&format!("{}@127.0.0.1", KEY)), Err(()));
    assert_eq!(convert_peer_info(&format!("{}@127.0.0.1:99999", KEY)), Err(()));
    assert_eq!(convert_peer_info(&format!("{}@@127.0.0.1:9735", KEY)), Err(()));
}

#[test]
fn peer_with_and_without_address() {
    let key = PublicKey { bytes: [2; 33] };
    let address = SocketAddress::OnionV2([7; 12]);
    assert_eq!(
        peer_with_address(key.clone(), Some(address.clone())),
        Ok((key.clone(), address))
    );
    assert_eq!(peer_with_address(key, None), Err(()));
}

#[test]
fn splitting() {
    assert_eq!(split("/a/b", '/'), strings(&["", "a", "b"]));
    assert_eq!(split("", '/'), strings(&[""]));
    assert_eq!(split("//", '/'), strings(&["", "", ""]));
    assert_eq!(split("né/é", '/'), strings(&["né", "é"]));
    assert_eq!(split("a/b/c", '/').join("/"), "a/b/c");
}

#[test]
fn splitting_once() {
    assert_eq!(split_once("a@b@c", '@'), Some(("a".to_string(), "b@c".to_string())));
    assert_eq!(split_once("@", '@'), Some(("".to_string(), "".to_string())));
    assert_eq!(split_once("abc", '@'), None);
}

#[test]
fn comparing_and_taking_apart() {
    assert!(str_eq("GET", "GET"));
    assert!(!str_eq("GET", "get"));
    assert_eq!(chars_of("aé"), vec!['a', 'é']);
}

#[test]
fn word_list_lines() {
    assert_eq!(parse_wordlist("abandon\nability\n"), strings(&["abandon", "ability"]));
    assert_eq!(parse_wordlist("abandon\r\nability"), strings(&["abandon", "ability"]));
    assert_eq!(parse_wordlist("foo\nbar\n\r\nbaz\r"), strings(&["foo", "bar", "", "baz\r"]));
    assert_eq!(parse_wordlist(""), strings(&[]));
    assert_eq!(parse_wordlist("\n"), strings(&[""]));
}

#[test]
fn decimal_numbers() {
    assert_eq!(decimal(0), "0");
    assert_eq!(decimal(9), "9");
    assert_eq!(decimal(10), "10");
    assert_eq!(decimal(u64::MAX as u128), u64::MAX.to_string());
    assert_eq!(decimal(u128::MAX), u128::MAX.to_string());
}

#[test]
fn invoice_payment_hash() {
    let hash = payment_hash_of(INVOICE).unwrap();
    assert_eq!(
        bytes_to_hex(&hash),
        "0001020304050607080900010203040506070809000102030405060708090102"
    );
    assert_eq!(payment_hash_of(&INVOICE.to_uppercase()), Some(hash));
}

#[test]
fn invoice_that_cannot_be_read() {
    assert_eq!(payment_hash_of(""), None);
    assert_eq!(payment_hash_of("lnbc1"), None);
    assert_eq!(payment_hash_of(&INVOICE[..INVOICE.len() - 1]), None);
    assert_eq!(payment_hash_of(&INVOICE.replace("2500u", "2501u")), None);
}

#[test]
fn invoice_amounts_that_overflow() {
    assert!(has_overflowing_amount("lnbc184467451pvj"));
    assert!(!has_overflowing_amount("lnbc184467441pvj"));
    assert!(has_overflowing_amount("lnbc999999999999999999999999999991pvj"));
    assert!(!has_overflowing_amount("lnbc99999999999999u1pvj"));
    assert!(!has_overflowing_amount("99999999999"));
    assert!(!has_overflowing_amount(""));
    assert!(!has_overflowing_amount(INVOICE));
    assert_eq!(payment_hash_of("lnbc184467451pvj"), None);
}

#[test]
fn passphrases_are_three_words_of_the_list() {
    let words = strings(&["abandon", "ability", "able"]);
    let mut seen: Vec<String> = Vec::new();
    for _ in 0..200 {
        let text = passphrase::generate_passphrase(&words);
        let parts: Vec<&str> = text.split('-').collect();
        assert_eq!(parts.len(), 3);
        assert!(parts.iter().all(|part| words.iter().any(|word| word == part)));
        if !seen.contains(&text) {
            seen.push(text);
        }
    }
    assert!(seen.len() > 1);
    assert_eq!(passphrase::join_words("zoo", "zone", "zero"), "zoo-zone-zero");
}
