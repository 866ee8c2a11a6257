# minifaucet

A minimal faucet that hands out sats over a web server: on chain, as lightning
channels, and through a challenge in which participants race to pay an invoice.
What it decides is verified with [Verus](https://github.com/verus-lang/verus).

## Usage

First run `bitcoind`, e.g.:

```shell
bitcoind -regtest -fallbackfee=0.00001
```

Then run `minifaucet`:

```shell
minifaucet SATS_PER_REQUEST LISTEN_ADDR RPC_URL [ESPLORA_URL] COOKIE_FILE_PATH
```

Go to `http://LISTEN_ADDR/YOUR_BTC_ADDRESS` or
`http://LISTEN_ADDR/getsats/YOUR_BTC_ADDRESS` to get some sats. The page at
`http://LISTEN_ADDR/` explains what else can be asked for.

## Layout

- `src/faucet.rs`: the faucet, and the step to take for each request
- `src/users.rs`, `src/user.rs`, `src/clock.rs`: who takes part in the
  challenge, and where they stand
- `src/leaderboard.rs`: the results, the fastest first
- `src/pages.rs`: the answers in words
- `src/passphrase.rs`: the names that participants go by
- `src/parse.rs`, `src/peer.rs`, `src/hex.rs`, `src/text.rs`: reading addresses,
  invoices, peers and paths
- `src/laws.rs`: what holds of the faucet as a whole
- `app/`: the web server, the bitcoin node and the lightning node around it
