//! The live exchange's request signing and the reading of its answers.
//!
//! A request carries its parameters, the time in milliseconds, and a
//! signature: the HMAC-SHA256 of everything before it under the account's
//! secret, in lower-case hexadecimal.

use vstd::prelude::*;
use vstd::string::StringExecFns;
use hmac::{Hmac, Mac};
use sha2::Sha256;
use crate::clock::now_millis;
use crate::decimal::{saturate, saturating};
use crate::error::Error;
use crate::ids::{fresh_id, ID_LEN};
use crate::notation::{decimal_of, decimal_text, format_decimal, format_integer, numeral, parse_decimal};
use crate::stream::decimal_or_zero;
use crate::types::{Fill, Order, OrderSide, Position, TradingMode};

verus! {

/// The HMAC-SHA256 of `message` under `key`: the name for what the `hmac`
/// crate computes with `sha2::Sha256`.
pub uninterp spec fn hmac_sha256_of(key: Seq<u8>, message: Seq<u8>) -> Seq<u8>;

/// The HMAC-SHA256 of `message` under `key`, by `Mac::new_from_slice`,
/// `Mac::update` and `Mac::finalize` of `hmac::Hmac<sha2::Sha256>`. Trusted:
/// the code depends on the key and the message alone. An HMAC takes a key of
/// any length, so the construction does not fail.
#[verifier::external_body]
fn hmac_sha256(key: &[u8], message: &[u8]) -> (code: Vec<u8>)
    ensures
        code@ == hmac_sha256_of(key@, message@),
{
    let mut mac = Hmac::<Sha256>::new_from_slice(key).expect("HMAC accepts any key length");
    mac.update(message);
    mac.finalize().into_bytes().to_vec()
}

/// The lower-case hexadecimal digit for `n`.
pub open spec fn hex_digit(n: int) -> char {
    if n == 0 {
        '0'
    } else if n == 1 {
        '1'
    } else if n == 2 {
        '2'
    } else if n == 3 {
        '3'
    } else if n == 4 {
        '4'
    } else if n == 5 {
        '5'
    } else if n == 6 {
        '6'
    } else if n == 7 {
        '7'
    } else if n == 8 {
        '8'
    } else if n == 9 {
        '9'
    } else if n == 10 {
        'a'
    } else if n == 11 {
        'b'
    } else if n == 12 {
        'c'
    } else if n == 13 {
        'd'
    } else if n == 14 {
        'e'
    } else {
        'f'
    }
}

/// `bytes` in lower-case hexadecimal: two digits for each byte, the high
/// half first.
pub open spec fn hex_of(bytes: Seq<u8>) -> Seq<char>
    decreases bytes.len(),
{
    if bytes.len() == 0 {
        Seq::empty()
    } else {
        hex_of(bytes.drop_last()).push(hex_digit(bytes.last() as int / 16)).push(
            hex_digit(bytes.last() as int % 16),
        )
    }
}

/// `bytes` in lower-case hexadecimal, by `hex::encode`. Trusted: each byte
/// becomes two lower-case digits, the high half first.
#[verifier::external_body]
fn hex_encode(bytes: &[u8]) -> (text: String)
    ensures
        text@ == hex_of(bytes@),
{
    hex::encode(bytes)
}

/// The base address of the exchange's REST interface.
pub open spec fn base_url() -> Seq<char> {
    "https://api.binance.com"@
}

/// The signature of `query` under `secret`.
pub open spec fn signature_of(secret: Seq<char>, query: Seq<char>) -> Seq<char> {
    hex_of(hmac_sha256_of(vstd::utf8::encode_utf8(secret), vstd::utf8::encode_utf8(query)))
}

/// `params` with the time appended.
pub open spec fn stamped(params: Seq<char>, timestamp_ms: u64) -> Seq<char> {
    params + "&timestamp="@ + numeral(timestamp_ms as nat)
}

/// The stamped parameters with their signature appended.
pub open spec fn signed(secret: Seq<char>, params: Seq<char>, timestamp_ms: u64) -> Seq<char> {
    stamped(params, timestamp_ms) + "&signature="@ + signature_of(
        secret,
        stamped(params, timestamp_ms),
    )
}

/// The kind of an order as the exchange spells it.
pub open spec fn order_type_text(order: Order) -> Seq<char> {
    if order.price is Some {
        "LIMIT"@
    } else {
        "MARKET"@
    }
}

/// The parameters of an order: its pair, side, kind and quantity, and for a
/// limit order its price, good till cancelled.
pub open spec fn order_params_of(order: Order) -> Seq<char> {
    let head = "symbol="@ + order.pair@ + "&side="@ + order.side.text() + "&type="@ + order_type_text(
        order,
    ) + "&quantity="@ + decimal_text(order.quantity);
    match order.price {
        Some(price) => head + "&price="@ + decimal_text(price) + "&timeInForce=GTC"@,
        None => head,
    }
}

/// The price of a fill: the price of the first fill record where there is
/// one that can be read, else the order's limit price, else zero.
pub open spec fn fill_price_from(first_fill: Option<String>, limit: Option<i64>) -> i64 {
    match first_fill {
        Some(text) if decimal_of(text@) is Some => decimal_of(text@)->0,
        _ => match limit {
            Some(price) => price,
            None => 0,
        },
    }
}

/// The message of the error for an answer that is no success.
pub open spec fn http_failure(status: Seq<char>, body: Seq<char>) -> Seq<char> {
    "HTTP "@ + status + ": "@ + body
}

/// One balance of the account, amounts in writing.
#[derive(Debug)]
pub struct Balance {
    pub asset: String,
    pub free: String,
    pub locked: String,
}

/// Whether a balance counts as a position: some of it is free or locked,
/// and it is neither the quote currency nor the fee token.
pub open spec fn is_held(balance: Balance) -> bool {
    &&& decimal_or_zero(balance.free@) > 0 || decimal_or_zero(balance.locked@) > 0
    &&& balance.asset@ != "USDT"@
    &&& balance.asset@ != "BNB"@
}

/// The balances among the first `n` that count as positions, in order.
pub open spec fn holdings(balances: Seq<Balance>, n: nat) -> Seq<Balance>
    decreases n,
{
    if n == 0 {
        Seq::empty()
    } else if is_held(balances[n - 1]) {
        holdings(balances, (n - 1) as nat).push(balances[n - 1])
    } else {
        holdings(balances, (n - 1) as nat)
    }
}

/// `position` stands for `balance`: a live buy of the asset against the
/// quote currency, for all that is free or locked, at an unknown entry
/// price, written as zero.
pub open spec fn stands_for(position: Position, balance: Balance, now: i64) -> bool {
    &&& position.id@.len() == ID_LEN
    &&& position.pair@ == balance.asset@ + "USDT"@
    &&& position.side == OrderSide::Buy
    &&& position.entry_price == 0
    &&& position.quantity == saturate(
        decimal_or_zero(balance.free@) + decimal_or_zero(balance.locked@),
    )
    &&& position.mode == TradingMode::Live
    &&& position.opened_at == now
}

fn amount(text: &String) -> (v: i64)
    ensures
        v == decimal_or_zero(text@),
{
    match parse_decimal(text.as_str()) {
        Some(v) => v,
        None => 0,
    }
}

/// The credentials of the live exchange.
pub struct BinanceClient {
    pub api_key: String,
    pub secret: String,
}

impl BinanceClient {
    pub fn new(api_key: &str, secret: &str) -> (c: Self)
        ensures
            c.api_key@ == api_key@,
            c.secret@ == secret@,
    {
        BinanceClient { api_key: api_key.to_owned(), secret: secret.to_owned() }
    }

    /// The signature of `query` under the secret.
    pub fn sign(&self, query: &str) -> (signature: String)
        ensures
            signature@ == signature_of(self.secret@, query@),
    {
        let code = hmac_sha256(self.secret.as_str().as_bytes(), query.as_bytes());
        hex_encode(code.as_slice())
    }

    /// The signed query for `params` at the time `timestamp_ms`: the body of
    /// a signed POST, and what follows the question mark of a signed GET.
    pub fn signed_query_at(&self, params: &str, timestamp_ms: u64) -> (query: String)
        ensures
            query@ == signed(self.secret@, params@, timestamp_ms),
    {
        let stamp = format_integer(timestamp_ms);
        let query = params.to_owned().concat("&timestamp=").concat(stamp.as_str());
        let signature = self.sign(query.as_str());
        query.concat("&signature=").concat(signature.as_str())
    }

    /// The signed query for `params` at the present time.
    pub fn signed_query(&self, params: &str) -> (r: (String, u64))
        ensures
            r.0@ == signed(self.secret@, params@, r.1),
    {
        let now = now_millis();
        let timestamp_ms: u64 = if now < 0 {
            0
        } else {
            now as u64
        };
        (self.signed_query_at(params, timestamp_ms), timestamp_ms)
    }

    /// The address of the interface at `path`.
    pub fn endpoint(path: &str) -> (url: String)
        ensures
            url@ == base_url() + path@,
    {
        "https://api.binance.com".to_owned().concat(path)
    }

    /// The address of a signed GET of `path`.
    pub fn signed_get_url(&self, path: &str, params: &str, timestamp_ms: u64) -> (url: String)
        ensures
            url@ == base_url() + path@ + "?"@ + signed(self.secret@, params@, timestamp_ms),
    {
        let query = self.signed_query_at(params, timestamp_ms);
        BinanceClient::endpoint(path).concat("?").concat(query.as_str())
    }

    /// The address of the price ticker of `pair`.
    pub fn ticker_url(pair: &str) -> (url: String)
        ensures
            url@ == base_url() + "/api/v3/ticker/price?symbol="@ + pair@,
    {
        "https://api.binance.com".to_owned().concat("/api/v3/ticker/price?symbol=").concat(pair)
    }

    /// The body of an answer, or the exchange error for an answer whose
    /// status is no success.
    pub fn read_answer(success: bool, status: &str, body: String) -> (r: Result<String, Error>)
        ensures
            success ==> r == Ok::<String, Error>(body),
            !success ==> {
                &&& r matches Err(Error::Exchange(message))
                &&& message@ == http_failure(status@, body@)
            },
    {
        if success {
            Ok(body)
        } else {
            Err(
                Error::Exchange(
                    "HTTP ".to_owned().concat(status).concat(": ").concat(body.as_str()),
                ),
            )
        }
    }

    /// The parameters of the request that submits `order`.
    pub fn order_params(order: &Order) -> (params: String)
        ensures
            params@ == order_params_of(*order),
    {
        let side = order.side.to_string();
        let kind = if order.price.is_some() {
            "LIMIT"
        } else {
            "MARKET"
        };
        let quantity = format_decimal(order.quantity);
        let head = "symbol=".to_owned().concat(order.pair.as_str()).concat("&side=").concat(
            side.as_str(),
        ).concat("&type=").concat(kind).concat("&quantity=").concat(quantity.as_str());
        match order.price {
            Some(price) => {
                let limit = format_decimal(price);
                head.concat("&price=").concat(limit.as_str()).concat("&timeInForce=GTC")
            },
            None => head,
        }
    }

    /// The fill that the exchange's answer confirms: under the identifier
    /// the exchange gave, for the order's pair, side and quantity, at the
    /// price of the first fill record, the order's limit price or zero.
    pub fn fill_from_response(order: &Order, client_order_id: String, first_fill: Option<String>, now: i64) -> (fill: Fill)
        ensures
            fill.order_id == client_order_id,
            fill.pair@ == order.pair@,
            fill.side == order.side,
            fill.fill_price == fill_price_from(first_fill, order.price),
            fill.quantity == order.quantity,
            fill.timestamp == now,
    {
        let fallback: i64 = match order.price {
            Some(price) => price,
            None => 0,
        };
        let fill_price: i64 = match &first_fill {
            Some(text) => match parse_decimal(text.as_str()) {
                Some(price) => price,
                None => fallback,
            },
            None => fallback,
        };
        Fill {
            order_id: client_order_id,
            pair: order.pair.clone(),
            side: order.side,
            fill_price,
            quantity: order.quantity,
            timestamp: now,
        }
    }

    /// The price that a ticker answer gives, or an exchange error where it
    /// cannot be read.
    pub fn ticker_price(text: &str) -> (r: Result<i64, Error>)
        ensures
            match decimal_of(text@) {
                Some(price) => r == Ok::<i64, Error>(price),
                None => r matches Err(Error::Exchange(message)) && message@ == "invalid decimal literal"@,
            },
    {
        match parse_decimal(text) {
            Some(price) => Ok(price),
            None => Err(Error::Exchange("invalid decimal literal".to_owned())),
        }
    }

    /// The positions that the account's balances stand for, in the order of
    /// the balances: one for each balance that is held, each under a fresh
    /// identifier.
    pub fn positions_from_balances(balances: &Vec<Balance>, now: i64) -> (positions: Vec<Position>)
        ensures
            positions@.len() == holdings(balances@, balances@.len()).len(),
            forall|i: int|
                0 <= i < positions@.len() ==> stands_for(
                    #[trigger] positions@[i],
                    holdings(balances@, balances@.len())[i],
                    now,
                ),
    {
        let mut positions: Vec<Position> = Vec::new();
        let mut n: usize = 0;
        while n < balances.len()
            invariant
                n <= balances@.len(),
                positions@.len() == holdings(balances@, n as nat).len(),
                forall|i: int|
                    0 <= i < positions@.len() ==> stands_for(
                        #[trigger] positions@[i],
                        holdings(balances@, n as nat)[i],
                        now,
                    ),
            decreases balances.len() - n,
        {
            let balance = &balances[n];
            let free = amount(&balance.free);
            let locked = amount(&balance.locked);
            let quoted = balance.asset == "USDT".to_owned();
            let fee = balance.asset == "BNB".to_owned();
            if (free > 0 || locked > 0) && !quoted && !fee {
                positions.push(
                    Position {
                        id: fresh_id(),
                        pair: balance.asset.clone().concat("USDT"),
                        side: OrderSide::Buy,
                        entry_price: 0,
                        quantity: saturating(free as i128 + locked as i128),
                        mode: TradingMode::Live,
                        opened_at: now,
                    },
                );
            }
            n += 1;
        }
        positions
    }
}

} // verus!
