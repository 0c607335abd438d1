use crate::error::Error;
use crate::types::{BlockInfo, BlockNumber, GenesisBlockInfo};
use vstd::prelude::*;

verus! {

/// The digit of `d` in base ten, for `d` below ten.
pub open spec fn digit_char(d: nat) -> char
    recommends
        d < 10,
{
    if d == 0 {
        '0'
    } else if d == 1 {
        '1'
    } else if d == 2 {
        '2'
    } else if d == 3 {
        '3'
    } else if d == 4 {
        '4'
    } else if d == 5 {
        '5'
    } else if d == 6 {
        '6'
    } else if d == 7 {
        '7'
    } else if d == 8 {
        '8'
    } else {
        '9'
    }
}

/// A number written in base ten, without leading zeros.
pub open spec fn decimal(n: nat) -> Seq<char>
    decreases n,
{
    if n < 10 {
        seq![digit_char(n)]
    } else {
        decimal(n / 10).push(digit_char(n % 10))
    }
}

/// The address of the resource `route` for block `block_number` below
/// `base`: the base, a slash, the route, a slash, the number in base ten.
pub open spec fn resource(base: Seq<char>, route: Seq<char>, block_number: BlockNumber) -> Seq<char> {
    base + seq!['/'] + route + seq!['/'] + decimal(block_number as nat)
}

/// The digit of `d` in base ten, as a string of one character.
pub fn digit_str(d: u32) -> (digit: &'static str)
    requires
        d < 10,
    ensures
        digit@ == seq![digit_char(d as nat)],
{
    proof {
        reveal_strlit("0");
        reveal_strlit("1");
        reveal_strlit("2");
        reveal_strlit("3");
        reveal_strlit("4");
        reveal_strlit("5");
        reveal_strlit("6");
        reveal_strlit("7");
        reveal_strlit("8");
        reveal_strlit("9");
    }
    let digit = if d == 0 {
        "0"
    } else if d == 1 {
        "1"
    } else if d == 2 {
        "2"
    } else if d == 3 {
        "3"
    } else if d == 4 {
        "4"
    } else if d == 5 {
        "5"
    } else if d == 6 {
        "6"
    } else if d == 7 {
        "7"
    } else if d == 8 {
        "8"
    } else {
        "9"
    };
    assert(digit@ =~= seq![digit_char(d as nat)]);
    digit
}

/// Writes `n` behind `text` in base ten, without leading zeros.
pub fn append_decimal(text: &mut String, n: u32)
    ensures
        final(text)@ == old(text)@ + decimal(n as nat),
    decreases n,
{
    if n >= 10 {
        append_decimal(text, n / 10);
    }
    text.append(digit_str(n % 10));
    assert(text@ =~= old(text)@ + decimal(n as nat));
}

/// Writes the address of a resource: the base, a slash, the route, a slash,
/// the block number in base ten.
pub fn format_resource(base: &str, route: &str, block_number: BlockNumber) -> (url: String)
    ensures
        url@ == resource(base@, route@, block_number),
{
    proof {
        reveal_strlit("/");
    }
    let mut url = String::from_str(base);
    url.append("/");
    url.append(route);
    url.append("/");
    append_decimal(&mut url, block_number);
    assert(url@ =~= resource(base@, route@, block_number));
    url
}

/// A client of a headers cache, which serves captured bundles by block
/// number.
#[derive(Clone, Debug)]
pub struct Client {
    pub base_uri: String,
}

impl Client {
    /// A client of the cache at `uri`.
    pub fn new(uri: &str) -> (client: Self)
        ensures
            client.base_uri@ == uri@,
    {
        Self { base_uri: uri.to_owned() }
    }

    /// Where the cache serves the bundles captured from `block_number` on.
    pub fn headers_url(&self, block_number: BlockNumber) -> (url: String)
        ensures
            url@ == resource(self.base_uri@, "headers"@, block_number),
    {
        format_resource(self.base_uri.as_str(), "headers", block_number)
    }

    /// Where the cache serves the trust anchor taken at `block_number`.
    pub fn genesis_url(&self, block_number: BlockNumber) -> (url: String)
        ensures
            url@ == resource(self.base_uri@, "genesis"@, block_number),
    {
        format_resource(self.base_uri.as_str(), "genesis", block_number)
    }

    /// What the decoding must have given for a request to end with `r`: the
    /// value of a request that went well, and nothing otherwise.
    pub open spec fn decoded<T>(r: Result<T, Error>) -> Option<T> {
        match r {
            Ok(value) => Some(value),
            Err(_) => None,
        }
    }

    /// A request that found `body` at its address ended with `r`: a fetch
    /// that brought nothing is a [`Error::TransportError`], bytes that
    /// `decode` does not take are a [`Error::DecodeError`], and any others
    /// give what `decode` makes of them.
    pub open spec fn answered<T, D: FnOnce(&[u8]) -> Option<T>>(
        body: Option<Vec<u8>>,
        decode: D,
        r: Result<T, Error>,
    ) -> bool {
        match body {
            None => r == Err::<T, Error>(Error::TransportError),
            Some(bytes) => {
                &&& r is Err ==> r == Err::<T, Error>(Error::DecodeError)
                &&& exists|slice: &[u8]|
                    slice@ == bytes@ && #[trigger] call_ensures(decode, (slice,), Self::decoded(r))
            },
        }
    }

    /// A request for what stands at `address` ended with `r`: `fetch` was
    /// asked for that address, once, and what it brought was decoded.
    pub open spec fn served<T, F: FnOnce(&str) -> Option<Vec<u8>>, D: FnOnce(&[u8]) -> Option<T>>(
        address: Seq<char>,
        fetch: F,
        decode: D,
        r: Result<T, Error>,
    ) -> bool {
        exists|url: &str, body: Option<Vec<u8>>|
            url@ == address && #[trigger] call_ensures(fetch, (url,), body) && Self::answered(
                body,
                decode,
                r,
            )
    }

    /// Makes of what a fetch brought the value that was asked for. A fetch
    /// that brought nothing is a [`Error::TransportError`]; bytes that
    /// `decode` does not take are a [`Error::DecodeError`]; no fetch is
    /// tried again.
    pub fn request<T, D: FnOnce(&[u8]) -> Option<T>>(body: Option<Vec<u8>>, decode: D) -> (r: Result<
        T,
        Error,
    >)
        requires
            body matches Some(bytes) ==> forall|slice: &[u8]|
                slice@ == bytes@ ==> call_requires(decode, (slice,)),
        ensures
            Self::answered(body, decode, r),
    {
        match body {
            None => Err(Error::TransportError),
            Some(bytes) => {
                let slice = bytes.as_slice();
                match decode(slice) {
                    Some(value) => {
                        assert(call_ensures(decode, (slice,), Some(value)));
                        Ok(value)
                    },
                    None => {
                        assert(call_ensures(decode, (slice,), None::<T>));
                        Err(Error::DecodeError)
                    },
                }
            },
        }
    }

    /// The bundles that the cache serves for `block_number`: fetches what
    /// stands at the address of the headers for that block, and decodes it.
    pub fn get_headers<F: FnOnce(&str) -> Option<Vec<u8>>, D: FnOnce(&[u8]) -> Option<Vec<BlockInfo>>>(
        &self,
        block_number: BlockNumber,
        fetch: F,
        decode: D,
    ) -> (r: Result<Vec<BlockInfo>, Error>)
        requires
            forall|url: &str| call_requires(fetch, (url,)),
            forall|slice: &[u8]| call_requires(decode, (slice,)),
        ensures
            Self::served(resource(self.base_uri@, "headers"@, block_number), fetch, decode, r),
    {
        let url = self.headers_url(block_number);
        let body = fetch(url.as_str());
        Self::request(body, decode)
    }

    /// The trust anchor that the cache serves for `block_number`: fetches
    /// what stands at the address of the genesis for that block, and decodes
    /// it.
    pub fn get_genesis<F: FnOnce(&str) -> Option<Vec<u8>>, D: FnOnce(&[u8]) -> Option<GenesisBlockInfo>>(
        &self,
        block_number: BlockNumber,
        fetch: F,
        decode: D,
    ) -> (r: Result<GenesisBlockInfo, Error>)
        requires
            forall|url: &str| call_requires(fetch, (url,)),
            forall|slice: &[u8]| call_requires(decode, (slice,)),
        ensures
            Self::served(resource(self.base_uri@, "genesis"@, block_number), fetch, decode, r),
    {
        let url = self.genesis_url(block_number);
        let body = fetch(url.as_str());
        Self::request(body, decode)
    }
}

} // verus!
