//! The decisions taken while the server starts: where it listens, how the
//! application state is set up, and how the bucket key is read.

use vstd::prelude::*;
use vstd::string::{StrSliceExecFns, StringExecFns};
use crate::Environment;
use crate::codec::{parse_uuid, uuid_parse};
use crate::routes::products::files::AuthKey;

verus! {

/// Whether a character is an ASCII decimal digit.
pub open spec fn is_digit(c: char) -> bool {
    '0' <= c && c <= '9'
}

/// The value of a string of decimal digits.
pub open spec fn decimal_value(s: Seq<char>) -> nat
    decreases s.len(),
{
    if s.len() == 0 {
        0
    } else {
        decimal_value(s.drop_last()) * 10 + (s.last() as int - 48) as nat
    }
}

/// The digits of a port text: the text without one leading `+`.
pub open spec fn port_digits(text: Seq<char>) -> Seq<char> {
    if text.len() > 0 && text[0] == '+' {
        text.skip(1)
    } else {
        text
    }
}

/// What `u16::from_str` reads from a text: an optional `+` and at least one
/// decimal digit, with nothing else around them, of value at most 65535.
pub open spec fn port_value(text: Seq<char>) -> Option<u16> {
    let digits = port_digits(text);
    if digits.len() > 0 && (forall|i: int| 0 <= i < digits.len() ==> is_digit(#[trigger] digits[i]))
        && decimal_value(digits) <= 65535 {
        Some(decimal_value(digits) as u16)
    } else {
        None
    }
}

/// Adding digits never makes a decimal value smaller.
pub proof fn lemma_decimal_prefix(s: Seq<char>, k: int)
    requires
        0 <= k <= s.len(),
        forall|i: int| 0 <= i < s.len() ==> is_digit(#[trigger] s[i]),
    ensures
        decimal_value(s.take(k)) <= decimal_value(s),
    decreases s.len(),
{
    if k < s.len() {
        assert(s.drop_last().take(k) =~= s.take(k));
        lemma_decimal_prefix(s.drop_last(), k);
    } else {
        assert(s.take(k) =~= s);
    }
}

/// The decimal text of a number, without leading zeros.
pub open spec fn decimal_text(n: nat) -> Seq<char>
    decreases n,
{
    if n < 10 {
        seq![(48 + n) as char]
    } else {
        decimal_text(n / 10).push((48 + n % 10) as char)
    }
}

/// The decimal text of a number is made of digits and has that value.
pub proof fn lemma_decimal_text(n: nat)
    ensures
        decimal_text(n).len() > 0,
        forall|i: int| 0 <= i < decimal_text(n).len() ==> '0' <= #[trigger] decimal_text(n)[i] <= '9',
        decimal_value(decimal_text(n)) == n,
    decreases n,
{
    if n >= 10 {
        lemma_decimal_text(n / 10);
        let t = decimal_text(n);
        let p = decimal_text(n / 10);
        assert(t.drop_last() =~= p);
        assert forall|i: int| 0 <= i < t.len() implies '0' <= #[trigger] t[i] <= '9' by {
            if i < p.len() {
                assert(t[i] == p[i]);
            }
        }
        assert(t.last() as int == 48 + n % 10);
        assert(decimal_value(t) == decimal_value(p) * 10 + (t.last() as int - 48) as nat);
        assert((n / 10) * 10 + n % 10 == n) by (nonlinear_arith);
    } else {
        let t = decimal_text(n);
        assert(t.drop_last() =~= Seq::<char>::empty());
        assert(t.last() as int == 48 + n);
        assert(decimal_value(t) == decimal_value(t.drop_last()) * 10 + (t.last() as int - 48) as nat);
    }
}

/// Every port, written in decimal, reads back as itself; so does it with a
/// leading `+`.
pub proof fn lemma_port_text_round_trip(port: u16)
    ensures
        port_value(decimal_text(port as nat)) == Some(port),
        port_value(seq!['+'] + decimal_text(port as nat)) == Some(port),
{
    let t = decimal_text(port as nat);
    lemma_decimal_text(port as nat);
    assert(t[0] != '+');
    assert(port_digits(t) == t);
    let plus = seq!['+'] + t;
    assert(plus.skip(1) =~= t);
    assert(port_digits(plus) == t);
}

/// A text with a character other than a digit, after an optional leading
/// `+`, is not a port.
pub proof fn lemma_port_needs_digits(text: Seq<char>, i: int)
    requires
        0 <= i < port_digits(text).len(),
        !('0' <= port_digits(text)[i] <= '9'),
    ensures
        port_value(text) is None,
{
}

/// Reads a port number the way `u16::from_str` does.
pub fn parse_port(text: &str) -> (r: Option<u16>)
    ensures
        r == port_value(text@),
{
    let n = text.unicode_len();
    let mut start: usize = 0;
    if n > 0 && text.get_char(0) == '+' {
        start = 1;
    }
    let ghost digits = port_digits(text@);
    assert(digits =~= text@.skip(start as int));
    if start == n {
        return None;
    }
    let mut value: u32 = 0;
    let mut i: usize = start;
    while i < n
        invariant
            start <= i <= n,
            n == text@.len(),
            start < n,
            digits == text@.skip(start as int),
            digits == port_digits(text@),
            value as nat == decimal_value(digits.take(i - start)),
            value <= 65535,
            forall|j: int| 0 <= j < i - start ==> is_digit(#[trigger] digits[j]),
        decreases n - i,
    {
        let c = text.get_char(i);
        assert(c == digits[i - start]);
        if c < '0' || c > '9' {
            assert(!is_digit(digits[i - start]));
            return None;
        }
        let d = (c as u32) - 48;
        let ghost taken = digits.take(i + 1 - start);
        assert(taken.drop_last() =~= digits.take(i - start));
        assert(taken.last() == c);
        value = value * 10 + d;
        assert(value as nat == decimal_value(taken));
        if value > 65535 {
            proof {
                if forall|j: int| 0 <= j < digits.len() ==> is_digit(#[trigger] digits[j]) {
                    lemma_decimal_prefix(digits, i + 1 - start);
                }
            }
            return None;
        }
        i = i + 1;
    }
    assert(digits.take(n - start) =~= digits);
    Some(value as u16)
}

/// An IPv4 socket address.
#[derive(Debug, Clone, Copy)]
pub struct ListenAddress {
    pub ip: [u8; 4],
    pub port: u16,
}

/// Why the listening address could not be decided.
#[derive(PartialEq, Eq, Structural, Debug, Clone, Copy)]
pub enum AddressError {
    /// `PORT` is not set.
    PortMissing,
    /// `PORT` is not a port number.
    PortInvalid,
}

/// Where the server listens: on the loopback interface at port 3000 in
/// development, on every interface at the port from `PORT` in production.
pub fn listen_address(environment: Environment, port_var: Option<&str>) -> (r: Result<
    ListenAddress,
    AddressError,
>)
    ensures
        environment == Environment::Development ==> r == Ok::<ListenAddress, AddressError>(
            ListenAddress { ip: [127, 0, 0, 1], port: 3000 },
        ),
        environment == Environment::Production ==> r == match port_var {
            None => Err(AddressError::PortMissing),
            Some(t) => match port_value(t@) {
                None => Err(AddressError::PortInvalid),
                Some(p) => Ok(ListenAddress { ip: [0, 0, 0, 0], port: p }),
            },
        },
{
    match environment {
        Environment::Development => Ok(ListenAddress { ip: [127, 0, 0, 1], port: 3000 }),
        Environment::Production => match port_var {
            None => Err(AddressError::PortMissing),
            Some(t) => match parse_port(t) {
                None => Err(AddressError::PortInvalid),
                Some(p) => Ok(ListenAddress { ip: [0, 0, 0, 0], port: p }),
            },
        },
    }
}

/// Where the bucket client gets its address and key.
pub enum BucketSource {
    /// From `BUCKET_URL`, `BUCKET_KEY` and `BUCKET_KEY_ID`.
    Configured,
    /// From the local service at `url`, with a key kept in `key.json` or issued anew.
    Local { url: String },
}

/// The steps that set up the application state.
pub struct StatePlan {
    pub migrate_database: bool,
    pub build_frontend: bool,
    pub bucket: BucketSource,
}

/// Production migrates the database and uses the configured bucket;
/// development builds the frontend and uses the local bucket service.
pub fn state_plan(environment: Environment) -> (r: StatePlan)
    ensures
        r.migrate_database == (environment == Environment::Production),
        r.build_frontend == (environment == Environment::Development),
        environment == Environment::Production ==> r.bucket is Configured,
        environment == Environment::Development ==> (r.bucket matches BucketSource::Local { url }
            && url@ == "http://127.0.0.1:3001"@),
{
    match environment {
        Environment::Production => StatePlan {
            migrate_database: true,
            build_frontend: false,
            bucket: BucketSource::Configured,
        },
        Environment::Development => StatePlan {
            migrate_database: false,
            build_frontend: true,
            bucket: BucketSource::Local { url: String::from_str("http://127.0.0.1:3001") },
        },
    }
}

/// Reads the bucket key from the text of `BUCKET_KEY` and `BUCKET_KEY_ID`;
/// `None` unless both are UUIDs.
pub fn bucket_key(key_text: &str, id_text: &str) -> (r: Option<AuthKey>)
    ensures
        match (uuid_parse(key_text@), uuid_parse(id_text@)) {
            (Some(k), Some(i)) => (r matches Some(a) && a.key == k && a.id == i),
            _ => r is None,
        },
{
    match (parse_uuid(key_text), parse_uuid(id_text)) {
        (Some(key), Some(id)) => Some(AuthKey::new(key, id)),
        _ => None,
    }
}

} // verus!
