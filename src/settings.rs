use vstd::prelude::*;
use vstd::string::StringSliceAdditionalSpecFns;

verus! {

/// The port that the HTTP API listens on.
#[derive(Debug, Clone)]
pub struct Server {
    pub port: u16,
}

/// Where the key-value store is and how to log in to it.
#[derive(Debug, Clone)]
pub struct Redis {
    pub port: u16,
    pub url: String,
    pub password: String,
}

/// The process configuration.
#[derive(Debug, Clone)]
pub struct Settings {
    pub server: Server,
    pub redis: Redis,
}

/// Which setting could not be read.
#[derive(Clone, Copy, Debug, PartialEq, Eq, Structural)]
pub enum SettingsError {
    ServerPort,
    RedisPort,
}

pub open spec fn is_digit(b: u8) -> bool {
    48 <= b <= 57
}

pub open spec fn all_digits(s: Seq<u8>) -> bool {
    forall|i: int| 0 <= i < s.len() ==> is_digit(#[trigger] s[i])
}

/// The number that a string of decimal digits spells.
pub open spec fn decimal_value(s: Seq<u8>) -> int
    decreases s.len(),
{
    if s.len() == 0 {
        0
    } else {
        decimal_value(s.drop_last()) * 10 + (s.last() - 48)
    }
}

/// The digits of a port number, after an optional leading `+`.
pub open spec fn port_digits(s: Seq<u8>) -> Seq<u8> {
    if s.len() > 0 && s[0] == 43 {
        s.subrange(1, s.len() as int)
    } else {
        s
    }
}

/// A port number written in decimal: an optional `+`, then one or more
/// digits whose value fits in 16 bits.
pub open spec fn port_of(s: Seq<u8>) -> Option<u16> {
    let d = port_digits(s);
    if d.len() > 0 && all_digits(d) && decimal_value(d) <= u16::MAX {
        Some(decimal_value(d) as u16)
    } else {
        None
    }
}

/// Reads a port number written in decimal.
pub fn parse_port(s: &str) -> (r: Option<u16>)
    ensures
        r == port_of(s.spec_bytes()),
{
    let bytes = s.as_bytes();
    let ghost d = port_digits(bytes@);
    let start: usize = if bytes.len() > 0 && bytes[0] == 43 {
        1
    } else {
        0
    };
    if start >= bytes.len() {
        return None;
    }
    let mut value: u32 = 0;
    let mut i: usize = start;
    while i < bytes.len()
        invariant
            start <= i <= bytes@.len(),
            bytes@ == s.spec_bytes(),
            d == port_digits(s.spec_bytes()),
            d == bytes@.subrange(start as int, bytes@.len() as int),
            all_digits(bytes@.subrange(start as int, i as int)),
            value as int == if decimal_value(bytes@.subrange(start as int, i as int)) < 65536 {
                decimal_value(bytes@.subrange(start as int, i as int))
            } else {
                65536
            },
        decreases bytes@.len() - i,
    {
        let b = bytes[i];
        let ghost prefix = bytes@.subrange(start as int, i as int);
        let ghost next = bytes@.subrange(start as int, i + 1);
        assert(next.drop_last() =~= prefix);
        if b < 48 || b > 57 {
            proof {
                assert(d[i - start] == b);
                assert(!is_digit(d[i - start]));
                assert(!all_digits(d));
            }
            return None;
        }
        proof {
            assert forall|j: int| 0 <= j < next.len() implies is_digit(#[trigger] next[j]) by {
                if j < prefix.len() {
                    assert(next[j] == prefix[j]);
                }
            }
            assert(decimal_value(next) == decimal_value(prefix) * 10 + (b - 48));
            assert(decimal_value(prefix) >= 0) by {
                lemma_decimal_value_nonneg(prefix);
            }
        }
        let grown = value * 10 + (b - 48) as u32;
        value = if grown > 65536 {
            65536
        } else {
            grown
        };
        i = i + 1;
    }
    assert(bytes@.subrange(start as int, bytes@.len() as int) =~= d);
    if value > 65535 {
        None
    } else {
        Some(value as u16)
    }
}

proof fn lemma_decimal_value_nonneg(s: Seq<u8>)
    requires
        all_digits(s),
    ensures
        decimal_value(s) >= 0,
    decreases s.len(),
{
    if s.len() > 0 {
        assert(is_digit(s[s.len() - 1]));
        lemma_decimal_value_nonneg(s.drop_last());
    }
}

impl Settings {
    /// Builds the configuration from its four values. The two ports are
    /// decimal numbers; a port that does not read as one is an error.
    pub fn new(server_port: &str, redis_port: &str, redis_url: String, redis_password: String) -> (r:
        Result<Settings, SettingsError>)
        ensures
            port_of(server_port.spec_bytes()) is None ==> r == Err::<Settings, _>(
                SettingsError::ServerPort,
            ),
            port_of(server_port.spec_bytes()) is Some && port_of(redis_port.spec_bytes()) is None
                ==> r == Err::<Settings, _>(SettingsError::RedisPort),
            r matches Ok(s) ==> Some(s.server.port) == port_of(server_port.spec_bytes()) && Some(
                s.redis.port,
            ) == port_of(redis_port.spec_bytes()) && s.redis.url == redis_url
                && s.redis.password == redis_password,
            r is Ok <==> port_of(server_port.spec_bytes()) is Some && port_of(
                redis_port.spec_bytes(),
            ) is Some,
    {
        let server = match parse_port(server_port) {
            Some(port) => Server { port },
            None => {
                return Err(SettingsError::ServerPort);
            },
        };
        let port = match parse_port(redis_port) {
            Some(port) => port,
            None => {
                return Err(SettingsError::RedisPort);
            },
        };
        Ok(Settings { server, redis: Redis { port, url: redis_url, password: redis_password } })
    }
}

} // verus!
