//! The server's configuration, from the values of its environment
//! variables.
use vstd::prelude::*;

verus! {

#[derive(Debug)]
pub struct Config {
    pub database_url: String,
    pub valkey_url: String,
    pub cli_token: String,
    pub port: u16,
    pub static_dir: Option<String>,
}

/// Why a text is not a port number (the kinds of `ParseIntError`).
#[derive(PartialEq, Eq, Structural, Clone, Copy, Debug)]
pub enum PortError {
    Empty,
    InvalidDigit,
    PosOverflow,
}

/// Why the configuration cannot be made.
#[derive(PartialEq, Eq, Structural, Clone, Copy, Debug)]
pub enum ConfigError {
    MissingCliToken,
    BadPort(PortError),
}

/// Whether a char is a decimal digit.
pub open spec fn is_digit(c: char) -> bool {
    '0' <= c <= '9'
}

/// The remaining digits of a number read so far as `acc`, left to right; the
/// first char that is no digit, or the first digit that takes the number
/// past 65535, ends the reading.
pub open spec fn read_u16(s: Seq<char>, acc: int) -> Result<u16, PortError>
    decreases s.len(),
{
    if s.len() == 0 {
        Ok(acc as u16)
    } else if !is_digit(s[0]) {
        Err(PortError::InvalidDigit)
    } else {
        let n = acc * 10 + (s[0] as int - 48);
        if n > 65535 {
            Err(PortError::PosOverflow)
        } else {
            read_u16(s.drop_first(), n)
        }
    }
}

/// How `str::parse::<u16>` reads a text: an empty text is `Empty`; one
/// leading `+` is allowed, but not alone; then decimal digits only.
pub open spec fn parse_u16(s: Seq<char>) -> Result<u16, PortError> {
    if s.len() == 0 {
        Err(PortError::Empty)
    } else if (s[0] == '+' || s[0] == '-') && s.len() == 1 {
        Err(PortError::InvalidDigit)
    } else if s[0] == '+' {
        read_u16(s.drop_first(), 0)
    } else {
        read_u16(s, 0)
    }
}

/// Reads a port number as `str::parse::<u16>` does.
pub fn parse_port(s: &str) -> (r: Result<u16, PortError>)
    ensures
        r == parse_u16(s@),
{
    let n = s.unicode_len();
    if n == 0 {
        return Err(PortError::Empty);
    }
    let c0 = s.get_char(0);
    if (c0 == '+' || c0 == '-') && n == 1 {
        return Err(PortError::InvalidDigit);
    }
    let mut i: usize = if c0 == '+' {
        1
    } else {
        0
    };
    let ghost digits = if c0 == '+' {
        s@.drop_first()
    } else {
        s@
    };
    assert(s@.skip(i as int) =~= digits);
    let mut acc: u32 = 0;
    while i < n
        invariant
            n == s@.len(),
            i <= n,
            acc <= 65535,
            read_u16(s@.skip(i as int), acc as int) == read_u16(digits, 0),
            digits == (if c0 == '+' {
                s@.drop_first()
            } else {
                s@
            }),
            c0 == s@[0],
        decreases n - i,
    {
        let c = s.get_char(i);
        assert(s@.skip(i as int)[0] == c);
        assert(s@.skip(i as int).drop_first() =~= s@.skip(i + 1));
        if !('0' <= c && c <= '9') {
            return Err(PortError::InvalidDigit);
        }
        let d = (c as u32) - 48;
        let next = acc * 10 + d;
        if next > 65535 {
            return Err(PortError::PosOverflow);
        }
        acc = next;
        i = i + 1;
    }
    assert(s@.skip(n as int) =~= Seq::<char>::empty());
    Ok(acc as u16)
}

impl PortError {
    /// What `ParseIntError` says for this kind.
    pub fn message(&self) -> (r: &'static str)
        ensures
            r@ == match self {
                PortError::Empty => "cannot parse integer from empty string"@,
                PortError::InvalidDigit => "invalid digit found in string"@,
                PortError::PosOverflow => "number too large to fit in target type"@,
            },
    {
        match self {
            PortError::Empty => "cannot parse integer from empty string",
            PortError::InvalidDigit => "invalid digit found in string",
            PortError::PosOverflow => "number too large to fit in target type",
        }
    }
}

impl Config {
    /// The configuration from the values of `DATABASE_URL`, `VALKEY_URL`,
    /// `CLI_TOKEN`, `SERVER_PORT` and `STATIC_DIR` (`None` where a variable
    /// is not set): the database defaults to `sqlite:///data/news.db`, the
    /// cache to `redis://valkey:6379`, the port to 3000; the token is required, and is asked for
    /// before the port is read.
    pub fn from_vars(
        database_url: Option<String>,
        valkey_url: Option<String>,
        cli_token: Option<String>,
        port: Option<String>,
        static_dir: Option<String>,
    ) -> (r: Result<Config, ConfigError>)
        ensures
            cli_token is None ==> r == Err::<Config, ConfigError>(ConfigError::MissingCliToken),
            cli_token is Some ==> {
                let p = match port {
                    Some(s) => parse_u16(s@),
                    None => Ok(3000u16),
                };
                match p {
                    Err(e) => r == Err::<Config, ConfigError>(ConfigError::BadPort(e)),
                    Ok(n) => r matches Ok(c) && {
                        &&& c.database_url@ == (match database_url {
                            Some(s) => s@,
                            None => "sqlite:///data/news.db"@,
                        })
                        &&& c.valkey_url@ == (match valkey_url {
                            Some(s) => s@,
                            None => "redis://valkey:6379"@,
                        })
                        &&& Some(c.cli_token) == cli_token
                        &&& c.port == n
                        &&& c.static_dir == static_dir
                    },
                }
            },
    {
        let database_url = match database_url {
            Some(s) => s,
            None => String::from_str("sqlite:///data/news.db"),
        };
        let valkey_url = match valkey_url {
            Some(s) => s,
            None => String::from_str("redis://valkey:6379"),
        };
        let cli_token = match cli_token {
            Some(t) => t,
            None => {
                return Err(ConfigError::MissingCliToken);
            },
        };
        let port = match port {
            Some(s) => match parse_port(s.as_str()) {
                Ok(n) => n,
                Err(e) => {
                    return Err(ConfigError::BadPort(e));
                },
            },
            None => 3000,
        };
        Ok(Config { database_url, valkey_url, cli_token, port, static_dir })
    }
}

} // verus!
