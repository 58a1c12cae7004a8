use crate::error::AppError;
use vstd::prelude::*;
use vstd::string::*;

verus! {

/// The connection string used when none is configured.
pub const DEFAULT_DATABASE_URL: &'static str = "postgresql://localhost/rust_advanced_api";

/// The listen port used when none is configured.
pub const DEFAULT_PORT: u16 = 3000;

/// The signing secret used when none is configured.
pub const DEFAULT_JWT_SECRET: &'static str = "your-secret-key";

/// Process settings, fixed before the core is built.
#[derive(Debug, Clone)]
pub struct Config {
    pub database_url: String,
    pub port: u16,
    pub jwt_secret: String,
}

/// Every character of `s` is a decimal digit.
pub open spec fn all_digits(s: Seq<char>) -> bool {
    forall|i: int| 0 <= i < s.len() ==> '0' <= #[trigger] s[i] <= '9'
}

/// The number that the decimal digits `s` write.
pub open spec fn digits_value(s: Seq<char>) -> int
    decreases s.len(),
{
    if s.len() == 0 {
        0
    } else {
        digits_value(s.drop_last()) * 10 + (s.last() as u32 - '0' as u32)
    }
}

proof fn lemma_digits_value_nonneg(s: Seq<char>)
    requires
        all_digits(s),
    ensures
        digits_value(s) >= 0,
    decreases s.len(),
{
    if s.len() > 0 {
        lemma_digits_value_nonneg(s.drop_last());
    }
}

/// The digits of a port's text: the text less one leading `+`, if it has one.
pub open spec fn port_digits(s: Seq<char>) -> Seq<char> {
    if s.len() > 0 && s[0] == '+' {
        s.subrange(1, s.len() as int)
    } else {
        s
    }
}

/// `s` writes a port: an optional `+`, then one or more decimal digits worth at
/// most 65535.
pub open spec fn port_text_ok(s: Seq<char>) -> bool {
    let d = port_digits(s);
    d.len() > 0 && all_digits(d) && digits_value(d) <= u16::MAX
}

/// The port written in decimal as `s`, which may open with one `+`.
pub fn parse_port(s: &str) -> (r: Option<u16>)
    ensures
        r is Some <==> port_text_ok(s@),
        r matches Some(p) ==> p == digits_value(port_digits(s@)),
{
    let n = s.unicode_len();
    if n > 0 && s.get_char(0) == '+' {
        parse_digits(s.substring_char(1, n))
    } else {
        parse_digits(s)
    }
}

fn parse_digits(s: &str) -> (r: Option<u16>)
    ensures
        r is Some <==> s@.len() > 0 && all_digits(s@) && digits_value(s@) <= u16::MAX,
        r matches Some(p) ==> p == digits_value(s@),
{
    let n = s.unicode_len();
    if n == 0 {
        return None;
    }
    let mut acc: u32 = 0;
    let mut too_large = false;
    let mut i: usize = 0;
    while i < n
        invariant
            n == s@.len(),
            i <= n,
            all_digits(s@.subrange(0, i as int)),
            !too_large ==> acc == digits_value(s@.subrange(0, i as int)) && acc <= u16::MAX,
            too_large ==> digits_value(s@.subrange(0, i as int)) > u16::MAX,
        decreases n - i,
    {
        let c = s.get_char(i);
        let ghost pre = s@.subrange(0, i as int);
        let ghost next = s@.subrange(0, i + 1);
        assert(next.drop_last() =~= pre);
        assert(next.last() == c);
        if !('0' <= c && c <= '9') {
            assert(!all_digits(s@)) by {
                assert(s@[i as int] == c);
            }
            return None;
        }
        assert(all_digits(next)) by {
            assert forall|k: int| 0 <= k < next.len() implies '0' <= #[trigger] next[k] <= '9' by {
                if k < i {
                    assert(next[k] == pre[k]);
                }
            }
        }
        proof {
            lemma_digits_value_nonneg(pre);
        }
        if !too_large {
            let v = acc * 10 + (c as u32 - '0' as u32);
            if v > 65535 {
                too_large = true;
            } else {
                acc = v;
            }
        }
        i = i + 1;
    }
    assert(s@.subrange(0, n as int) =~= s@);
    if too_large {
        None
    } else {
        Some(acc as u16)
    }
}

impl Config {
    /// Settings from the values found in the environment: each absent value takes
    /// its default. `Validation` where a port is given that [`parse_port`] refuses.
    pub fn from_vars(
        database_url: Option<String>,
        port: Option<String>,
        jwt_secret: Option<String>,
    ) -> (r: Result<Config, AppError>)
        ensures
            r is Err <==> (port matches Some(p) && !port_text_ok(p@)),
            r matches Err(e) ==> e == AppError::Validation,
            r matches Ok(c) ==> c.database_url@ == match database_url {
                Some(u) => u@,
                None => DEFAULT_DATABASE_URL@,
            } && c.jwt_secret@ == match jwt_secret {
                Some(k) => k@,
                None => DEFAULT_JWT_SECRET@,
            } && c.port == match port {
                Some(p) => digits_value(port_digits(p@)),
                None => DEFAULT_PORT as int,
            },
    {
        let port = match port {
            Some(p) => match parse_port(p.as_str()) {
                Some(v) => v,
                None => return Err(AppError::Validation),
            },
            None => DEFAULT_PORT,
        };
        let database_url = match database_url {
            Some(u) => u,
            None => DEFAULT_DATABASE_URL.to_string(),
        };
        let jwt_secret = match jwt_secret {
            Some(k) => k,
            None => DEFAULT_JWT_SECRET.to_string(),
        };
        Ok(Config { database_url, port, jwt_secret })
    }
}

} // verus!
