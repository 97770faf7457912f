//! Service configuration, assembled from the plain values the boundary
//! reads out of the environment. The secret and the token lifetime are
//! passed explicitly into every codec call, never held as ambient state.

use vstd::prelude::*;

use crate::errors::AppError;
use crate::strutil::{parse_u64, spec_digits_val};

verus! {

/// The assembled configuration.
pub struct Config {
    pub database_url: String,
    pub server_host: String,
    pub server_port: u16,
    pub jwt_secret: String,
    pub jwt_expiration: u64,
    pub cors_allowed_origins: Vec<String>,
    pub log_level: String,
}

impl Config {
    /// Assemble a configuration from optional environment values: the
    /// database address and the token secret are required; the host
    /// defaults to the loopback address, the port to 8080, the token
    /// lifetime to 86400 seconds, the log level to `info`. A port or
    /// lifetime that is not a decimal number in range is a validation
    /// error. The allowed origins are the comma-separated pieces of their
    /// value, one piece when none is given.
    pub fn from_values(
        database_url: Option<String>,
        server_host: Option<String>,
        server_port: &Option<String>,
        jwt_secret: Option<String>,
        jwt_expiration: &Option<String>,
        cors_allowed_origins: &Option<String>,
        log_level: Option<String>,
    ) -> (r: Result<Config, AppError>)
        ensures
            r matches Ok(c) ==> {
                &&& (database_url matches Some(u) ==> c.database_url@ == u@)
                &&& (server_host matches Some(h) ==> c.server_host@ == h@)
                &&& (server_host is None ==> c.server_host@ == "127.0.0.1"@)
                &&& (server_port matches Some(p) ==> c.server_port as int == spec_digits_val(p@))
                &&& (server_port is None ==> c.server_port == 8080)
                &&& (jwt_secret matches Some(s) ==> c.jwt_secret@ == s@)
                &&& (jwt_expiration matches Some(x) ==> c.jwt_expiration as int == spec_digits_val(
                    x@,
                ))
                &&& (jwt_expiration is None ==> c.jwt_expiration == 86400)
                &&& (log_level matches Some(l) ==> c.log_level@ == l@)
                &&& (log_level is None ==> c.log_level@ == "info"@)
                &&& c.cors_allowed_origins@.len() >= 1
                &&& (cors_allowed_origins matches Some(o) ==> c.cors_allowed_origins@.len()
                    == spec_comma_count(o@) + 1 && (forall|a: int|
                    0 <= a < c.cors_allowed_origins@.len() ==> spec_comma_free(
                        (#[trigger] c.cors_allowed_origins@[a])@,
                    )))
                &&& (cors_allowed_origins is None ==> c.cors_allowed_origins@.len() == 1
                    && c.cors_allowed_origins@[0]@ == "http://localhost:3000"@)
            },
            database_url is None || jwt_secret is None ==> (r matches Err(e) && e
                matches AppError::ValidationError(_)),
            r matches Err(e) ==> e matches AppError::ValidationError(_),
    {
        let database_url = match database_url {
            Some(u) => u,
            None => {
                return Err(AppError::ValidationError(String::from_str("DATABASE_URL must be set")));
            },
        };
        let jwt_secret = match jwt_secret {
            Some(s) => s,
            None => {
                return Err(AppError::ValidationError(String::from_str("JWT_SECRET must be set")));
            },
        };
        let server_host = match server_host {
            Some(h) => h,
            None => String::from_str("127.0.0.1"),
        };
        let server_port: u16 = match server_port {
            Some(p) => {
                match parse_u64(p.as_str()) {
                    Some(v) if v <= 65535 => v as u16,
                    _ => {
                        return Err(
                            AppError::ValidationError(
                                String::from_str("SERVER_PORT must be a valid port number"),
                            ),
                        );
                    },
                }
            },
            None => 8080,
        };
        let jwt_expiration: u64 = match jwt_expiration {
            Some(x) => {
                match parse_u64(x.as_str()) {
                    Some(v) => v,
                    None => {
                        return Err(
                            AppError::ValidationError(
                                String::from_str("JWT_EXPIRATION must be a number"),
                            ),
                        );
                    },
                }
            },
            None => 86400,
        };
        let cors_allowed_origins: Vec<String> = match cors_allowed_origins {
            Some(o) => split_commas(o),
            None => {
                let mut v: Vec<String> = Vec::new();
                v.push(String::from_str("http://localhost:3000"));
                v
            },
        };
        let log_level = match log_level {
            Some(l) => l,
            None => String::from_str("info"),
        };
        Ok(
            Config {
                database_url,
                server_host,
                server_port,
                jwt_secret,
                jwt_expiration,
                cors_allowed_origins,
                log_level,
            },
        )
    }
}

/// How many commas a text holds.
pub open spec fn spec_comma_count(s: Seq<char>) -> int
    decreases s.len(),
{
    if s.len() == 0 {
        0
    } else {
        spec_comma_count(s.drop_last()) + if s.last() == ',' {
            1int
        } else {
            0int
        }
    }
}

/// A text without commas.
pub open spec fn spec_comma_free(s: Seq<char>) -> bool {
    forall|b: int| 0 <= b < s.len() ==> (#[trigger] s[b]) != ','
}

/// Strip leading and trailing spaces: the result is the piece of the input
/// between its outermost non-space characters.
pub fn trim_spaces(s: &String) -> (r: String)
    ensures
        exists|a: int, b: int|
            {
                &&& 0 <= a <= b <= s@.len()
                &&& r@ == s@.subrange(a, b)
                &&& (forall|j: int| 0 <= j < a ==> s@[j] == ' ')
                &&& (forall|j: int| b <= j < s@.len() ==> s@[j] == ' ')
                &&& (a < b ==> s@[a] != ' ' && s@[b - 1] != ' ')
            },
{
    let text = s.as_str();
    let len = text.unicode_len();
    let mut a: usize = 0;
    while a < len && text.get_char(a) == ' '
        invariant
            a <= len,
            len == text@.len(),
            forall|j: int| 0 <= j < a ==> text@[j] == ' ',
        decreases len - a,
    {
        a += 1;
    }
    let mut b: usize = len;
    while b > a && text.get_char(b - 1) == ' '
        invariant
            a <= b <= len,
            len == text@.len(),
            forall|j: int| b <= j < len ==> text@[j] == ' ',
        decreases b,
    {
        b -= 1;
    }
    let piece = text.substring_char(a, b).to_owned();
    proof {
        if a == b {
            assert(piece@ =~= s@.subrange(a as int, b as int));
        }
    }
    piece
}

/// The comma-separated pieces of a text, in order, each stripped of its
/// leading and trailing spaces: one piece per comma plus one, commas
/// themselves never included.
pub fn split_commas(s: &String) -> (r: Vec<String>)
    ensures
        r@.len() >= 1,
        r@.len() == spec_comma_count(s@) + 1,
        forall|a: int| 0 <= a < r@.len() ==> spec_comma_free((#[trigger] r@[a])@),
{
    let text = s.as_str();
    let len = text.unicode_len();
    let mut out: Vec<String> = Vec::new();
    let mut piece = String::new();
    let mut i: usize = 0;
    proof {
        assert(text@.take(0) =~= Seq::<char>::empty());
    }
    while i < len
        invariant
            i <= len,
            len == text@.len(),
            text@ == s@,
            out@.len() == spec_comma_count(text@.take(i as int)),
            forall|a: int| 0 <= a < out@.len() ==> spec_comma_free((#[trigger] out@[a])@),
            spec_comma_free(piece@),
        decreases len - i,
    {
        let c = text.get_char(i);
        proof {
            assert(text@.take(i + 1).drop_last() =~= text@.take(i as int));
            assert(text@.take(i + 1).last() == text@[i as int]);
        }
        if c == ',' {
            let trimmed = trim_spaces(&piece);
            proof {
                lemma_trimmed_comma_free(piece@, trimmed@);
            }
            out.push(trimmed);
            piece = String::new();
        } else {
            crate::strutil::push_char(&mut piece, c);
        }
        i += 1;
    }
    proof {
        assert(text@.take(len as int) =~= text@);
    }
    let trimmed = trim_spaces(&piece);
    proof {
        lemma_trimmed_comma_free(piece@, trimmed@);
    }
    out.push(trimmed);
    out
}

/// A piece of a comma-free text is comma-free.
proof fn lemma_trimmed_comma_free(piece: Seq<char>, trimmed: Seq<char>)
    requires
        spec_comma_free(piece),
        exists|a: int, b: int| 0 <= a <= b <= piece.len() && trimmed == piece.subrange(a, b),
    ensures
        spec_comma_free(trimmed),
{
    let (a, b) = choose|a: int, b: int|
        0 <= a <= b <= piece.len() && trimmed == piece.subrange(a, b);
    assert(forall|j: int| 0 <= j < trimmed.len() ==> (#[trigger] trimmed[j]) == piece[a + j]);
}

} // verus!
