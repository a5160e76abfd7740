//! Handle configuration of the central server: reading the settings from the values of the
//! environment variables.

use vstd::prelude::*;

use crate::text::{decimal, digit_char, push_decimal};

verus! {

/// Whether a character is an ASCII decimal digit.
pub open spec fn is_digit(c: char) -> bool {
    '0' <= c && c <= '9'
}

/// The value of an ASCII decimal digit.
pub open spec fn digit_value(c: char) -> nat {
    ((c as u32) - 48) as nat
}

/// Every character is an ASCII decimal digit.
pub open spec fn all_digits(s: Seq<char>) -> bool {
    forall|i: int| 0 <= i < s.len() ==> is_digit(#[trigger] s[i])
}

/// The number written by a string of decimal digits (most significant first).
pub open spec fn digits_value(s: Seq<char>) -> nat
    decreases s.len(),
{
    if s.len() == 0 {
        0
    } else {
        digits_value(s.drop_last()) * 10 + digit_value(s.last())
    }
}

/// How an unsigned integer no larger than `max` is read from text: an optional `+`, then one
/// or more decimal digits whose value is at most `max`.
pub open spec fn parse_unsigned(s: Seq<char>, max: nat) -> Option<nat> {
    let d = if s.len() > 0 && s[0] == '+' {
        s.drop_first()
    } else {
        s
    };
    if d.len() > 0 && all_digits(d) && digits_value(d) <= max {
        Some(digits_value(d))
    } else {
        None
    }
}

/// A longer run of digits is worth at least as much as its prefix.
pub proof fn lemma_digits_value_prefix(s: Seq<char>, j: int)
    requires
        0 <= j <= s.len(),
    ensures
        digits_value(s.subrange(0, j)) <= digits_value(s),
    decreases s.len() - j,
{
    if j < s.len() {
        lemma_digits_value_prefix(s, j + 1);
        let p = s.subrange(0, j + 1);
        assert(p.drop_last() == s.subrange(0, j));
    } else {
        assert(s.subrange(0, j) == s);
    }
}

/// The decimal text of a number is all digits, starts with no `+`, and is worth the number.
pub proof fn lemma_decimal_digits(n: nat)
    ensures
        all_digits(decimal(n)),
        decimal(n).len() > 0,
        decimal(n)[0] != '+',
        digits_value(decimal(n)) == n,
    decreases n,
{
    if n >= 10 {
        lemma_decimal_digits(n / 10);
        let d = decimal(n);
        assert(d.drop_last() == decimal(n / 10));
        assert(d[0] == decimal(n / 10)[0]);
        lemma_digit_char((n % 10) as nat);
        assert(d.last() == digit_char((n % 10) as nat));
        assert(digits_value(d) == digits_value(decimal(n / 10)) * 10 + digit_value(d.last()));
        assert((n / 10) * 10 + n % 10 == n);
        assert forall|i: int| 0 <= i < d.len() implies is_digit(#[trigger] d[i]) by {
            if i < d.len() - 1 {
                assert(d[i] == decimal(n / 10)[i]);
            }
        }
    } else {
        lemma_digit_char(n);
        let d = decimal(n);
        assert(d == seq![digit_char(n)]);
        assert(d.drop_last() =~= Seq::<char>::empty());
        assert(digits_value(d) == digits_value(d.drop_last()) * 10 + digit_value(d.last()));
    }
}

/// The character of a digit is a digit, worth that digit.
proof fn lemma_digit_char(d: nat)
    requires
        d < 10,
    ensures
        is_digit(digit_char(d)),
        digit_value(digit_char(d)) == d,
        digit_char(d) != '+',
{
}

/// A number written in decimal by the api reads back as the same number.
pub proof fn lemma_decimal_round_trip(n: nat, max: nat)
    requires
        n <= max,
    ensures
        parse_unsigned(decimal(n), max) == Some(n),
{
    lemma_decimal_digits(n);
}

/// Reads an unsigned integer no larger than `max` from `s`: an optional `+`, then one or more
/// decimal digits; `None` for anything else or a larger value.
pub fn parse_decimal(s: &str, max: u64) -> (r: Option<u64>)
    ensures
        match parse_unsigned(s@, max as nat) {
            Some(v) => r == Some(v as u64),
            None => r is None,
        },
{
    let n = s.unicode_len();
    let mut start: usize = 0;
    if n > 0 && s.get_char(0) == '+' {
        start = 1;
    }
    let ghost d = if s@.len() > 0 && s@[0] == '+' {
        s@.drop_first()
    } else {
        s@
    };
    assert(d == s@.subrange(start as int, n as int));
    if start >= n {
        return None;
    }
    let mut acc: u64 = 0;
    let mut i: usize = start;
    while i < n
        invariant
            n == s@.len(),
            start <= i <= n,
            d == s@.subrange(start as int, n as int),
            d == (if s@.len() > 0 && s@[0] == '+' {
                s@.drop_first()
            } else {
                s@
            }),
            all_digits(d.subrange(0, i - start)),
            acc as nat == digits_value(d.subrange(0, i - start)),
            acc <= max,
        decreases n - i,
    {
        let c = s.get_char(i);
        if c < '0' || c > '9' {
            assert(d[i - start] == s@[i as int]);
            assert(!is_digit(d[i - start]));
            assert(!all_digits(d));
            assert(parse_unsigned(s@, max as nat) is None);
            return None;
        }
        let v = (c as u32 - 48) as u64;
        proof {
            let p = d.subrange(0, i - start + 1);
            assert(p.drop_last() == d.subrange(0, i - start));
            assert(p.last() == c);
            assert(digits_value(p) == digits_value(d.subrange(0, i - start)) * 10 + v);
        }
        if v > max || acc > (max - v) / 10 {
            proof {
                let p = d.subrange(0, i - start + 1);
                if v <= max {
                    assert(acc * 10 + v > max) by (nonlinear_arith)
                        requires
                            acc > (max - v) / 10,
                            v <= max,
                    ;
                }
                lemma_digits_value_prefix(d, i - start + 1);
                assert(digits_value(p) > max);
                assert(digits_value(d) > max);
                assert(parse_unsigned(s@, max as nat) is None);
            }
            return None;
        }
        proof {
            assert(acc * 10 + v <= max) by (nonlinear_arith)
                requires
                    acc <= (max - v) / 10,
                    v <= max,
            ;
        }
        acc = acc * 10 + v;
        proof {
            let p = d.subrange(0, i - start + 1);
            assert forall|k: int| 0 <= k < p.len() implies is_digit(#[trigger] p[k]) by {
                if k < p.len() - 1 {
                    assert(p[k] == d.subrange(0, i - start)[k]);
                }
            }
        }
        i = i + 1;
    }
    assert(d.subrange(0, n - start) == d);
    Some(acc)
}

/// The text of one part of a dotted IPv4 address: one to three decimal digits, no leading zero
/// (unless the part is `0`), worth at most 255.
pub open spec fn octet_text(p: Seq<char>) -> bool {
    &&& 1 <= p.len() <= 3
    &&& all_digits(p)
    &&& (p.len() == 1 || p[0] != '0')
    &&& digits_value(p) <= 255
}

/// `s` holds exactly three dots, at positions `i < j < k`.
pub open spec fn three_dots(s: Seq<char>, i: int, j: int, k: int) -> bool {
    &&& 0 <= i < j < k < s.len()
    &&& s[i] == '.' && s[j] == '.' && s[k] == '.'
    &&& forall|m: int| 0 <= m < s.len() && #[trigger] s[m] == '.' ==> m == i || m == j || m == k
}

/// How an IPv4 address is read from text: four parts separated by dots, each part the text of
/// an octet; the result is the four octets in order.
pub open spec fn parse_ipv4(s: Seq<char>) -> Option<Seq<nat>> {
    if exists|i: int, j: int, k: int| three_dots(s, i, j, k) {
        let (i, j, k) = choose|i: int, j: int, k: int| three_dots(s, i, j, k);
        let parts = seq![
            s.subrange(0, i),
            s.subrange(i + 1, j),
            s.subrange(j + 1, k),
            s.subrange(k + 1, s.len() as int),
        ];
        if forall|n: int| 0 <= n < 4 ==> octet_text(#[trigger] parts[n]) {
            Some(parts.map_values(|p: Seq<char>| digits_value(p)))
        } else {
            None
        }
    } else {
        None
    }
}

/// Reads one part of a dotted IPv4 address, the characters `from..to` of `s`.
fn parse_octet(s: &str, from: usize, to: usize) -> (r: Option<u8>)
    requires
        from <= to <= s@.len(),
    ensures
        octet_text(s@.subrange(from as int, to as int)) ==> r == Some(
            digits_value(s@.subrange(from as int, to as int)) as u8,
        ),
        !octet_text(s@.subrange(from as int, to as int)) ==> r is None,
{
    let ghost p = s@.subrange(from as int, to as int);
    if to - from < 1 || to - from > 3 {
        return None;
    }
    let mut acc: u64 = 0;
    let mut i: usize = from;
    while i < to
        invariant
            from <= i <= to <= s@.len(),
            1 <= to - from <= 3,
            p == s@.subrange(from as int, to as int),
            all_digits(p.subrange(0, i - from)),
            acc as nat == digits_value(p.subrange(0, i - from)),
            acc < 1000,
        decreases to - i,
    {
        let c = s.get_char(i);
        if c < '0' || c > '9' {
            assert(p[i - from] == s@[i as int]);
            assert(!is_digit(p[i - from]));
            return None;
        }
        let v = (c as u32 - 48) as u64;
        proof {
            let q = p.subrange(0, i - from + 1);
            assert(q.drop_last() == p.subrange(0, i - from));
            assert(q.last() == c);
            assert forall|k: int| 0 <= k < q.len() implies is_digit(#[trigger] q[k]) by {
                if k < q.len() - 1 {
                    assert(q[k] == p.subrange(0, i - from)[k]);
                }
            }
            lemma_digits_value_bound(q);
        }
        acc = acc * 10 + v;
        i = i + 1;
    }
    assert(p.subrange(0, to - from) == p);
    if to - from > 1 && s.get_char(from) == '0' {
        assert(p[0] == s@[from as int]);
        return None;
    }
    if acc > 255 {
        return None;
    }
    proof {
        if to - from > 1 {
            assert(p[0] == s@[from as int]);
        }
    }
    Some(acc as u8)
}

/// A run of at most three digits is worth less than 1000.
proof fn lemma_digits_value_bound(q: Seq<char>)
    requires
        q.len() <= 3,
        all_digits(q),
    ensures
        digits_value(q) < 1000,
        q.len() <= 2 ==> digits_value(q) < 100,
        q.len() <= 1 ==> digits_value(q) < 10,
    decreases q.len(),
{
    if q.len() > 0 {
        let r = q.drop_last();
        assert forall|k: int| 0 <= k < r.len() implies is_digit(#[trigger] r[k]) by {
            assert(r[k] == q[k]);
        }
        lemma_digits_value_bound(r);
        assert(is_digit(q[q.len() - 1]));
    }
}

/// Reads a dotted IPv4 address such as `127.0.0.1` into its four octets.
pub fn parse_ipv4_address(s: &str) -> (r: Option<[u8; 4]>)
    ensures
        match parse_ipv4(s@) {
            Some(o) => r matches Some(a) && a@ == o.map_values(|v: nat| v as u8),
            None => r is None,
        },
{
    let n = s.unicode_len();
    let mut dots: Vec<usize> = Vec::new();
    let mut i: usize = 0;
    while i < n
        invariant
            n == s@.len(),
            i <= n,
            forall|a: int| 0 <= a < dots.len() ==> 0 <= #[trigger] dots[a] < i && s@[dots[a] as int] == '.',
            forall|a: int, b: int| 0 <= a < b < dots.len() ==> dots[a] < dots[b],
            forall|m: int| 0 <= m < i && #[trigger] s@[m] == '.' ==> dots@.contains(m as usize),
        decreases n - i,
    {
        if s.get_char(i) == '.' {
            let ghost prev = dots@;
            dots.push(i);
            proof {
                assert forall|m: int| 0 <= m < i + 1 && #[trigger] s@[m] == '.' implies dots@.contains(
                    m as usize,
                ) by {
                    if m < i {
                        let w = choose|w: int| 0 <= w < prev.len() && prev[w] == m as usize;
                        assert(dots@[w] == prev[w]);
                    } else {
                        assert(dots@[dots.len() - 1] == i);
                    }
                }
            }
        }
        i = i + 1;
    }
    if dots.len() != 3 {
        proof {
            if exists|a: int, b: int, c: int| three_dots(s@, a, b, c) {
                let (a, b, c) = choose|a: int, b: int, c: int| three_dots(s@, a, b, c);
                assert(dots@.contains(a as usize));
                assert(dots@.contains(b as usize));
                assert(dots@.contains(c as usize));
                let ia = choose|w: int| 0 <= w < dots.len() && dots@[w] == a as usize;
                let ib = choose|w: int| 0 <= w < dots.len() && dots@[w] == b as usize;
                let ic = choose|w: int| 0 <= w < dots.len() && dots@[w] == c as usize;
                if dots.len() > 3 {
                    assert(s@[dots@[0] as int] == '.');
                    assert(s@[dots@[1] as int] == '.');
                    assert(s@[dots@[2] as int] == '.');
                    assert(s@[dots@[3] as int] == '.');
                    assert(dots@[0] < dots@[1] && dots@[1] < dots@[2] && dots@[2] < dots@[3]);
                } else {
                    assert(ia < ib || ib < ia);
                    assert(ia != ic && ib != ic);
                }
                assert(false);
            }
        }
        return None;
    }
    let a = dots[0];
    let b = dots[1];
    let c = dots[2];
    proof {
        assert(three_dots(s@, a as int, b as int, c as int)) by {
            assert forall|m: int| 0 <= m < s@.len() && #[trigger] s@[m] == '.' implies m == a || m
                == b || m == c by {
                assert(dots@.contains(m as usize));
            }
        }
        let (x, y, z) = choose|x: int, y: int, z: int| three_dots(s@, x, y, z);
        assert(dots@.contains(x as usize) && dots@.contains(y as usize) && dots@.contains(z as usize));
        assert(x == a as int && y == b as int && z == c as int);
    }
    let o0 = parse_octet(s, 0, a);
    let o1 = parse_octet(s, a + 1, b);
    let o2 = parse_octet(s, b + 1, c);
    let o3 = parse_octet(s, c + 1, n);
    let ghost parts = seq![
        s@.subrange(0, a as int),
        s@.subrange(a + 1, b as int),
        s@.subrange(b + 1, c as int),
        s@.subrange(c + 1, s@.len() as int),
    ];
    match (o0, o1, o2, o3) {
        (Some(v0), Some(v1), Some(v2), Some(v3)) => {
            let r = [v0, v1, v2, v3];
            proof {
                assert forall|k: int| 0 <= k < 4 implies octet_text(#[trigger] parts[k]) by {}
                let o = parts.map_values(|p: Seq<char>| digits_value(p));
                assert(r@ =~= o.map_values(|v: nat| v as u8));
            }
            Some(r)
        },
        _ => {
            proof {
                if forall|k: int| 0 <= k < 4 ==> octet_text(#[trigger] parts[k]) {
                    assert(octet_text(parts[0]) && octet_text(parts[1]) && octet_text(parts[2])
                        && octet_text(parts[3]));
                }
            }
            None
        },
    }
}

/// The settings of the server, read from the environment (all but where it listens).
#[derive(Debug)]
pub struct Settings {
    /// The database url to connect to
    pub db_url: String,
    /// The base URL of this server
    pub base_url: String,
    /// Time before an authentication request will timeout and return a failure to a potential client (in seconds)
    pub auth_timeout_seconds: u64,
    /// Time before an authentication request will timeout and return a failure for a request (in seconds)
    pub request_timeout_seconds: u64,
    /// Number of seconds between pings to a server
    pub ping_interval: u64,
    /// The PSK that new clients can use to authenticate during registration
    pub password: Option<String>,
}

/// Whether `r` is the error `text`.
pub open spec fn is_error_text<T>(r: Result<T, String>, text: Seq<char>) -> bool {
    r matches Err(e) && e@ == text
}

/// The characters of an optional text.
pub open spec fn opt_view(s: Option<&str>) -> Option<Seq<char>> {
    match s {
        Some(t) => Some(t@),
        None => None,
    }
}

/// Reads a required number setting: `missing` when the variable is not set, `invalid` when it
/// is not an unsigned 64-bit integer.
fn required_u64(value: Option<&str>, missing: &str, invalid: &str) -> (r: Result<u64, String>)
    ensures
        match value {
            None => is_error_text(r, missing@),
            Some(v) => match parse_unsigned(v@, u64::MAX as nat) {
                Some(n) => r == Ok::<u64, String>(n as u64),
                None => is_error_text(r, invalid@),
            },
        },
{
    match value {
        None => Err(String::from_str(missing)),
        Some(v) => match parse_decimal(v, u64::MAX) {
            Some(n) => Ok(n),
            None => Err(String::from_str(invalid)),
        },
    }
}

/// Reads where the server listens from the values of `HOST` and `PORT`: an IPv4 address and a
/// port number.
pub fn parse_address(host: Option<&str>, port: Option<&str>) -> (r: Result<([u8; 4], u16), String>)
    ensures
        match opt_view(host) {
            None => is_error_text(r, "HOST must be set"@),
            Some(h) => match parse_ipv4(h) {
                None => is_error_text(r, "HOST must be a valid IPv4 address"@),
                Some(o) => match opt_view(port) {
                    None => is_error_text(r, "PORT must be set"@),
                    Some(p) => match parse_unsigned(p, 65535) {
                        None => is_error_text(r, "PORT must be valid IPv4 address"@),
                        Some(n) => r matches Ok((ip, pn)) && ip@ == o.map_values(|v: nat| v as u8)
                            && pn == n,
                    },
                },
            },
        },
{
    let h = match host {
        None => {
            return Err(String::from_str("HOST must be set"));
        },
        Some(h) => h,
    };
    let ip = match parse_ipv4_address(h) {
        None => {
            return Err(String::from_str("HOST must be a valid IPv4 address"));
        },
        Some(ip) => ip,
    };
    let p = match port {
        None => {
            return Err(String::from_str("PORT must be set"));
        },
        Some(p) => p,
    };
    match parse_decimal(p, 65535) {
        None => Err(String::from_str("PORT must be valid IPv4 address")),
        Some(n) => Ok((ip, n as u16)),
    }
}

/// The text of a dotted IPv4 address.
pub open spec fn ipv4_text(ip: Seq<u8>) -> Seq<char> {
    decimal(ip[0] as nat) + "."@ + decimal(ip[1] as nat) + "."@ + decimal(ip[2] as nat) + "."@
        + decimal(ip[3] as nat)
}

/// The error when the server cannot listen at `ip`:`port`, with the system's `error` text.
pub fn bind_error_message(ip: [u8; 4], port: u16, error: &str) -> (r: String)
    ensures
        r@ == "failed to bind to "@ + ipv4_text(ip@) + ":"@ + decimal(port as nat)
            + " due to error: "@ + error@,
{
    let mut s = String::from_str("failed to bind to ");
    push_decimal(&mut s, ip[0] as u64);
    s.append(".");
    push_decimal(&mut s, ip[1] as u64);
    s.append(".");
    push_decimal(&mut s, ip[2] as u64);
    s.append(".");
    push_decimal(&mut s, ip[3] as u64);
    s.append(":");
    push_decimal(&mut s, port as u64);
    s.append(" due to error: ");
    s.append(error);
    s
}

/// Reads the settings from the values of `DB_URL`, `BASE_URL`, `REQUEST_TIMEOUT`,
/// `AUTH_TIMEOUT`, `PING_INTERVAL` and `PASSWORD`, checked in that order; the first missing or
/// malformed value gives its error.
pub fn parse_settings(
    db_url: Option<String>,
    base_url: Option<String>,
    request_timeout: Option<&str>,
    auth_timeout: Option<&str>,
    ping_interval: Option<&str>,
    password: Option<String>,
) -> (r: Result<Settings, String>)
    ensures
        db_url is None ==> is_error_text(r, "DB_URL must be set"@),
        db_url is Some && base_url is None ==> is_error_text(r, "BASE_URL must be set"@),
        db_url is Some && base_url is Some ==> match opt_view(request_timeout) {
            None => is_error_text(r, "REQUEST_TIMEOUT must be set"@),
            Some(rt) => match parse_unsigned(rt, u64::MAX as nat) {
                None => is_error_text(r, "REQUEST_TIMEOUT must be 64-bit integer"@),
                Some(rtv) => match opt_view(auth_timeout) {
                    None => is_error_text(r, "AUTH_TIMEOUT must be set"@),
                    Some(at) => match parse_unsigned(at, u64::MAX as nat) {
                        None => is_error_text(r, "AUTH_TIMEOUT must be 64-bit integer"@),
                        Some(atv) => match opt_view(ping_interval) {
                            None => is_error_text(r, "PING_INTERVAL must be set"@),
                            Some(pi) => match parse_unsigned(pi, u64::MAX as nat) {
                                None => is_error_text(r, "PING_INTERVAL must be 64-bit integer"@),
                                Some(piv) => r matches Ok(st) && st.db_url == db_url.unwrap()
                                    && st.base_url == base_url.unwrap()
                                    && st.request_timeout_seconds == rtv
                                    && st.auth_timeout_seconds == atv && st.ping_interval == piv
                                    && st.password == password,
                            },
                        },
                    },
                },
            },
        },
{
    let db_url = match db_url {
        None => {
            return Err(String::from_str("DB_URL must be set"));
        },
        Some(v) => v,
    };
    let base_url = match base_url {
        None => {
            return Err(String::from_str("BASE_URL must be set"));
        },
        Some(v) => v,
    };
    let request_timeout_seconds = match required_u64(
        request_timeout,
        "REQUEST_TIMEOUT must be set",
        "REQUEST_TIMEOUT must be 64-bit integer",
    ) {
        Ok(v) => v,
        Err(e) => {
            return Err(e);
        },
    };
    let auth_timeout_seconds = match required_u64(
        auth_timeout,
        "AUTH_TIMEOUT must be set",
        "AUTH_TIMEOUT must be 64-bit integer",
    ) {
        Ok(v) => v,
        Err(e) => {
            return Err(e);
        },
    };
    let ping_interval = match required_u64(
        ping_interval,
        "PING_INTERVAL must be set",
        "PING_INTERVAL must be 64-bit integer",
    ) {
        Ok(v) => v,
        Err(e) => {
            return Err(e);
        },
    };
    Ok(
        Settings {
            db_url,
            base_url,
            auth_timeout_seconds,
            request_timeout_seconds,
            ping_interval,
            password,
        },
    )
}

} // verus!
