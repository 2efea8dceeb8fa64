//! The server's settings: where it listens and how much it logs, how they
//! are read from the environment's values, and the banner printed at start.

use vstd::prelude::*;

verus! {

/// The port used when none is given or the given one does not parse.
pub const DEFAULT_PORT: u16 = 8111;

/// Where the server listens and its log filter.
pub struct Server {
    adress: (String, u16),
    log_level: String,
}

impl Server {
    pub closed spec fn host(&self) -> Seq<char> {
        self.adress.0@
    }

    pub closed spec fn port(&self) -> u16 {
        self.adress.1
    }

    pub closed spec fn level(&self) -> Seq<char> {
        self.log_level@
    }

    pub fn new(adress: (String, u16), log_level: String) -> (r: Self)
        ensures
            r.host() == adress.0@,
            r.port() == adress.1,
            r.level() == log_level@,
    {
        Server { adress, log_level }
    }

    /// The host and port to bind.
    pub fn adress(&self) -> (r: (String, u16))
        ensures
            r.0@ == self.host(),
            r.1 == self.port(),
    {
        (self.adress.0.clone(), self.adress.1)
    }

    /// The default log filter.
    pub fn log_level(&self) -> (r: &str)
        ensures
            r@ == self.level(),
    {
        self.log_level.as_str()
    }
}

/// The character of a decimal digit.
pub open spec fn digit_char(d: nat) -> char {
    ((d + 48) as u8) as char
}

/// The value of a decimal digit character.
pub open spec fn digit_value(c: char) -> int {
    c as int - 48
}

/// `n` written in decimal, without leading zeros.
pub open spec fn decimal(n: nat) -> Seq<char>
    decreases n,
{
    if n < 10 {
        seq![digit_char(n)]
    } else {
        decimal(n / 10).push(digit_char(n % 10))
    }
}

/// Every character of `s` is an ASCII digit.
pub open spec fn all_digits(s: Seq<char>) -> bool {
    forall|i: int| 0 <= i < s.len() ==> '0' <= #[trigger] s[i] <= '9'
}

/// The number that a string of digits spells.
pub open spec fn digits_value(s: Seq<char>) -> int
    decreases s.len(),
{
    if s.len() == 0 {
        0
    } else {
        digits_value(s.drop_last()) * 10 + digit_value(s.last())
    }
}

/// The digits of a port text: a leading `+` is allowed.
pub open spec fn port_digits(s: Seq<char>) -> Seq<char> {
    if s.len() > 0 && s[0] == '+' {
        s.drop_first()
    } else {
        s
    }
}

/// A port text read as a 16-bit unsigned number: an optional `+`, then one
/// or more decimal digits spelling at most 65535.
pub open spec fn parsed_port(s: Seq<char>) -> Option<u16> {
    let d = port_digits(s);
    if d.len() > 0 && all_digits(d) && digits_value(d) <= 65535 {
        Some(digits_value(d) as u16)
    } else {
        None
    }
}

/// The port that a settings value selects.
pub open spec fn port_setting(port: Option<Seq<char>>) -> u16 {
    match port {
        Some(p) => match parsed_port(p) {
            Some(n) => n,
            None => DEFAULT_PORT,
        },
        None => DEFAULT_PORT,
    }
}

/// The banner printed at start, with the server's URL.
pub open spec fn banner(host: Seq<char>, port: u16) -> Seq<char> {
    "\n        __| |_________________| |__\n        __   _________________   __\n          | |                 | |       Catch your http requests\n          | | ╔═╗┌─┐┌┬┐┌─┐┬ ┬ | |\n          | | ║  ├─┤ │ │  ├─┤ | |       https://github.com/SilenLoc/catch\n          | | ╚═╝┴ ┴ ┴ └─┘┴ ┴ | |\n        __| |_________________| |__     "@ + "http://"@ + host + ":"@ + decimal(port as nat) + "\n        __   _________________   __\n          | |                 | |\n        "@
}

/// Reads a port text; `None` where it is not a number in range.
pub fn parse_port(s: &str) -> (r: Option<u16>)
    ensures
        r == parsed_port(s@),
{
    let n = s.unicode_len();
    let mut i: usize = 0;
    if n > 0 && s.get_char(0) == '+' {
        i = 1;
    }
    let start = i;
    let ghost d = port_digits(s@);
    assert(d =~= s@.subrange(start as int, n as int));
    if start == n {
        return None;
    }
    let mut acc: u32 = 0;
    while i < n
        invariant
            start <= i <= n,
            n == s@.len(),
            d == s@.subrange(start as int, n as int),
            d == port_digits(s@),
            all_digits(s@.subrange(start as int, i as int)),
            acc as int == if digits_value(s@.subrange(start as int, i as int)) > 65535 {
                65536
            } else {
                digits_value(s@.subrange(start as int, i as int))
            },
            digits_value(s@.subrange(start as int, i as int)) >= 0,
        decreases n - i,
    {
        let c = s.get_char(i);
        let ghost pre = s@.subrange(start as int, i as int);
        let ghost next = s@.subrange(start as int, i + 1);
        assert(next.drop_last() =~= pre);
        if c < '0' || c > '9' {
            assert(d[i - start] == c);
            assert(!all_digits(d));
            return None;
        }
        let v = (c as u32) - 48;
        acc = if acc > 65535 || acc * 10 + v > 65535 { 65536 } else { acc * 10 + v };
        assert(all_digits(next)) by {
            assert forall|j: int| 0 <= j < next.len() implies '0' <= #[trigger] next[j] <= '9' by {
                if j < pre.len() {
                    assert(next[j] == pre[j]);
                }
            }
        }
        i = i + 1;
    }
    assert(s@.subrange(start as int, n as int) == d);
    if acc > 65535 {
        None
    } else {
        Some(acc as u16)
    }
}

/// The settings from the environment's values: the port (default 8111, also
/// where it does not parse) and the log filter (default `info`); the server
/// listens on every interface.
pub fn from_settings(port: Option<String>, log_level: Option<String>) -> (r: Server)
    ensures
        r.host() == "0.0.0.0"@,
        r.port() == port_setting(
            match port {
                Some(p) => Some(p@),
                None => None,
            },
        ),
        r.level() == match log_level {
            Some(l) => l@,
            None => "info"@,
        },
{
    let p = match port {
        Some(p) => match parse_port(p.as_str()) {
            Some(n) => n,
            None => DEFAULT_PORT,
        },
        None => DEFAULT_PORT,
    };
    let level = match log_level {
        Some(l) => l,
        None => String::from_str("info"),
    };
    Server::new((String::from_str("0.0.0.0"), p), level)
}

/// The text of one decimal digit.
fn digit_text(d: u8) -> (r: &'static str)
    requires
        d < 10,
    ensures
        r@ == seq![digit_char(d as nat)],
{
    proof {
        reveal_strlit("0");
        reveal_strlit("1");
        reveal_strlit("2");
        reveal_strlit("3");
        reveal_strlit("4");
        reveal_strlit("5");
        reveal_strlit("6");
        reveal_strlit("7");
        reveal_strlit("8");
        reveal_strlit("9");
    }
    match d {
        0 => "0",
        1 => "1",
        2 => "2",
        3 => "3",
        4 => "4",
        5 => "5",
        6 => "6",
        7 => "7",
        8 => "8",
        _ => "9",
    }
}

/// Appends `n` in decimal.
fn push_decimal(out: &mut String, n: u16)
    ensures
        final(out)@ == old(out)@ + decimal(n as nat),
    decreases n,
{
    if n >= 10 {
        push_decimal(out, n / 10);
    }
    let d: u8 = (n % 10) as u8;
    out.append(digit_text(d));
    assert(final(out)@ =~= old(out)@ + decimal(n as nat));
}

/// The banner printed at start: the project's sign and the server's URL.
pub fn ascii(server: &Server) -> (r: String)
    ensures
        r@ == banner(server.host(), server.port()),
{
    let (root, port) = server.adress();
    let mut r = String::from_str("\n        __| |_________________| |__\n        __   _________________   __\n          | |                 | |       Catch your http requests\n          | | ╔═╗┌─┐┌┬┐┌─┐┬ ┬ | |\n          | | ║  ├─┤ │ │  ├─┤ | |       https://github.com/SilenLoc/catch\n          | | ╚═╝┴ ┴ ┴ └─┘┴ ┴ | |\n        __| |_________________| |__     ");
    r.append("http://");
    r.append(root.as_str());
    r.append(":");
    push_decimal(&mut r, port);
    r.append("\n        __   _________________   __\n          | |                 | |\n        ");
    r
}

} // verus!
