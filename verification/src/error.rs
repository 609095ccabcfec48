//! The library's error values and their rendering into the single
//! string-message channel the command boundary uses.

use vstd::prelude::*;

verus! {

/// The decimal digit character for `d`.
pub open spec fn digit_char(d: int) -> char {
    if d == 0 {
        '0'
    } else if d == 1 {
        '1'
    } else if d == 2 {
        '2'
    } else if d == 3 {
        '3'
    } else if d == 4 {
        '4'
    } else if d == 5 {
        '5'
    } else if d == 6 {
        '6'
    } else if d == 7 {
        '7'
    } else if d == 8 {
        '8'
    } else {
        '9'
    }
}

/// The decimal digits of a nonnegative number, most significant first.
pub open spec fn dec_digits(n: int) -> Seq<char>
    decreases n,
{
    if n < 10 {
        seq![digit_char(n)]
    } else {
        dec_digits(n / 10) + seq![digit_char(n % 10)]
    }
}

fn digit_str(d: u16) -> (r: &'static str)
    requires
        d < 10,
    ensures
        r@ =~= seq![digit_char(d as int)],
{
    proof {
        reveal_strlit("0");
        reveal_strlit("1");
        reveal_strlit("2");
        reveal_strlit("3");
        reveal_strlit("4");
        reveal_strlit("5");
        reveal_strlit("6");
        reveal_strlit("7");
        reveal_strlit("8");
        reveal_strlit("9");
    }
    if d == 0 {
        "0"
    } else if d == 1 {
        "1"
    } else if d == 2 {
        "2"
    } else if d == 3 {
        "3"
    } else if d == 4 {
        "4"
    } else if d == 5 {
        "5"
    } else if d == 6 {
        "6"
    } else if d == 7 {
        "7"
    } else if d == 8 {
        "8"
    } else {
        "9"
    }
}

/// Render a port (or any small number) in decimal.
pub fn u16_to_string(n: u16) -> (r: String)
    ensures
        r@ == dec_digits(n as int),
    decreases n,
{
    if n < 10 {
        digit_str(n).to_owned()
    } else {
        let mut s = u16_to_string(n / 10);
        s.append(digit_str(n % 10));
        proof {
            assert(s@ =~= dec_digits((n / 10) as int) + seq![digit_char((n % 10) as int)]);
        }
        s
    }
}

/// A failure of the session layer itself (server-reported failures travel
/// as their own messages).
#[derive(Debug)]
pub enum CoreError {
    /// An operation needed a live connection and there was none.
    NotConnected,
    /// Host resolution produced no candidate address.
    ResolveFailed { host: String, port: u16 },
    /// No candidate address accepted the connection; the message is the
    /// last candidate's error, or a generic one when there was none.
    ConnectFailed { message: String },
}

impl CoreError {
    pub open spec fn message_spec(&self) -> Seq<char> {
        match self {
            CoreError::NotConnected => "Not connected"@,
            CoreError::ResolveFailed { host, port } => "Unable to resolve address: "@ + host@
                + seq![':'] + dec_digits(*port as int),
            CoreError::ConnectFailed { message } => message@,
        }
    }

    /// The human-readable message surfaced to the caller.
    pub fn message(&self) -> (r: String)
        ensures
            r@ == self.message_spec(),
    {
        match self {
            CoreError::NotConnected => "Not connected".to_owned(),
            CoreError::ResolveFailed { host, port } => {
                let mut s = "Unable to resolve address: ".to_owned();
                s.append(host.as_str());
                s.append(":");
                let p = u16_to_string(*port);
                s.append(p.as_str());
                proof {
                    reveal_strlit(":");
                    assert(s@ =~= "Unable to resolve address: "@ + host@ + seq![':'] + dec_digits(
                        *port as int,
                    ));
                }
                s
            },
            CoreError::ConnectFailed { message } => message.clone(),
        }
    }
}

/// Render any displayable error as the plain message the command boundary
/// returns.
pub fn map_err<E: std::fmt::Display>(err: E) -> String {
    err.to_string()
}

} // verus!
