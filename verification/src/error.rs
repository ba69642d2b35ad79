//! The error taxonomy of the bridge and the text each error is reported with.

use vstd::prelude::*;
use vstd::string::StringExecFns;

verus! {

/// Everything a bridge command can fail with.
#[derive(Debug, Clone)]
pub enum Error {
    /// The envelope carries no `x-method` header.
    Method,
    /// The envelope carries no `x-uri` header.
    Uri,
    /// A structured body could not be turned into bytes; holds the encoder's message.
    Serde(String),
    /// Method or target were present but malformed; holds the parser's message.
    Http(String),
    /// The body or connection under a response failed; holds the transport's message.
    Transport(String),
    /// The handle names no resource of the kind that was asked for.
    NotFound(u32),
    /// The operation was canceled, or lost a race for ownership.
    Canceled,
}

/// The character that stands for the digit `d` (`d < 10`).
pub open spec fn digit_char(d: nat) -> char {
    if d == 0 {
        '0'
    } else if d == 1 {
        '1'
    } else if d == 2 {
        '2'
    } else if d == 3 {
        '3'
    } else if d == 4 {
        '4'
    } else if d == 5 {
        '5'
    } else if d == 6 {
        '6'
    } else if d == 7 {
        '7'
    } else if d == 8 {
        '8'
    } else {
        '9'
    }
}

/// The decimal numeral of `n`, most significant digit first, without leading zeros.
pub open spec fn decimal(n: nat) -> Seq<char>
    decreases n,
{
    if n < 10 {
        seq![digit_char(n)]
    } else {
        decimal(n / 10).push(digit_char(n % 10))
    }
}

/// The text an error is reported with.
pub open spec fn message_of(e: Error) -> Seq<char> {
    match e {
        Error::Method => "require x-method header"@,
        Error::Uri => "require x-uri header"@,
        Error::Serde(m) => m@,
        Error::Http(m) => m@,
        Error::Transport(m) => m@,
        Error::NotFound(rid) => "The resource id "@ + decimal(rid as nat) + " is invalid."@,
        Error::Canceled => "request canceled"@,
    }
}

fn digit_str(d: u32) -> (s: &'static str)
    requires
        d < 10,
    ensures
        s@ == seq![digit_char(d as nat)],
{
    proof {
        reveal_strlit("0");
        reveal_strlit("1");
        reveal_strlit("2");
        reveal_strlit("3");
        reveal_strlit("4");
        reveal_strlit("5");
        reveal_strlit("6");
        reveal_strlit("7");
        reveal_strlit("8");
        reveal_strlit("9");
    }
    let s = if d == 0 {
        "0"
    } else if d == 1 {
        "1"
    } else if d == 2 {
        "2"
    } else if d == 3 {
        "3"
    } else if d == 4 {
        "4"
    } else if d == 5 {
        "5"
    } else if d == 6 {
        "6"
    } else if d == 7 {
        "7"
    } else if d == 8 {
        "8"
    } else {
        "9"
    };
    assert(s@ =~= seq![digit_char(d as nat)]);
    s
}

/// Appends the decimal numeral of `n` to `out`.
pub fn push_decimal(out: &mut String, n: u32)
    ensures
        final(out)@ == old(out)@ + decimal(n as nat),
    decreases n,
{
    if n >= 10 {
        push_decimal(out, n / 10);
    }
    let ghost before = out@;
    out.append(digit_str(n % 10));
    proof {
        if n >= 10 {
            assert(before == old(out)@ + decimal((n / 10) as nat));
            assert(out@ =~= old(out)@ + decimal((n / 10) as nat).push(digit_char((n % 10) as nat)));
        } else {
            assert(out@ =~= old(out)@ + seq![digit_char(n as nat)]);
        }
    }
}

impl Error {
    /// The text this error is reported with to the frontend.
    pub fn message(&self) -> (text: String)
        ensures
            text@ == message_of(*self),
    {
        match self {
            Error::Method => String::from_str("require x-method header"),
            Error::Uri => String::from_str("require x-uri header"),
            Error::Serde(m) => m.clone(),
            Error::Http(m) => m.clone(),
            Error::Transport(m) => m.clone(),
            Error::NotFound(rid) => {
                let mut text = String::from_str("The resource id ");
                push_decimal(&mut text, *rid);
                text.append(" is invalid.");
                text
            },
            Error::Canceled => String::from_str("request canceled"),
        }
    }

    /// Whether this error is a cancellation.
    pub fn is_canceled(&self) -> (b: bool)
        ensures
            b == (*self is Canceled),
    {
        match self {
            Error::Canceled => true,
            _ => false,
        }
    }
}

} // verus!
