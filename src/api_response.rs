use vstd::prelude::*;
use vstd::string::StringExecFns;

verus! {

/// An HTTP status code is a three-digit number.
pub open spec fn is_status_code(code: u16) -> bool {
    100 <= code <= 999
}

pub open spec fn digit_char(d: nat) -> char {
    if d == 0 {
        '0'
    } else if d == 1 {
        '1'
    } else if d == 2 {
        '2'
    } else if d == 3 {
        '3'
    } else if d == 4 {
        '4'
    } else if d == 5 {
        '5'
    } else if d == 6 {
        '6'
    } else if d == 7 {
        '7'
    } else if d == 8 {
        '8'
    } else {
        '9'
    }
}

/// The decimal digits of `n`, most significant first, without leading zeros.
pub open spec fn decimal(n: nat) -> Seq<char>
    decreases n,
{
    if n < 10 {
        seq![digit_char(n)]
    } else {
        decimal(n / 10) + seq![digit_char(n % 10)]
    }
}

/// The text of a response shown as an error.
pub open spec fn error_text(body: Seq<char>, code: u16) -> Seq<char> {
    "Error: "@ + body + " \n Status Code: "@ + decimal(code as nat)
}

/// A response: its status code and its body.
#[derive(Debug)]
pub struct ApiResponse {
    pub status_code: u16,
    pub body: String,
}

fn digit_str(d: u16) -> (r: &'static str)
    requires
        d < 10,
    ensures
        r@ == seq![digit_char(d as nat)],
{
    proof {
        reveal_strlit("0");
        reveal_strlit("1");
        reveal_strlit("2");
        reveal_strlit("3");
        reveal_strlit("4");
        reveal_strlit("5");
        reveal_strlit("6");
        reveal_strlit("7");
        reveal_strlit("8");
        reveal_strlit("9");
    }
    if d == 0 {
        "0"
    } else if d == 1 {
        "1"
    } else if d == 2 {
        "2"
    } else if d == 3 {
        "3"
    } else if d == 4 {
        "4"
    } else if d == 5 {
        "5"
    } else if d == 6 {
        "6"
    } else if d == 7 {
        "7"
    } else if d == 8 {
        "8"
    } else {
        "9"
    }
}

/// `n` written in decimal.
pub fn decimal_string(n: u16) -> (r: String)
    ensures
        r@ == decimal(n as nat),
    decreases n,
{
    if n < 10 {
        String::from_str(digit_str(n))
    } else {
        let mut s = decimal_string(n / 10);
        s.append(digit_str(n % 10));
        s
    }
}

impl ApiResponse {
    /// A response with the given status code and body.
    pub fn new(status_code: u16, body: String) -> (r: Self)
        requires
            is_status_code(status_code),
        ensures
            r.status_code == status_code,
            r.body@ == body@,
    {
        ApiResponse { status_code, body }
    }

    /// The response shown as an error: its body, then its status code.
    pub fn error_text(&self) -> (r: String)
        ensures
            r@ == error_text(self.body@, self.status_code),
    {
        let mut s = String::from_str("Error: ");
        s.append(self.body.as_str());
        s.append(" \n Status Code: ");
        let code = decimal_string(self.status_code);
        s.append(code.as_str());
        proof {
            reveal_strlit("Error: ");
            reveal_strlit(" \n Status Code: ");
        }
        s
    }
}

} // verus!
