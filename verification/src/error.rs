//! The errors of the library, and their text.

use crate::base::Handle;
use crate::cstring::{c_str, NulError};
use crate::utils::char_ptr_to_string;
use vstd::prelude::*;
use vstd::std_specs::convert::FromSpecImpl;
use vstd::string::*;
use vstd::utf8::*;

verus! {

/// `core::str::Utf8Error`, the error of `core::str::from_utf8`. It is
/// carried as it comes; nothing is read out of it here.
#[verifier::external_type_specification]
#[verifier::external_body]
pub struct ExUtf8Error(core::str::Utf8Error);

/// `std::io::Error`, an error of the operating system. It is carried
/// as it comes; nothing is read out of it here.
#[verifier::external_type_specification]
#[verifier::external_body]
pub struct ExIoError(std::io::Error);

/// What the native library reported of a call that failed.
#[derive(Debug)]
pub struct APIError {
    operation: &'static str,
    message: String,
    errno: i32,
}

/// Every failure this library reports.
#[derive(Debug)]
pub enum Error {
    /// A native call failed.
    API(APIError),
    /// A string meant for native code held a nul byte.
    IllegalString(NulError),
    /// Bytes that came from native code were not UTF-8.
    Utf8Error(core::str::Utf8Error),
    /// The operating system reported an error during the named operation.
    UnixError(std::io::Error, &'static str),
    /// The native library handed out no handle.
    Create,
}

impl APIError {
    pub closed spec fn spec_operation(&self) -> &'static str {
        self.operation
    }

    pub closed spec fn spec_message(&self) -> Seq<char> {
        self.message@
    }

    pub closed spec fn spec_errno(&self) -> i32 {
        self.errno
    }

    /// The name of the operation that failed.
    #[verifier::when_used_as_spec(spec_operation)]
    pub fn operation(&self) -> (r: &'static str)
        ensures
            r == self.operation(),
    {
        self.operation
    }

    /// The native library's message.
    pub fn message(&self) -> (r: &str)
        ensures
            r@ == self.spec_message(),
    {
        self.message.as_str()
    }

    /// The native library's error number.
    #[verifier::when_used_as_spec(spec_errno)]
    pub fn errno(&self) -> (r: i32)
        ensures
            r == self.errno(),
    {
        self.errno
    }
}

impl From<NulError> for Error {
    fn from(error: NulError) -> (r: Self) {
        Error::IllegalString(error)
    }
}

impl FromSpecImpl<NulError> for Error {
    open spec fn obeys_from_spec() -> bool {
        true
    }

    open spec fn from_spec(v: NulError) -> Self {
        Error::IllegalString(v)
    }
}

impl From<core::str::Utf8Error> for Error {
    fn from(error: core::str::Utf8Error) -> (r: Self) {
        Error::Utf8Error(error)
    }
}

impl FromSpecImpl<core::str::Utf8Error> for Error {
    open spec fn obeys_from_spec() -> bool {
        true
    }

    open spec fn from_spec(v: core::str::Utf8Error) -> Self {
        Error::Utf8Error(v)
    }
}

/// `std::io::Error::last_os_error` gives the error that the operating
/// system reported last; nothing is claimed of which one that is.
pub assume_specification[ std::io::Error::last_os_error ]() -> std::io::Error
;

/// The operating system's last error, as the error of `operation`.
pub fn unix_error(operation: &'static str) -> (r: Error)
    ensures
        r matches Error::UnixError(_, op) && op == operation,
{
    Error::UnixError(std::io::Error::last_os_error(), operation)
}

impl<C> Handle<C> {
    /// The error of a native call that failed on this handle.
    ///
    /// `c_msg` is the memory at the message that the native library
    /// holds for its last error, and `errno` its error number.
    pub fn get_error_from_handle(&self, operation: &'static str, c_msg: &[u8], errno: i32) -> (r:
        Error)
        requires
            valid_utf8(c_str(c_msg@)),
        ensures
            r matches Error::API(e) && e.operation() == operation && e.spec_message() == decode_utf8(
                c_str(c_msg@),
            ) && e.errno() == errno,
    {
        match char_ptr_to_string(c_msg) {
            Ok(message) => Error::API(APIError { operation, message, errno }),
            Err(_) => vstd::pervasive::unreached(),
        }
    }
}

/// The character that stands for the digit `d`.
pub open spec fn digit(d: nat) -> char {
    if d == 0 {
        '0'
    } else if d == 1 {
        '1'
    } else if d == 2 {
        '2'
    } else if d == 3 {
        '3'
    } else if d == 4 {
        '4'
    } else if d == 5 {
        '5'
    } else if d == 6 {
        '6'
    } else if d == 7 {
        '7'
    } else if d == 8 {
        '8'
    } else {
        '9'
    }
}

/// The digits of `n` in base ten, without leading zeros.
pub open spec fn decimal(n: nat) -> Seq<char>
    decreases n,
{
    if n < 10 {
        seq![digit(n)]
    } else {
        decimal(n / 10).push(digit(n % 10))
    }
}

/// `i` in base ten, with a minus sign before it where it is negative.
pub open spec fn signed_decimal(i: int) -> Seq<char> {
    if i < 0 {
        seq!['-'] + decimal((-i) as nat)
    } else {
        decimal(i as nat)
    }
}

fn digit_str(d: u64) -> (r: &'static str)
    requires
        d < 10,
    ensures
        r@ == seq![digit(d as nat)],
{
    proof {
        reveal_strlit("0");
        reveal_strlit("1");
        reveal_strlit("2");
        reveal_strlit("3");
        reveal_strlit("4");
        reveal_strlit("5");
        reveal_strlit("6");
        reveal_strlit("7");
        reveal_strlit("8");
        reveal_strlit("9");
    }
    let r = if d == 0 {
        "0"
    } else if d == 1 {
        "1"
    } else if d == 2 {
        "2"
    } else if d == 3 {
        "3"
    } else if d == 4 {
        "4"
    } else if d == 5 {
        "5"
    } else if d == 6 {
        "6"
    } else if d == 7 {
        "7"
    } else if d == 8 {
        "8"
    } else {
        "9"
    };
    assert(r@ =~= seq![digit(d as nat)]);
    r
}

fn decimal_string(n: u64) -> (r: String)
    ensures
        r@ == decimal(n as nat),
    decreases n,
{
    if n < 10 {
        String::from_str(digit_str(n))
    } else {
        let mut s = decimal_string(n / 10);
        s.append(digit_str(n % 10));
        assert(s@ =~= decimal((n / 10) as nat).push(digit((n % 10) as nat)));
        s
    }
}

impl Error {
    /// The text of the error, where `details` is the text of the
    /// error that it wraps, if it wraps one.
    pub open spec fn text(self, details: Seq<char>) -> Seq<char> {
        match self {
            Error::API(err) => "API Error:\n\tOperation: "@ + err.operation()@
                + "\n\tMessage: "@ + err.spec_message() + "\n\tError Number: "@ + signed_decimal(
                err.errno() as int,
            ),
            Error::IllegalString(err) => "Illegal string Error:\nNull byte found\n\tDetails: "@
                + "nul byte found in provided data at position: "@ + decimal(
                err.position() as nat,
            ),
            Error::Utf8Error(_) => "Utf8 Error:\nFailed to interpret string as utf-8\n\tDetails: "@
                + details,
            Error::UnixError(_, operation) => "Unix Error:\n\tError: "@ + details
                + "\n\tOperation: "@ + operation@,
            Error::Create => "Creation Error:\nFailed to create a guestfs handle"@,
        }
    }

    /// Whether `details` is the text of the error that this one wraps.
    /// Holds of any text where it wraps none.
    pub open spec fn wraps(self, details: String) -> bool {
        match self {
            Error::Utf8Error(err) => to_string_from_display_ensures::<core::str::Utf8Error>(
                &err,
                details,
            ),
            Error::UnixError(err, _) => to_string_from_display_ensures::<std::io::Error>(
                &err,
                details,
            ),
            _ => true,
        }
    }

    /// The error as text for a reader.
    pub fn to_string(&self) -> (r: String)
        ensures
            exists|details: String| self.wraps(details) && r@ == self.text(details@),
    {
        match self {
            Error::API(err) => {
                let mut s = String::from_str("API Error:\n\tOperation: ");
                s.append(err.operation);
                s.append("\n\tMessage: ");
                s.append(err.message.as_str());
                s.append("\n\tError Number: ");
                if err.errno < 0 {
                    s.append("-");
                    proof {
                        reveal_strlit("-");
                    }
                    let n = decimal_string((-(err.errno as i64)) as u64);
                    s.append(n.as_str());
                    assert(s@ =~= self.text(n@));
                    assert(self.wraps(n));
                } else {
                    let n = decimal_string(err.errno as u64);
                    s.append(n.as_str());
                    assert(s@ =~= self.text(n@));
                    assert(self.wraps(n));
                }
                s
            },
            Error::IllegalString(err) => {
                let mut s = String::from_str(
                    "Illegal string Error:\nNull byte found\n\tDetails: ",
                );
                s.append("nul byte found in provided data at position: ");
                let n = decimal_string(err.nul_position() as u64);
                s.append(n.as_str());
                assert(s@ =~= self.text(n@));
                assert(self.wraps(n));
                s
            },
            Error::Utf8Error(err) => {
                let details = err.to_string();
                let mut s = String::from_str(
                    "Utf8 Error:\nFailed to interpret string as utf-8\n\tDetails: ",
                );
                s.append(details.as_str());
                assert(s@ =~= self.text(details@));
                assert(self.wraps(details));
                s
            },
            Error::UnixError(err, operation) => {
                let details = err.to_string();
                let mut s = String::from_str("Unix Error:\n\tError: ");
                s.append(details.as_str());
                s.append("\n\tOperation: ");
                s.append(operation);
                assert(s@ =~= self.text(details@));
                assert(self.wraps(details));
                s
            },
            Error::Create => {
                let s = String::from_str("Creation Error:\nFailed to create a guestfs handle");
                assert(self.wraps(s));
                s
            },
        }
    }
}

} // verus!
