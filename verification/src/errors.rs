//! Error handling.

use vstd::prelude::*;

verus! {

/// What went wrong.
#[derive(PartialEq, Eq, Structural, Debug, Clone, Copy)]
pub enum ErrorKind {
    /// A string is not the canonical name of any capability.
    InvalidName,
    /// A value cannot be represented: a bit that stands for no capability.
    InvalidInput,
    /// The operation does not exist for this set and thread.
    UnsupportedSelector,
    /// The kernel refused a call.
    SyscallError,
}

/// Library errors.
#[derive(Debug)]
pub struct CapsError {
    /// What went wrong.
    pub kind: ErrorKind,
    /// The OS error code of a refused kernel call, 0 for the other kinds.
    pub code: i32,
    /// The rejected name or value, or the kernel call that was refused.
    pub detail: String,
}

/// A [`CapsError`] as contracts speak of it.
pub ghost struct ErrorView {
    pub kind: ErrorKind,
    pub code: i32,
    pub detail: Seq<char>,
}

impl View for CapsError {
    type V = ErrorView;

    open spec fn view(&self) -> ErrorView {
        ErrorView { kind: self.kind, code: self.code, detail: self.detail@ }
    }
}

impl ErrorView {
    /// The error for a string that names no capability.
    pub open spec fn invalid_name(name: Seq<char>) -> ErrorView {
        ErrorView { kind: ErrorKind::InvalidName, code: 0, detail: name }
    }

    /// The error for a value that cannot be represented.
    pub open spec fn invalid_input(what: Seq<char>) -> ErrorView {
        ErrorView { kind: ErrorKind::InvalidInput, code: 0, detail: what }
    }

    /// The error for an operation that a set or thread does not have.
    pub open spec fn unsupported() -> ErrorView {
        ErrorView { kind: ErrorKind::UnsupportedSelector, code: 0, detail: Seq::empty() }
    }

    /// The error for the kernel call `call` refused with OS error `errno`.
    pub open spec fn syscall(call: Seq<char>, errno: i32) -> ErrorView {
        ErrorView { kind: ErrorKind::SyscallError, code: errno, detail: call }
    }
}

impl CapsError {
    /// The error for a string that names no capability.
    pub fn invalid_name(name: &str) -> (e: CapsError)
        ensures
            e@ == ErrorView::invalid_name(name@),
    {
        CapsError { kind: ErrorKind::InvalidName, code: 0, detail: String::from_str(name) }
    }

    /// The error for a value that cannot be represented.
    pub fn invalid_input(what: &str) -> (e: CapsError)
        ensures
            e@ == ErrorView::invalid_input(what@),
    {
        CapsError { kind: ErrorKind::InvalidInput, code: 0, detail: String::from_str(what) }
    }

    /// The error for an operation that a set or thread does not have.
    pub fn unsupported() -> (e: CapsError)
        ensures
            e@ == ErrorView::unsupported(),
    {
        CapsError { kind: ErrorKind::UnsupportedSelector, code: 0, detail: String::new() }
    }

    /// The error for the kernel call `call` refused with OS error `errno`.
    pub fn syscall(call: &str, errno: i32) -> (e: CapsError)
        ensures
            e@ == ErrorView::syscall(call@, errno),
    {
        CapsError { kind: ErrorKind::SyscallError, code: errno, detail: String::from_str(call) }
    }

    /// What went wrong.
    pub fn kind(&self) -> (k: ErrorKind)
        ensures
            k == self.kind,
    {
        self.kind
    }

    /// The OS error code of a refused kernel call.
    pub fn code(&self) -> (c: Option<i32>)
        ensures
            c == (if self.kind == ErrorKind::SyscallError { Some(self.code) } else { None }),
    {
        match self.kind {
            ErrorKind::SyscallError => Some(self.code),
            _ => None,
        }
    }
}

/// The decimal digit for `d`.
pub open spec fn digit(d: int) -> char {
    if d == 0 {
        '0'
    } else if d == 1 {
        '1'
    } else if d == 2 {
        '2'
    } else if d == 3 {
        '3'
    } else if d == 4 {
        '4'
    } else if d == 5 {
        '5'
    } else if d == 6 {
        '6'
    } else if d == 7 {
        '7'
    } else if d == 8 {
        '8'
    } else {
        '9'
    }
}

/// `n` in decimal digits, without leading zeros.
pub open spec fn decimal_nat(n: nat) -> Seq<char>
    decreases n,
{
    if n < 10 {
        seq![digit(n as int)]
    } else {
        decimal_nat(n / 10).push(digit((n % 10) as int))
    }
}

/// `n` in decimal digits, with `-` in front when it is negative.
pub open spec fn decimal(n: int) -> Seq<char> {
    if n < 0 {
        seq!['-'] + decimal_nat((-n) as nat)
    } else {
        decimal_nat(n as nat)
    }
}

/// What an error says of itself, after `caps error: `.
pub open spec fn message(e: ErrorView) -> Seq<char> {
    match e.kind {
        ErrorKind::InvalidName => "invalid capability: "@ + e.detail,
        ErrorKind::InvalidInput => "invalid input: "@ + e.detail,
        ErrorKind::UnsupportedSelector => "operation not supported"@,
        ErrorKind::SyscallError => e.detail + " failure: os error "@ + decimal(e.code as int),
    }
}

/// The one-character string for the digit `d`.
fn digit_str(d: u32) -> (s: &'static str)
    requires
        d < 10,
    ensures
        s@ == seq![digit(d as int)],
{
    proof {
        reveal_strlit("0");
        reveal_strlit("1");
        reveal_strlit("2");
        reveal_strlit("3");
        reveal_strlit("4");
        reveal_strlit("5");
        reveal_strlit("6");
        reveal_strlit("7");
        reveal_strlit("8");
        reveal_strlit("9");
    }
    let s = if d == 0 {
        "0"
    } else if d == 1 {
        "1"
    } else if d == 2 {
        "2"
    } else if d == 3 {
        "3"
    } else if d == 4 {
        "4"
    } else if d == 5 {
        "5"
    } else if d == 6 {
        "6"
    } else if d == 7 {
        "7"
    } else if d == 8 {
        "8"
    } else {
        "9"
    };
    assert(s@ =~= seq![digit(d as int)]);
    s
}

/// Append `n` in decimal digits to `text`.
fn push_decimal(text: &mut String, n: u32)
    ensures
        final(text)@ == old(text)@ + decimal_nat(n as nat),
    decreases n,
{
    if n >= 10 {
        push_decimal(text, n / 10);
    }
    text.append(digit_str(n % 10));
    assert(text@ =~= old(text)@ + decimal_nat(n as nat));
}

impl CapsError {
    /// The error in words: `caps error: ` and what went wrong.
    pub fn to_string(&self) -> (text: String)
        ensures
            text@ == "caps error: "@ + message(self@),
    {
        let mut text = String::from_str("caps error: ");
        match self.kind {
            ErrorKind::InvalidName => {
                text.append("invalid capability: ");
                text.append(self.detail.as_str());
            },
            ErrorKind::InvalidInput => {
                text.append("invalid input: ");
                text.append(self.detail.as_str());
            },
            ErrorKind::UnsupportedSelector => {
                text.append("operation not supported");
            },
            ErrorKind::SyscallError => {
                text.append(self.detail.as_str());
                text.append(" failure: os error ");
                if self.code < 0 {
                    text.append("-");
                    proof {
                        reveal_strlit("-");
                        assert("-"@ =~= seq!['-']);
                    }
                    // The magnitude of the least `i32` is no `i32`.
                    let magnitude: u32 = if self.code == i32::MIN {
                        0x8000_0000
                    } else {
                        (-self.code) as u32
                    };
                    push_decimal(&mut text, magnitude);
                } else {
                    push_decimal(&mut text, self.code as u32);
                }
            },
        }
        assert(text@ =~= "caps error: "@ + message(self@));
        text
    }
}

} // verus!
