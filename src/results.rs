use vstd::prelude::*;
use vstd::string::*;

use crate::decimal::{decimal, decimal_bytes, lemma_decimal_digits};

verus! {

/// The outcome of an operation that acts on the link: whether it succeeded,
/// and a message for the user.
#[derive(Debug)]
pub struct SerialResult {
    pub success: bool,
    pub message: String,
}

/// A serial port found on the machine.
#[derive(Debug)]
pub struct PortInfo {
    pub name: String,
    pub description: String,
}

/// The complete lines taken from the link by one read.
#[derive(Debug)]
pub struct ReadResult {
    pub lines: Vec<String>,
}

/// The kind of a serial port, as far as its description depends on it.
pub enum PortKind {
    /// A USB port, with the product string that the device reports, if any.
    Usb(Option<String>),
    /// Any other port.
    Other,
}

impl PortInfo {
    /// The description of a port: the USB product string of a USB port,
    /// otherwise empty.
    pub open spec fn description_of(kind: PortKind) -> Seq<char> {
        match kind {
            PortKind::Usb(Some(product)) => product@,
            _ => Seq::empty(),
        }
    }

    /// Describes the port `name` of kind `kind`.
    pub fn new(name: String, kind: PortKind) -> (r: PortInfo)
        ensures
            r.name@ == name@,
            r.description@ == Self::description_of(kind),
    {
        let description = match kind {
            PortKind::Usb(Some(product)) => product,
            _ => String::new(),
        };
        PortInfo { name, description }
    }
}

/// `b` as characters, one per byte.
pub open spec fn ascii_chars(b: Seq<u8>) -> Seq<char> {
    b.map_values(|x: u8| x as char)
}

/// The text of one decimal digit.
fn digit_text(d: u8) -> (r: &'static str)
    requires
        48 <= d <= 57,
    ensures
        r@ == seq![d as char],
{
    proof {
        reveal_strlit("0");
        reveal_strlit("1");
        reveal_strlit("2");
        reveal_strlit("3");
        reveal_strlit("4");
        reveal_strlit("5");
        reveal_strlit("6");
        reveal_strlit("7");
        reveal_strlit("8");
        reveal_strlit("9");
    }
    match d {
        48 => "0",
        49 => "1",
        50 => "2",
        51 => "3",
        52 => "4",
        53 => "5",
        54 => "6",
        55 => "7",
        56 => "8",
        _ => "9",
    }
}

/// `n` written in decimal.
pub fn decimal_text(n: u32) -> (r: String)
    ensures
        r@ == ascii_chars(decimal(n as nat)),
{
    let digits = decimal_bytes(n);
    proof {
        lemma_decimal_digits(n as nat);
    }
    let mut r = String::new();
    let mut i: usize = 0;
    while i < digits.len()
        invariant
            i <= digits@.len(),
            digits@ == decimal(n as nat),
            r@ == ascii_chars(digits@.take(i as int)),
            forall|k: int| 0 <= k < decimal(n as nat).len() ==> 48 <= #[trigger] decimal(n as nat)[k] <= 57,
        decreases digits.len() - i,
    {
        assert(48 <= decimal(n as nat)[i as int] <= 57);
        r.append(digit_text(digits[i]));
        i = i + 1;
        assert(r@ =~= ascii_chars(digits@.take(i as int)));
    }
    assert(digits@.take(digits@.len() as int) =~= digits@);
    r
}

} // verus!
