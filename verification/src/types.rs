use vstd::prelude::*;

verus! {

/// The trading signal a strategy emits for a symbol.
#[derive(Clone, Copy, Debug, PartialEq, Eq, Structural)]
pub enum Signal {
    /// No signal (code 0).
    NoSignal,
    Buy,
    Sell,
    Exit,
    BuyStrong,
    SellStrong,
    Error,
}

/// The integer by which a signal crosses the C boundary.
pub open spec fn signal_code(s: Signal) -> int {
    match s {
        Signal::NoSignal => 0,
        Signal::Buy => 1,
        Signal::Sell => 2,
        Signal::Exit => 3,
        Signal::BuyStrong => 4,
        Signal::SellStrong => 5,
        Signal::Error => -1,
    }
}

/// The signals a strategy ever holds or answers: none of the strategies
/// emits the strong variants or `Error`.
pub open spec fn is_plain(s: Signal) -> bool {
    s is NoSignal || s is Buy || s is Sell || s is Exit
}

impl Signal {
    /// The integer code of this signal at the C boundary.
    pub fn code(self) -> (c: i32)
        ensures
            c == signal_code(self),
    {
        match self {
            Signal::NoSignal => 0,
            Signal::Buy => 1,
            Signal::Sell => 2,
            Signal::Exit => 3,
            Signal::BuyStrong => 4,
            Signal::SellStrong => 5,
            Signal::Error => -1,
        }
    }
}

/// Distinct signals cross the C boundary as distinct codes.
pub proof fn lemma_codes_distinct(a: Signal, b: Signal)
    ensures
        signal_code(a) == signal_code(b) ==> a == b,
{
}

} // verus!
