//! Amounts of money, counted exactly.
//!
//! Prices are given in whole micro-dollars for a million tokens, so the cost of
//! a token is a whole number of pico-dollars and no sum is ever rounded.

use vstd::prelude::*;
use vstd::string::StringExecFns;

use crate::text;

verus! {

/// An amount in pico-dollars (10^-12 USD).
#[derive(Debug, Clone, Copy, PartialEq, Eq, Structural)]
pub struct Usd {
    pub pico: i128,
}

/// `n`, or the end of the range of amounts that it lies beyond.
pub open spec fn clamped(n: int) -> int {
    if n > i128::MAX {
        i128::MAX as int
    } else if n < i128::MIN {
        i128::MIN as int
    } else {
        n
    }
}

/// The magnitude of `n` in ten-thousandths of a dollar, rounded half up.
pub open spec fn ten_thousandths(n: int) -> nat {
    let m = if n < 0 {
        -n
    } else {
        n
    };
    ((m + 50_000_000) / 100_000_000) as nat
}

/// `n` pico-dollars as dollars with four decimal places.
pub open spec fn dollars_text(n: int) -> Seq<char> {
    let q = ten_thousandths(n);
    (if n < 0 {
        "-"@
    } else {
        ""@
    }) + text::decimal(q / 10_000) + "."@ + text::pad_left(text::decimal(q % 10_000), '0', 4)
}

/// The sum of two amounts, which stops at the ends of the range.
pub open spec fn usd_sum(a: Usd, b: Usd) -> Usd {
    Usd { pico: clamped(a.pico + b.pico) as i128 }
}

/// Amounts add up exactly while the sum fits, in either order, and no money adds
/// nothing.
pub proof fn amounts_add_up(a: Usd, b: Usd)
    ensures
        i128::MIN <= a.pico + b.pico <= i128::MAX ==> usd_sum(a, b).pico == a.pico + b.pico,
        a.pico + b.pico > i128::MAX ==> usd_sum(a, b).pico == i128::MAX,
        a.pico + b.pico < i128::MIN ==> usd_sum(a, b).pico == i128::MIN,
        usd_sum(a, b) == usd_sum(b, a),
        b.pico == 0 ==> usd_sum(a, b) == a,
{
}

/// The four decimal places are the nearest ones: what is shown lies within half
/// of the last place of the amount, and an amount half-way is shown as the larger
/// magnitude.
pub proof fn shown_to_the_nearest_place(n: int)
    requires
        n >= 0,
    ensures
        ten_thousandths(n) * 100_000_000 <= n + 50_000_000,
        n - 50_000_000 < ten_thousandths(n) * 100_000_000,
        ten_thousandths(-n) == ten_thousandths(n),
{
}

/// An amount below zero is shown as its magnitude behind a minus; no other amount has
/// one.
pub proof fn only_debts_are_signed(n: int)
    ensures
        n < 0 ==> dollars_text(n) == "-"@ + dollars_text(-n),
        n >= 0 ==> dollars_text(n)[0] != '-',
{
    let q = ten_thousandths(n);
    reveal_strlit("");
    crate::plan::id::decimal_reads_back(q / 10_000, 0);
    if n < 0 {
        assert(dollars_text(n) =~= "-"@ + dollars_text(-n));
    } else {
        assert(dollars_text(n)[0] == text::decimal(q / 10_000)[0]);
    }
}

impl Usd {
    /// No money.
    pub fn zero() -> (r: Self)
        ensures
            r.pico == 0,
    {
        Usd { pico: 0 }
    }

    /// `n` micro-dollars.
    pub fn from_micros(n: i64) -> (r: Self)
        ensures
            r.pico == n * 1_000_000,
    {
        Usd { pico: (n as i128) * 1_000_000 }
    }

    /// The sum, which stops at the ends of the range.
    pub fn plus(self, other: Usd) -> (r: Self)
        ensures
            r == usd_sum(self, other),
    {
        if other.pico > 0 && self.pico > i128::MAX - other.pico {
            Usd { pico: i128::MAX }
        } else if other.pico < 0 && self.pico < i128::MIN - other.pico {
            Usd { pico: i128::MIN }
        } else {
            Usd { pico: self.pico + other.pico }
        }
    }

    /// The amount as dollars with four decimal places.
    pub fn to_dollars(&self) -> (r: String)
        ensures
            r@ == dollars_text(self.pico as int),
    {
        proof {
            reveal_strlit("");
        }
        let m: u128 = if self.pico < 0 {
            ((-(self.pico + 1)) as u128) + 1
        } else {
            self.pico as u128
        };
        let q: u128 = (m + 50_000_000) / 100_000_000;
        let mut out = text::owned(if self.pico < 0 {
            "-"
        } else {
            ""
        });
        out.append(text::decimal_u128(q / 10_000).as_str());
        out.append(".");
        out.append(text::padded(text::decimal_u128(q % 10_000).as_str(), '0', 4).as_str());
        out
    }
}

} // verus!
