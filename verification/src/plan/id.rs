//! Phase identifiers and their order.

use std::cmp::Ordering;

use vstd::prelude::*;

use crate::text;

verus! {

/// A phase identifier such as `"02"` or `"10b"`.
///
/// The raw string is preserved (leading zeros, casing, suffix). Equality is by
/// raw form so `"01"` and `"1"` are distinct identifiers, but ordering is
/// semantic: leading digits compare numerically (`"02" < "10"`) and any
/// alphanumeric suffix compares lexicographically *after* (`"10" < "10b"`).
/// The raw string is used as a final tiebreaker so the total ordering stays
/// consistent with equality.
#[derive(Debug, Hash)]
pub struct PhaseId {
    raw: String,
}

/// Errors produced by [`PhaseId::parse`].
#[derive(Debug, PartialEq, Eq, Clone)]
pub enum PhaseIdParseError {
    /// Input string was empty.
    Empty,
    /// Input did not start with at least one ASCII digit.
    MissingNumericPrefix(String),
    /// Suffix contained characters outside `[A-Za-z0-9_-]`.
    InvalidCharacters(String),
    /// Leading digit run did not fit in a `u64`.
    NumericOverflow(String),
}

/// What a [`PhaseIdParseError`] says, as a mathematical value.
pub enum PhaseIdFault {
    Empty,
    MissingNumericPrefix(Seq<char>),
    InvalidCharacters(Seq<char>),
    NumericOverflow(Seq<char>),
}

impl View for PhaseId {
    type V = Seq<char>;

    closed spec fn view(&self) -> Seq<char> {
        self.raw@
    }
}

impl View for PhaseIdParseError {
    type V = PhaseIdFault;

    open spec fn view(&self) -> PhaseIdFault {
        match *self {
            PhaseIdParseError::Empty => PhaseIdFault::Empty,
            PhaseIdParseError::MissingNumericPrefix(s) => PhaseIdFault::MissingNumericPrefix(s@),
            PhaseIdParseError::InvalidCharacters(s) => PhaseIdFault::InvalidCharacters(s@),
            PhaseIdParseError::NumericOverflow(s) => PhaseIdFault::NumericOverflow(s@),
        }
    }
}

// ---------------------------------------------------------------------------
// What an identifier is
// ---------------------------------------------------------------------------

/// An ASCII digit.
pub open spec fn is_digit(c: char) -> bool {
    '0' <= c <= '9'
}

/// A character that the suffix of an identifier may hold.
pub open spec fn is_suffix_char(c: char) -> bool {
    is_digit(c) || 'A' <= c <= 'Z' || 'a' <= c <= 'z' || c == '_' || c == '-'
}

/// How many leading characters of `s` from `from` on are digits, as the index
/// of the first that is not.
pub open spec fn digits_end(s: Seq<char>, from: int) -> int
    decreases s.len() - from,
{
    if from < s.len() && is_digit(s[from]) {
        digits_end(s, from + 1)
    } else {
        from
    }
}

/// The number that a run of decimal digits denotes.
pub open spec fn number(s: Seq<char>) -> nat
    decreases s.len(),
{
    if s.len() == 0 {
        0
    } else {
        (number(s.drop_last()) * 10 + (s.last() as int - 48)) as nat
    }
}

/// The leading digits of `s`.
pub open spec fn digits(s: Seq<char>) -> Seq<char> {
    s.take(digits_end(s, 0))
}

/// What follows the leading digits of `s`.
pub open spec fn suffix(s: Seq<char>) -> Seq<char> {
    s.skip(digits_end(s, 0))
}

/// A number that is written in decimal, with or without zeros in front, reads
/// back as that number, and is made of digits alone.
pub proof fn decimal_reads_back(n: nat, width: nat)
    ensures
        number(text::decimal(n)) == n,
        text::decimal(n).len() > 0,
        forall|i: int| 0 <= i < text::decimal(n).len() ==> is_digit(#[trigger] text::decimal(n)[i]),
        n > 0 ==> text::decimal(n)[0] != '0',
        ({
            let s = text::pad_left(text::decimal(n), '0', width);
            &&& number(s) == n
            &&& s.len() >= width
            &&& forall|i: int| 0 <= i < s.len() ==> is_digit(#[trigger] s[i])
        }),
    decreases n,
{
    let d = text::decimal(n);
    if n >= 10 {
        decimal_reads_back(n / 10, 0);
        assert(d.drop_last() =~= text::decimal(n / 10));
        assert forall|i: int| 0 <= i < d.len() implies is_digit(#[trigger] d[i]) by {
            if i < d.len() - 1 {
                assert(d[i] == text::decimal(n / 10)[i]);
            }
        }
        assert(d[0] == text::decimal(n / 10)[0]);
    } else {
        assert(d.drop_last() =~= Seq::<char>::empty());
        assert(number(d.drop_last()) == 0);
    }
    if d.len() < width {
        let zeros = Seq::new((width - d.len()) as nat, |i: int| '0');
        leading_zeros_count_nothing(zeros, d);
    }
}

proof fn leading_zeros_count_nothing(zeros: Seq<char>, s: Seq<char>)
    requires
        forall|i: int| 0 <= i < zeros.len() ==> #[trigger] zeros[i] == '0',
    ensures
        number(zeros + s) == number(s),
    decreases zeros.len() + s.len(),
{
    if s.len() > 0 {
        leading_zeros_count_nothing(zeros, s.drop_last());
        assert((zeros + s).drop_last() =~= zeros + s.drop_last());
    } else if zeros.len() > 0 {
        let less = zeros.drop_last();
        assert forall|i: int| 0 <= i < less.len() implies #[trigger] less[i] == '0' by {
            assert(zeros[i] == '0');
        }
        leading_zeros_count_nothing(less, s);
        assert((zeros + s).drop_last() =~= less + s);
        assert((zeros + s).last() == zeros[zeros.len() - 1]);
    } else {
        assert(zeros + s =~= s);
    }
}

/// What is wrong with `s` as an identifier, if anything. The checks are made
/// in this order.
pub open spec fn id_fault(s: Seq<char>) -> Option<PhaseIdFault> {
    if s.len() == 0 {
        Some(PhaseIdFault::Empty)
    } else if digits(s).len() == 0 {
        Some(PhaseIdFault::MissingNumericPrefix(s))
    } else if number(digits(s)) > u64::MAX {
        Some(PhaseIdFault::NumericOverflow(s))
    } else if exists|i: int| 0 <= i < suffix(s).len() && !is_suffix_char(#[trigger] suffix(s)[i]) {
        Some(PhaseIdFault::InvalidCharacters(s))
    } else {
        None
    }
}

/// `s` is a phase identifier.
pub open spec fn is_phase_id(s: Seq<char>) -> bool {
    id_fault(s) is None
}

/// The order on identifiers: by number, then by suffix, then by raw text.
pub open spec fn id_before(a: Seq<char>, b: Seq<char>) -> bool {
    let (m, n) = (number(digits(a)), number(digits(b)));
    ||| m < n
    ||| m == n && text::precedes(suffix(a), suffix(b))
    ||| m == n && suffix(a) == suffix(b) && text::precedes(a, b)
}

/// What a phase id is: digits, whose number fits, and behind them letters, digits,
/// `_` and `-`. Nothing else is one, and what is wrong is told: that there is
/// nothing, that it does not start with a digit, that the number is too large, or
/// that it holds another character.
pub proof fn ids_are_a_number_and_a_suffix(number_part: Seq<char>, rest: Seq<char>)
    requires
        forall|i: int| 0 <= i < number_part.len() ==> '0' <= #[trigger] number_part[i] <= '9',
        rest.len() > 0 ==> !('0' <= rest[0] <= '9'),
    ensures
        ({
            let s = number_part + rest;
            let plain = forall|i: int|
                0 <= i < rest.len() ==> '0' <= #[trigger] rest[i] <= '9' || 'A' <= rest[i] <= 'Z'
                    || 'a' <= rest[i] <= 'z' || rest[i] == '_' || rest[i] == '-';
            &&& digits(s) == number_part && suffix(s) == rest
            &&& is_phase_id(s) <==> number_part.len() > 0 && number(number_part) <= u64::MAX
                && plain
            &&& s.len() == 0 ==> id_fault(s) == Some(PhaseIdFault::Empty)
            &&& s.len() > 0 && number_part.len() == 0 ==> id_fault(s) == Some(
                PhaseIdFault::MissingNumericPrefix(s),
            )
            &&& number_part.len() > 0 && number(number_part) > u64::MAX ==> id_fault(s) == Some(
                PhaseIdFault::NumericOverflow(s),
            )
            &&& number_part.len() > 0 && number(number_part) <= u64::MAX && !plain ==> id_fault(s)
                == Some(PhaseIdFault::InvalidCharacters(s))
        }),
{
    let s = number_part + rest;
    digits_end_is(s, 0, number_part.len() as int);
    assert(s.take(number_part.len() as int) =~= number_part);
    assert(s.skip(number_part.len() as int) =~= rest);
}

proof fn digits_end_is(s: Seq<char>, from: int, k: int)
    requires
        0 <= from <= k <= s.len(),
        forall|i: int| from <= i < k ==> is_digit(#[trigger] s[i]),
        k < s.len() ==> !is_digit(s[k]),
    ensures
        digits_end(s, from) == k,
    decreases k - from,
{
    if from < k {
        assert(is_digit(s[from]));
        digits_end_is(s, from + 1, k);
    }
}

/// The order of ids: the smaller number comes first, however it is written; of one
/// number, the suffix that comes first in the dictionary, so none comes before
/// any; and of one number and one suffix, the raw text that does.
pub proof fn ids_order_by_number_then_suffix(a: Seq<char>, b: Seq<char>)
    ensures
        ({
            let (m, n) = (number(digits(a)), number(digits(b)));
            &&& m < n ==> id_before(a, b) && !id_before(b, a)
            &&& m == n && text::precedes(suffix(a), suffix(b)) ==> id_before(a, b) && !id_before(
                b,
                a,
            )
            &&& m == n && suffix(a).len() == 0 && suffix(b).len() > 0 ==> id_before(a, b)
            &&& m == n && suffix(a) == suffix(b) ==> (id_before(a, b) <==> text::precedes(a, b))
        }),
{
    text::precedes_total(suffix(a), suffix(b));
    text::precedes_irreflexive(suffix(a));
    text::precedes_total(a, b);
}

pub proof fn digits_end_bounds(s: Seq<char>, from: int)
    requires
        0 <= from <= s.len(),
    ensures
        from <= digits_end(s, from) <= s.len(),
        forall|j: int| from <= j < digits_end(s, from) ==> is_digit(s[j]),
        digits_end(s, from) < s.len() ==> !is_digit(s[digits_end(s, from)]),
    decreases s.len() - from,
{
    if from < s.len() && is_digit(s[from]) {
        digits_end_bounds(s, from + 1);
    }
}

// ---------------------------------------------------------------------------
// Laws of the order
// ---------------------------------------------------------------------------

/// No identifier comes before itself.
pub proof fn id_order_irreflexive(a: Seq<char>)
    ensures
        !id_before(a, a),
{
    text::precedes_irreflexive(a);
    text::precedes_irreflexive(suffix(a));
}

/// The order on identifiers is transitive.
pub proof fn id_order_transitive(a: Seq<char>, b: Seq<char>, c: Seq<char>)
    requires
        id_before(a, b),
        id_before(b, c),
    ensures
        id_before(a, c),
{
    let (l, m, n) = (number(digits(a)), number(digits(b)), number(digits(c)));
    if l == m && m == n {
        if text::precedes(suffix(a), suffix(b)) && text::precedes(suffix(b), suffix(c)) {
            text::precedes_transitive(suffix(a), suffix(b), suffix(c));
        }
        if suffix(a) == suffix(b) && suffix(b) == suffix(c) && text::precedes(a, b)
            && text::precedes(b, c) {
            text::precedes_transitive(a, b, c);
        }
    }
}

/// Of two different identifiers exactly one comes first, so the order agrees
/// with equality.
pub proof fn id_order_total(a: Seq<char>, b: Seq<char>)
    ensures
        a != b ==> (id_before(a, b) <==> !id_before(b, a)),
        id_before(a, b) ==> !id_before(b, a) && a != b,
{
    text::precedes_total(a, b);
    text::precedes_total(suffix(a), suffix(b));
    text::precedes_irreflexive(a);
    text::precedes_irreflexive(suffix(a));
    text::precedes_irreflexive(suffix(b));
}

// ---------------------------------------------------------------------------
// Operations
// ---------------------------------------------------------------------------

impl PhaseIdParseError {
    /// The error as a sentence.
    pub fn message(&self) -> (r: String)
        ensures
            r@ == id_fault_message(self@),
    {
        match self {
            PhaseIdParseError::Empty => text::owned("phase id is empty"),
            PhaseIdParseError::MissingNumericPrefix(raw) => {
                let mut out = text::owned("phase id ");
                out.append(text::quoted(raw.as_str()).as_str());
                out.append(" must begin with at least one digit");
                out
            },
            PhaseIdParseError::InvalidCharacters(raw) => {
                let mut out = text::owned("phase id ");
                out.append(text::quoted(raw.as_str()).as_str());
                out.append(
                    " contains invalid characters; only [A-Za-z0-9_-] allowed in the suffix",
                );
                out
            },
            PhaseIdParseError::NumericOverflow(raw) => {
                let mut out = text::owned("phase id ");
                out.append(text::quoted(raw.as_str()).as_str());
                out.append(" numeric prefix overflows u64");
                out
            },
        }
    }
}

/// The sentence that reports a fault.
pub open spec fn id_fault_message(f: PhaseIdFault) -> Seq<char> {
    match f {
        PhaseIdFault::Empty => "phase id is empty"@,
        PhaseIdFault::MissingNumericPrefix(raw) => "phase id "@ + text::debug_text(raw)
            + " must begin with at least one digit"@,
        PhaseIdFault::InvalidCharacters(raw) => "phase id "@ + text::debug_text(raw)
            + " contains invalid characters; only [A-Za-z0-9_-] allowed in the suffix"@,
        PhaseIdFault::NumericOverflow(raw) => "phase id "@ + text::debug_text(raw)
            + " numeric prefix overflows u64"@,
    }
}

impl PhaseId {
    #[verifier::type_invariant]
    spec fn valid(self) -> bool {
        is_phase_id(self.raw@)
    }

    /// Parse a string into a `PhaseId`. Must begin with at least one ASCII
    /// digit; any trailing suffix may contain `[A-Za-z0-9_-]`.
    pub fn parse(raw: &str) -> (r: Result<Self, PhaseIdParseError>)
        ensures
            match r {
                Ok(id) => is_phase_id(raw@) && id@ == raw@,
                Err(e) => id_fault(raw@) == Some(e@),
            },
    {
        match Self::components(raw) {
            Ok(_) => Ok(PhaseId { raw: text::owned(raw) }),
            Err(e) => Err(e),
        }
    }

    /// Borrow the raw string form.
    pub fn as_str(&self) -> (r: &str)
        ensures
            r@ == self@,
            is_phase_id(self@),
    {
        proof {
            use_type_invariant(self);
        }
        self.raw.as_str()
    }

    /// The number and the suffix of an identifier.
    pub fn components(raw: &str) -> (r: Result<(u64, String), PhaseIdParseError>)
        ensures
            match r {
                Ok((n, rest)) => {
                    &&& is_phase_id(raw@)
                    &&& n == number(digits(raw@))
                    &&& rest@ == suffix(raw@)
                },
                Err(e) => id_fault(raw@) == Some(e@),
            },
    {
        let v = text::chars_of(raw);
        let len: usize = v.len();
        if len == 0 {
            return Err(PhaseIdParseError::Empty);
        }
        let mut value: u64 = 0;
        let mut fits: bool = true;
        let mut i: usize = 0;
        while i < len && '0' <= v[i] && v[i] <= '9'
            invariant
                v@ == raw@,
                len == v@.len(),
                i <= len,
                digits_end(raw@, 0) == digits_end(raw@, i as int),
                forall|j: int| 0 <= j < i ==> is_digit(raw@[j]),
                fits ==> value == number(raw@.take(i as int)),
                !fits ==> number(raw@.take(i as int)) > u64::MAX,
            decreases len - i,
        {
            let d: u64 = (text::rank(v[i]) - 48) as u64;
            proof {
                assert(raw@.take(i + 1).drop_last() =~= raw@.take(i as int));
            }
            if fits {
                if value > 1844674407370955161 || (value == 1844674407370955161 && d > 5) {
                    fits = false;
                } else {
                    value = value * 10 + d;
                }
            }
            i = i + 1;
        }
        proof {
            digits_end_bounds(raw@, 0);
        }
        if i == 0 {
            return Err(PhaseIdParseError::MissingNumericPrefix(text::owned(raw)));
        }
        if !fits {
            return Err(PhaseIdParseError::NumericOverflow(text::owned(raw)));
        }
        for j in i..len
            invariant
                v@ == raw@,
                len == v@.len(),
                i <= j <= len,
                i == digits_end(raw@, 0),
                i > 0,
                number(digits(raw@)) <= u64::MAX,
                digits(raw@).len() > 0,
                forall|k: int| i <= k < j ==> is_suffix_char(raw@[k]),
        {
            let c = v[j];
            if !(('0' <= c && c <= '9') || ('A' <= c && c <= 'Z') || ('a' <= c && c <= 'z') || c
                == '_' || c == '-') {
                assert(suffix(raw@)[j - i] == c);
                return Err(PhaseIdParseError::InvalidCharacters(text::owned(raw)));
            }
        }
        let rest = text::slice(v.as_slice(), i, len);
        assert(rest@ =~= suffix(raw@));
        Ok((value, rest))
    }

    /// How `self` and `other` are ordered.
    pub fn cmp(&self, other: &Self) -> (r: Ordering)
        ensures
            match r {
                Ordering::Less => id_before(self@, other@),
                Ordering::Equal => self@ == other@,
                Ordering::Greater => id_before(other@, self@),
            },
    {
        proof {
            use_type_invariant(self);
            use_type_invariant(other);
            text::precedes_total(self@, other@);
            text::precedes_total(suffix(self@), suffix(other@));
        }
        let (m, a) = match Self::components(self.raw.as_str()) {
            Ok(parts) => parts,
            Err(_) => (0, String::new()),
        };
        let (n, b) = match Self::components(other.raw.as_str()) {
            Ok(parts) => parts,
            Err(_) => (0, String::new()),
        };
        if m < n {
            Ordering::Less
        } else if n < m {
            Ordering::Greater
        } else if text::before(a.as_str(), b.as_str()) {
            Ordering::Less
        } else if text::before(b.as_str(), a.as_str()) {
            Ordering::Greater
        } else if text::before(self.raw.as_str(), other.raw.as_str()) {
            Ordering::Less
        } else if text::before(other.raw.as_str(), self.raw.as_str()) {
            Ordering::Greater
        } else {
            Ordering::Equal
        }
    }

    /// Whether `self` comes strictly before `other`.
    pub fn before(&self, other: &Self) -> (r: bool)
        ensures
            r == id_before(self@, other@),
    {
        proof {
            id_order_total(self@, other@);
            id_order_irreflexive(self@);
        }
        match self.cmp(other) {
            Ordering::Less => true,
            _ => false,
        }
    }

    /// Whether `self` and `other` are the same identifier.
    pub fn same(&self, other: &Self) -> (r: bool)
        ensures
            r == (self@ == other@),
    {
        text::same(self.raw.as_str(), other.raw.as_str())
    }
}

impl Clone for PhaseId {
    fn clone(&self) -> (r: Self)
        ensures
            r@ == self@,
    {
        proof {
            use_type_invariant(self);
        }
        PhaseId { raw: self.raw.clone() }
    }
}

impl PartialEq for PhaseId {
    fn eq(&self, other: &Self) -> (r: bool) {
        self.same(other)
    }
}

impl vstd::std_specs::cmp::PartialEqSpecImpl for PhaseId {
    open spec fn obeys_eq_spec() -> bool {
        true
    }

    open spec fn eq_spec(&self, other: &Self) -> bool {
        self@ == other@
    }
}

impl Eq for PhaseId {

}

impl PartialOrd for PhaseId {
    fn partial_cmp(&self, other: &Self) -> (r: Option<Ordering>) {
        proof {
            id_order_total(self@, other@);
            id_order_irreflexive(self@);
        }
        Some(self.cmp(other))
    }
}

impl vstd::std_specs::cmp::PartialOrdSpecImpl for PhaseId {
    open spec fn obeys_partial_cmp_spec() -> bool {
        true
    }

    open spec fn partial_cmp_spec(&self, other: &Self) -> Option<Ordering> {
        if id_before(self@, other@) {
            Some(Ordering::Less)
        } else if self@ == other@ {
            Some(Ordering::Equal)
        } else {
            Some(Ordering::Greater)
        }
    }
}

} // verus!
