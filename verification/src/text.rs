//! Text primitives: the small string vocabulary that the rest of the library
//! is specified in. Every text is modelled as its sequence of characters.

use vstd::prelude::*;
use vstd::string::StringExecFns;

verus! {

/// `String::push` of the standard library: appends the given character to the
/// end of the string.
pub assume_specification[ String::push ](s: &mut String, c: char)
    ensures
        final(s)@ == old(s)@.push(c),
;

// ---------------------------------------------------------------------------
// Conversions
// ---------------------------------------------------------------------------

/// The views of a list of texts.
pub open spec fn views(v: Seq<String>) -> Seq<Seq<char>> {
    v.map_values(|s: String| s@)
}

/// The characters of `s`, in order.
pub fn chars_of(s: &str) -> (r: Vec<char>)
    ensures
        r@ == s@,
{
    let mut v: Vec<char> = Vec::new();
    for c in it: s.chars()
        invariant
            v@ == s@.take(it.index() as int),
            it.seq() == s@,
    {
        v.push(c);
    }
    v
}

/// The characters `from..to` of `v` as an owned text.
pub fn slice(v: &[char], from: usize, to: usize) -> (r: String)
    requires
        from <= to <= v@.len(),
    ensures
        r@ == v@.subrange(from as int, to as int),
{
    let mut s = String::new();
    for i in from..to
        invariant
            from <= i <= to <= v@.len(),
            s@ == v@.subrange(from as int, i as int),
    {
        s.push(v[i]);
    }
    s
}

/// Appends the characters `from..to` of `v` to `out`.
pub fn push_slice(out: &mut String, v: &[char], from: usize, to: usize)
    requires
        from <= to <= v@.len(),
    ensures
        final(out)@ == old(out)@ + v@.subrange(from as int, to as int),
{
    let ghost start = out@;
    for i in from..to
        invariant
            from <= i <= to <= v@.len(),
            out@ == start + v@.subrange(from as int, i as int),
    {
        out.push(v[i]);
    }
}

/// An owned copy of `s`.
pub fn owned(s: &str) -> (r: String)
    ensures
        r@ == s@,
{
    s.to_owned()
}

/// Copies a list of texts.
pub fn copy_all(v: &Vec<String>) -> (r: Vec<String>)
    ensures
        r@ == v@,
{
    let mut out: Vec<String> = Vec::new();
    for i in 0..v.len()
        invariant
            out@ == v@.take(i as int),
    {
        out.push(v[i].clone());
    }
    out
}

/// What `{:?}` prints of a text: the text between double quotes, with the
/// escapes that the standard library gives its characters.
pub uninterp spec fn debug_text(s: Seq<char>) -> Seq<char>;

/// `Debug` of `str` in the standard library: the result is a function of the
/// text alone. Which characters are escaped, and how, is not stated.
#[verifier::external_body]
pub(crate) fn quoted(s: &str) -> (r: String)
    ensures
        r@ == debug_text(s@),
{
    format!("{:?}", s)
}

/// The text in an option.
pub open spec fn view_of(s: Option<String>) -> Option<Seq<char>> {
    match s {
        Some(t) => Some(t@),
        None => None,
    }
}

/// A copy of an optional text.
pub fn copy_option(s: &Option<String>) -> (r: Option<String>)
    ensures
        r == *s,
{
    match s {
        Some(t) => Some(t.clone()),
        None => None,
    }
}

// ---------------------------------------------------------------------------
// Comparison
// ---------------------------------------------------------------------------

/// Whether two texts are equal.
pub fn same(a: &str, b: &str) -> (r: bool)
    ensures
        r == (a@ == b@),
{
    let x = chars_of(a);
    let y = chars_of(b);
    if x.len() != y.len() {
        return false;
    }
    for i in 0..x.len()
        invariant
            x@ == a@,
            y@ == b@,
            x@.len() == y@.len(),
            forall|j: int| 0 <= j < i ==> x@[j] == y@[j],
    {
        if x[i] != y[i] {
            return false;
        }
    }
    assert(a@ =~= b@);
    true
}

/// The code point of `c`.
pub fn rank(c: char) -> (r: u32)
    ensures
        r == c as int,
{
    c as u32
}

/// How many bytes UTF-8 spends on `c`.
pub open spec fn utf8_width(c: char) -> nat {
    if (c as int) < 0x80 {
        1
    } else if (c as int) < 0x800 {
        2
    } else if (c as int) < 0x10000 {
        3
    } else {
        4
    }
}

/// How many bytes UTF-8 spends on `s`.
pub open spec fn utf8_len(s: Seq<char>) -> nat
    decreases s.len(),
{
    if s.len() == 0 {
        0
    } else {
        utf8_len(s.drop_last()) + utf8_width(s.last())
    }
}

/// The least number of characters, `k` at least, whose UTF-8 has `n` bytes or
/// more; all characters of `s` where it has fewer.
pub open spec fn chars_for_bytes(s: Seq<char>, n: nat, k: int) -> int
    decreases s.len() - k,
{
    if k >= s.len() || utf8_len(s.take(k)) >= n {
        k
    } else {
        chars_for_bytes(s, n, k + 1)
    }
}

/// The count is the least one from `k` on: with it there are enough bytes or it is
/// all of the text, and with fewer there are not enough.
pub proof fn no_fewer_characters_have_the_bytes(s: Seq<char>, n: nat, k: int)
    requires
        0 <= k <= s.len(),
    ensures
        k <= chars_for_bytes(s, n, k) <= s.len(),
        chars_for_bytes(s, n, k) < s.len() ==> utf8_len(s.take(chars_for_bytes(s, n, k))) >= n,
        forall|j: int| k <= j < chars_for_bytes(s, n, k) ==> utf8_len(#[trigger] s.take(j)) < n,
    decreases s.len() - k,
{
    if k < s.len() && utf8_len(s.take(k)) < n {
        no_fewer_characters_have_the_bytes(s, n, k + 1);
    }
}

/// Byte `n` of `s` in UTF-8 begins a character or is its end, if `s` has as many
/// bytes.
pub open spec fn boundary_at(s: Seq<char>, n: nat) -> bool {
    utf8_len(s) >= n ==> utf8_len(s.take(chars_for_bytes(s, n, 0))) == n
}

/// The first seven bytes of `s`, or all of it where it has fewer.
pub fn first_seven_bytes(s: &str) -> (r: String)
    requires
        boundary_at(s@, 7),
    ensures
        r@ == s@.take(chars_for_bytes(s@, 7, 0)),
{
    let v = chars_of(s);
    let mut k: usize = 0;
    let mut bytes: u32 = 0;
    assert(v@.take(0) =~= Seq::<char>::empty());
    while k < v.len() && bytes < 7
        invariant
            k <= v@.len(),
            v@ == s@,
            bytes == utf8_len(v@.take(k as int)),
            bytes < 11,
            chars_for_bytes(s@, 7, 0) == chars_for_bytes(s@, 7, k as int),
        decreases v@.len() - k,
    {
        let c: u32 = rank(v[k]);
        let width: u32 = if c < 0x80 {
            1
        } else if c < 0x800 {
            2
        } else if c < 0x10000 {
            3
        } else {
            4
        };
        assert(v@.take(k + 1).drop_last() =~= v@.take(k as int));
        bytes = bytes + width;
        k = k + 1;
    }
    let r = slice(v.as_slice(), 0, k);
    assert(r@ =~= s@.take(k as int));
    r
}

/// Strict lexicographic order on texts, character by character.
pub open spec fn precedes(a: Seq<char>, b: Seq<char>) -> bool
    decreases a.len(),
{
    if b.len() == 0 {
        false
    } else if a.len() == 0 {
        true
    } else if a[0] != b[0] {
        (a[0] as int) < (b[0] as int)
    } else {
        precedes(a.skip(1), b.skip(1))
    }
}

/// No text precedes itself.
pub proof fn precedes_irreflexive(a: Seq<char>)
    ensures
        !precedes(a, a),
    decreases a.len(),
{
    if a.len() > 0 {
        precedes_irreflexive(a.skip(1));
    }
}

/// The order is that of a dictionary: what is a proper beginning of a text comes
/// before it, and of two texts that part at some character the one with the
/// smaller character there comes first, whatever follows.
pub proof fn texts_order_by_their_first_difference(
    head: Seq<char>,
    a: char,
    x: Seq<char>,
    b: char,
    y: Seq<char>,
)
    ensures
        precedes(head, head + seq![a] + x),
        a != b ==> (precedes(head + seq![a] + x, head + seq![b] + y) <==> (a as int) < (b as int)),
    decreases head.len(),
{
    let (s, t) = (head + seq![a] + x, head + seq![b] + y);
    if head.len() > 0 {
        let less = head.skip(1);
        texts_order_by_their_first_difference(less, a, x, b, y);
        assert(s.skip(1) =~= less + seq![a] + x);
        assert(t.skip(1) =~= less + seq![b] + y);
        assert(s[0] == head[0] && t[0] == head[0]);
    } else {
        assert(s[0] == a && t[0] == b);
    }
}

/// The lexicographic order is transitive.
pub proof fn precedes_transitive(a: Seq<char>, b: Seq<char>, c: Seq<char>)
    requires
        precedes(a, b),
        precedes(b, c),
    ensures
        precedes(a, c),
    decreases a.len(),
{
    if a.len() > 0 && a[0] == b[0] && b[0] == c[0] {
        precedes_transitive(a.skip(1), b.skip(1), c.skip(1));
    }
}

/// Two different texts are always ordered, one way only.
pub proof fn precedes_total(a: Seq<char>, b: Seq<char>)
    ensures
        a != b ==> (precedes(a, b) <==> !precedes(b, a)),
        precedes(a, b) ==> !precedes(b, a),
    decreases a.len(),
{
    if a.len() == 0 && b.len() == 0 {
        assert(a =~= b);
    } else if a.len() > 0 && b.len() > 0 && a[0] == b[0] {
        precedes_total(a.skip(1), b.skip(1));
        if a.skip(1) == b.skip(1) {
            assert(a =~= seq![a[0]] + a.skip(1));
            assert(b =~= seq![b[0]] + b.skip(1));
        }
    }
}

/// Whether `a` comes strictly before `b` in lexicographic order.
pub fn before(a: &str, b: &str) -> (r: bool)
    ensures
        r == precedes(a@, b@),
{
    let x = chars_of(a);
    let y = chars_of(b);
    let mut i: usize = 0;
    assert(a@.skip(0) =~= a@ && b@.skip(0) =~= b@);
    while i < x.len() && i < y.len() && x[i] == y[i]
        invariant
            x@ == a@,
            y@ == b@,
            i <= x@.len(),
            i <= y@.len(),
            precedes(a@, b@) == precedes(a@.skip(i as int), b@.skip(i as int)),
        decreases x@.len() - i,
    {
        assert(a@.skip(i as int).skip(1) =~= a@.skip(i + 1));
        assert(b@.skip(i as int).skip(1) =~= b@.skip(i + 1));
        i = i + 1;
    }
    if i >= y.len() {
        false
    } else if i >= x.len() {
        true
    } else {
        rank(x[i]) < rank(y[i])
    }
}

// ---------------------------------------------------------------------------
// Searching
// ---------------------------------------------------------------------------

/// The least index at or after `from` that holds `c`, or the length.
pub open spec fn next_index(s: Seq<char>, c: char, from: int) -> int
    decreases s.len() - from,
{
    if from >= s.len() {
        s.len() as int
    } else if s[from] == c {
        from
    } else {
        next_index(s, c, from + 1)
    }
}

pub proof fn next_index_bounds(s: Seq<char>, c: char, from: int)
    requires
        0 <= from <= s.len(),
    ensures
        from <= next_index(s, c, from) <= s.len(),
        forall|j: int| from <= j < next_index(s, c, from) ==> s[j] != c,
        next_index(s, c, from) < s.len() ==> s[next_index(s, c, from)] == c,
    decreases s.len() - from,
{
    if from < s.len() && s[from] != c {
        next_index_bounds(s, c, from + 1);
    }
}

/// Looking in `s` from `from` on is looking in the rest of `s`.
pub proof fn next_index_skip(s: Seq<char>, c: char, from: int)
    requires
        0 <= from <= s.len(),
    ensures
        next_index(s, c, from) == from + next_index(s.skip(from), c, 0),
{
    let t = s.skip(from);
    next_index_bounds(t, c, 0);
    let k = next_index(t, c, 0);
    assert(forall|j: int| from <= j < s.len() ==> s[j] == t[j - from]);
    next_index_unique(s, c, from, from + k);
}

/// `next_index` is pinned down by its three properties.
pub proof fn next_index_unique(s: Seq<char>, c: char, from: int, k: int)
    requires
        0 <= from <= k <= s.len(),
        forall|j: int| from <= j < k ==> s[j] != c,
        k < s.len() ==> s[k] == c,
    ensures
        next_index(s, c, from) == k,
    decreases s.len() - from,
{
    if from < k {
        next_index_unique(s, c, from + 1, k);
    }
}

/// Finds the next `c` at or after `from`.
pub fn find_from(v: &[char], c: char, from: usize) -> (r: usize)
    requires
        from <= v@.len(),
    ensures
        r == next_index(v@, c, from as int),
        from <= r <= v@.len(),
        forall|j: int| from <= j < r ==> v@[j] != c,
        r < v@.len() ==> v@[r as int] == c,
{
    let mut i: usize = from;
    while i < v.len() && v[i] != c
        invariant
            from <= i <= v@.len(),
            next_index(v@, c, from as int) == next_index(v@, c, i as int),
            forall|j: int| from <= j < i ==> v@[j] != c,
        decreases v@.len() - i,
    {
        i = i + 1;
    }
    i
}

/// `part` stands in `s` at index `at`.
pub open spec fn occurs_at(s: Seq<char>, part: Seq<char>, at: int) -> bool {
    &&& 0 <= at
    &&& at + part.len() <= s.len()
    &&& s.subrange(at, at + part.len()) == part
}

/// The least index at or after `from` at which `part` stands in `s`.
pub open spec fn part_index(s: Seq<char>, part: Seq<char>, from: int) -> Option<int>
    decreases s.len() - from,
{
    if from + part.len() > s.len() {
        None
    } else if occurs_at(s, part, from) {
        Some(from)
    } else if from < s.len() {
        part_index(s, part, from + 1)
    } else {
        None
    }
}

pub proof fn part_index_bounds(s: Seq<char>, part: Seq<char>, from: int)
    requires
        0 <= from,
    ensures
        match part_index(s, part, from) {
            Some(k) => {
                &&& from <= k
                &&& occurs_at(s, part, k)
                &&& forall|j: int| from <= j < k ==> !occurs_at(s, part, j)
            },
            None => forall|j: int| from <= j ==> !occurs_at(s, part, j),
        },
    decreases s.len() - from,
{
    if from + part.len() <= s.len() && !occurs_at(s, part, from) && from < s.len() {
        part_index_bounds(s, part, from + 1);
    }
}

/// `part_index` is pinned down by its properties.
pub proof fn part_index_unique(s: Seq<char>, part: Seq<char>, from: int, k: int)
    requires
        0 <= from <= k,
        occurs_at(s, part, k),
        forall|j: int| from <= j < k ==> !occurs_at(s, part, j),
    ensures
        part_index(s, part, from) == Some(k),
{
    part_index_bounds(s, part, from);
}

/// `part` stands somewhere in `s`.
pub open spec fn contains(s: Seq<char>, part: Seq<char>) -> bool {
    exists|at: int| occurs_at(s, part, at)
}

/// A text holds what stands between two parts of it.
pub proof fn parts_are_held(a: Seq<char>, part: Seq<char>, b: Seq<char>, whole: Seq<char>)
    requires
        whole =~= a + part + b,
    ensures
        contains(whole, part),
{
    assert(whole.subrange(a.len() as int, a.len() + part.len() as int) =~= part);
    assert(occurs_at(whole, part, a.len() as int));
}

/// What a part of a text holds, the text holds.
pub proof fn held_in_a_part(
    a: Seq<char>,
    inner: Seq<char>,
    b: Seq<char>,
    whole: Seq<char>,
    part: Seq<char>,
)
    requires
        whole =~= a + inner + b,
        contains(inner, part),
    ensures
        contains(whole, part),
{
    let i = choose|i: int| occurs_at(inner, part, i);
    assert(whole.subrange(a.len() + i, a.len() + i + part.len()) =~= inner.subrange(
        i,
        i + part.len(),
    ));
    assert(occurs_at(whole, part, a.len() + i));
}

/// A text that holds something holds the start of it.
pub proof fn held_from_its_start(whole: Seq<char>, start: Seq<char>, end: Seq<char>)
    requires
        contains(whole, start + end),
    ensures
        contains(whole, start),
{
    let held = start + end;
    let i = choose|i: int| occurs_at(whole, held, i);
    assert(whole.subrange(i, i + start.len()) =~= whole.subrange(i, i + held.len()).take(
        start.len() as int,
    ));
    assert(held.take(start.len() as int) =~= start);
    assert(occurs_at(whole, start, i));
}

/// Whether `part` stands in `v` at index `at`.
pub fn occurs(v: &[char], part: &[char], at: usize) -> (r: bool)
    ensures
        r == occurs_at(v@, part@, at as int),
{
    let n: usize = v.len();
    if at > n || part.len() > n - at {
        return false;
    }
    for i in 0..part.len()
        invariant
            at + part@.len() <= v@.len(),
            v@.len() == n,
            forall|j: int| 0 <= j < i ==> v@[at + j] == part@[j],
    {
        if v[at + i] != part[i] {
            assert(v@.subrange(at as int, at + part@.len())[i as int] != part@[i as int]);
            return false;
        }
    }
    assert(v@.subrange(at as int, at + part@.len()) =~= part@);
    true
}

/// The least index at or after `from` at which `part` stands in `v`.
pub fn find_part(v: &[char], part: &[char], from: usize) -> (r: Option<usize>)
    ensures
        match r {
            Some(k) => {
                &&& from <= k
                &&& occurs_at(v@, part@, k as int)
                &&& forall|j: int| from <= j < k ==> !occurs_at(v@, part@, j)
            },
            None => forall|j: int| from <= j ==> !occurs_at(v@, part@, j),
        },
        match r {
            Some(k) => part_index(v@, part@, from as int) == Some(k as int),
            None => part_index(v@, part@, from as int) is None,
        },
{
    proof {
        part_index_bounds(v@, part@, from as int);
    }
    let mut i: usize = from;
    while i <= v.len() && part.len() <= v.len() - i
        invariant
            from <= i,
            i <= v@.len() || i == from,
            forall|j: int| from <= j < i ==> !occurs_at(v@, part@, j),
            match part_index(v@, part@, from as int) {
                Some(k) => {
                    &&& from <= k
                    &&& occurs_at(v@, part@, k)
                    &&& forall|j: int| from <= j < k ==> !occurs_at(v@, part@, j)
                },
                None => forall|j: int| from <= j ==> !occurs_at(v@, part@, j),
            },
        decreases v@.len() + 1 - i,
    {
        if occurs(v, part, i) {
            return Some(i);
        }
        if i == v.len() {
            return None;
        }
        i = i + 1;
    }
    None
}

/// Whether `part` stands somewhere in `s`.
pub fn has_part(s: &str, part: &str) -> (r: bool)
    ensures
        r == contains(s@, part@),
{
    let v = chars_of(s);
    let p = chars_of(part);
    match find_part(v.as_slice(), p.as_slice(), 0) {
        Some(_) => true,
        None => false,
    }
}

/// Whether `s` begins with `prefix`.
pub fn starts_with(s: &str, prefix: &str) -> (r: bool)
    ensures
        r == occurs_at(s@, prefix@, 0),
{
    let v = chars_of(s);
    let p = chars_of(prefix);
    occurs(v.as_slice(), p.as_slice(), 0)
}

// ---------------------------------------------------------------------------
// Whitespace
// ---------------------------------------------------------------------------

/// The characters with the Unicode property `White_Space`.
pub open spec fn is_space(c: char) -> bool {
    let n = c as int;
    ||| 9 <= n <= 13
    ||| n == 32
    ||| n == 0x85
    ||| n == 0xA0
    ||| n == 0x1680
    ||| 0x2000 <= n <= 0x200A
    ||| n == 0x2028
    ||| n == 0x2029
    ||| n == 0x202F
    ||| n == 0x205F
    ||| n == 0x3000
}

/// Whether `c` has the Unicode property `White_Space`.
pub fn space(c: char) -> (r: bool)
    ensures
        r == is_space(c),
{
    let n: u32 = c as u32;
    (9 <= n && n <= 13) || n == 32 || n == 0x85 || n == 0xA0 || n == 0x1680 || (0x2000 <= n && n
        <= 0x200A) || n == 0x2028 || n == 0x2029 || n == 0x202F || n == 0x205F || n == 0x3000
}

/// `s` without its leading whitespace.
pub open spec fn trim_start(s: Seq<char>) -> Seq<char>
    decreases s.len(),
{
    if s.len() > 0 && is_space(s[0]) {
        trim_start(s.skip(1))
    } else {
        s
    }
}

/// `s` without its trailing whitespace.
pub open spec fn trim_end(s: Seq<char>) -> Seq<char>
    decreases s.len(),
{
    if s.len() > 0 && is_space(s.last()) {
        trim_end(s.drop_last())
    } else {
        s
    }
}

/// `s` without leading and trailing whitespace.
pub open spec fn trim(s: Seq<char>) -> Seq<char> {
    trim_end(trim_start(s))
}

/// Trimming takes white space off both ends and nothing else: what is left stands
/// in the text with nothing but white space before and behind it, and neither
/// begins nor ends with white space.
pub proof fn trimming_takes_off_only_space(s: Seq<char>)
    ensures
        exists|a: Seq<char>, b: Seq<char>|
            #![trigger a + trim(s) + b]
            s == a + trim(s) + b && (forall|i: int| 0 <= i < a.len() ==> is_space(#[trigger] a[i]))
                && forall|i: int| 0 <= i < b.len() ==> is_space(#[trigger] b[i]),
        trim(s).len() > 0 ==> !is_space(trim(s)[0]) && !is_space(trim(s).last()),
{
    start_is_space(s);
    let mid = trim_start(s);
    end_is_space(mid);
    let a = choose|a: Seq<char>|
        s == #[trigger] (a + mid) && forall|i: int| 0 <= i < a.len() ==> is_space(#[trigger] a[i]);
    let b = choose|b: Seq<char>|
        mid == #[trigger] (trim_end(mid) + b) && forall|i: int|
            0 <= i < b.len() ==> is_space(#[trigger] b[i]);
    assert(s =~= a + trim(s) + b);
}

proof fn start_is_space(s: Seq<char>)
    ensures
        exists|a: Seq<char>|
            s == #[trigger] (a + trim_start(s)) && forall|i: int|
                0 <= i < a.len() ==> is_space(#[trigger] a[i]),
        trim_start(s).len() > 0 ==> !is_space(trim_start(s)[0]),
    decreases s.len(),
{
    if s.len() > 0 && is_space(s[0]) {
        let rest = s.skip(1);
        start_is_space(rest);
        let a = choose|a: Seq<char>|
            rest == #[trigger] (a + trim_start(rest)) && forall|i: int|
                0 <= i < a.len() ==> is_space(#[trigger] a[i]);
        let more = seq![s[0]] + a;
        assert(s =~= seq![s[0]] + rest);
        assert(seq![s[0]] + (a + trim_start(rest)) =~= more + trim_start(rest));
        assert(s == more + trim_start(s));
    } else {
        assert(s =~= Seq::<char>::empty() + trim_start(s));
    }
}

proof fn end_is_space(s: Seq<char>)
    ensures
        exists|b: Seq<char>|
            s == #[trigger] (trim_end(s) + b) && forall|i: int|
                0 <= i < b.len() ==> is_space(#[trigger] b[i]),
        trim_end(s).len() > 0 ==> !is_space(trim_end(s).last()),
        trim_end(s).len() > 0 ==> trim_end(s)[0] == s[0],
    decreases s.len(),
{
    if s.len() > 0 && is_space(s.last()) {
        let rest = s.drop_last();
        end_is_space(rest);
        let b = choose|b: Seq<char>|
            rest == #[trigger] (trim_end(rest) + b) && forall|i: int|
                0 <= i < b.len() ==> is_space(#[trigger] b[i]);
        let more = b.push(s.last());
        assert(s =~= rest.push(s.last()));
        assert((trim_end(rest) + b).push(s.last()) =~= trim_end(rest) + more);
        assert(s == trim_end(s) + more);
    } else {
        assert(s =~= trim_end(s) + Seq::<char>::empty());
    }
}

/// Taking a character off an end of a text takes off all of it there, and nothing
/// else.
pub proof fn ends_lose_only_the_character(s: Seq<char>, c: char)
    ensures
        trim_end_char(s, c).len() <= s.len(),
        trim_end_char(s, c) == s.take(trim_end_char(s, c).len() as int),
        forall|i: int| trim_end_char(s, c).len() <= i < s.len() ==> #[trigger] s[i] == c,
        trim_end_char(s, c).len() > 0 ==> trim_end_char(s, c).last() != c,
        trim_start_char(s, c).len() <= s.len(),
        trim_start_char(s, c) == s.skip(s.len() - trim_start_char(s, c).len()),
        forall|i: int| 0 <= i < s.len() - trim_start_char(s, c).len() ==> #[trigger] s[i] == c,
        trim_start_char(s, c).len() > 0 ==> trim_start_char(s, c)[0] != c,
    decreases s.len(),
{
    if s.len() > 0 && s.last() == c {
        let rest = s.drop_last();
        ends_lose_only_the_character(rest, c);
        let n = trim_end_char(s, c).len() as int;
        assert(rest.take(n) =~= s.take(n));
        assert forall|i: int| n <= i < s.len() implies #[trigger] s[i] == c by {
            if i < rest.len() {
                assert(rest[i] == c);
            }
        }
    } else {
        assert(s.take(s.len() as int) =~= s);
    }
    if s.len() > 0 && s[0] == c {
        let rest = s.skip(1);
        ends_lose_only_the_character(rest, c);
        let n = trim_start_char(s, c).len() as int;
        assert(rest.skip(rest.len() - n) =~= s.skip(s.len() - n));
        assert forall|i: int| 0 <= i < s.len() - n implies #[trigger] s[i] == c by {
            if i > 0 {
                assert(rest[i - 1] == c);
            }
        }
    } else {
        assert(s.skip(0) =~= s);
    }
}

/// `s` without its trailing occurrences of `c`.
pub open spec fn trim_end_char(s: Seq<char>, c: char) -> Seq<char>
    decreases s.len(),
{
    if s.len() > 0 && s.last() == c {
        trim_end_char(s.drop_last(), c)
    } else {
        s
    }
}

/// The index of the first character of `v` in `from..to` that is no
/// whitespace, or `to`.
pub fn skip_spaces(v: &[char], from: usize, to: usize) -> (r: usize)
    requires
        from <= to <= v@.len(),
    ensures
        from <= r <= to,
        v@.subrange(r as int, to as int) == trim_start(v@.subrange(from as int, to as int)),
        r < to ==> !is_space(v@[r as int]),
        forall|j: int| from <= j < r ==> is_space(v@[j]),
{
    let mut i: usize = from;
    while i < to && space(v[i])
        invariant
            from <= i <= to <= v@.len(),
            trim_start(v@.subrange(i as int, to as int)) == trim_start(
                v@.subrange(from as int, to as int),
            ),
            forall|j: int| from <= j < i ==> is_space(v@[j]),
        decreases to - i,
    {
        assert(v@.subrange(i as int, to as int).skip(1) =~= v@.subrange(i + 1, to as int));
        i = i + 1;
    }
    i
}

/// The index just past the last character of `v` in `from..to` that is no
/// whitespace, or `from`.
pub fn drop_spaces(v: &[char], from: usize, to: usize) -> (r: usize)
    requires
        from <= to <= v@.len(),
    ensures
        from <= r <= to,
        v@.subrange(from as int, r as int) == trim_end(v@.subrange(from as int, to as int)),
{
    let mut i: usize = to;
    while from < i && space(v[i - 1])
        invariant
            from <= i <= to <= v@.len(),
            trim_end(v@.subrange(from as int, i as int)) == trim_end(
                v@.subrange(from as int, to as int),
            ),
        decreases i,
    {
        assert(v@.subrange(from as int, i as int).drop_last() =~= v@.subrange(from as int, i - 1));
        i = i - 1;
    }
    i
}

/// `s` without leading and trailing whitespace.
pub fn trimmed(s: &str) -> (r: String)
    ensures
        r@ == trim(s@),
{
    let v = chars_of(s);
    let from = skip_spaces(v.as_slice(), 0, v.len());
    let to = drop_spaces(v.as_slice(), from, v.len());
    assert(v@.subrange(0, v@.len() as int) =~= s@);
    slice(v.as_slice(), from, to)
}

/// `s` without its trailing whitespace.
pub fn trimmed_end(s: &str) -> (r: String)
    ensures
        r@ == trim_end(s@),
{
    let v = chars_of(s);
    let to = drop_spaces(v.as_slice(), 0, v.len());
    assert(v@.subrange(0, v@.len() as int) =~= s@);
    slice(v.as_slice(), 0, to)
}

/// The index just past the last character of `v` in `from..to` that is not
/// `c`, or `from`.
pub fn drop_char(v: &[char], c: char, from: usize, to: usize) -> (r: usize)
    requires
        from <= to <= v@.len(),
    ensures
        from <= r <= to,
        v@.subrange(from as int, r as int) == trim_end_char(v@.subrange(from as int, to as int), c),
{
    let mut i: usize = to;
    while from < i && v[i - 1] == c
        invariant
            from <= i <= to <= v@.len(),
            trim_end_char(v@.subrange(from as int, i as int), c) == trim_end_char(
                v@.subrange(from as int, to as int),
                c,
            ),
        decreases i,
    {
        assert(v@.subrange(from as int, i as int).drop_last() =~= v@.subrange(from as int, i - 1));
        i = i - 1;
    }
    i
}

/// `s` without its trailing occurrences of `c`.
pub fn without_trailing(s: &str, c: char) -> (r: String)
    ensures
        r@ == trim_end_char(s@, c),
{
    let v = chars_of(s);
    let to = drop_char(v.as_slice(), c, 0, v.len());
    assert(v@.subrange(0, v@.len() as int) =~= s@);
    slice(v.as_slice(), 0, to)
}

/// `s` without the `c` at its start.
pub open spec fn trim_start_char(s: Seq<char>, c: char) -> Seq<char>
    decreases s.len(),
{
    if s.len() > 0 && s[0] == c {
        trim_start_char(s.skip(1), c)
    } else {
        s
    }
}

/// `s` without the `c` at its start.
pub fn without_leading(s: &str, c: char) -> (r: String)
    ensures
        r@ == trim_start_char(s@, c),
{
    let v = chars_of(s);
    let mut i: usize = 0;
    assert(s@.skip(0) =~= s@);
    while i < v.len() && v[i] == c
        invariant
            v@ == s@,
            i <= v@.len(),
            trim_start_char(s@, c) == trim_start_char(s@.skip(i as int), c),
        decreases v@.len() - i,
    {
        assert(s@.skip(i as int)[0] == c);
        assert(s@.skip(i as int).skip(1) =~= s@.skip(i + 1));
        i = i + 1;
    }
    assert(v@.subrange(i as int, v@.len() as int) =~= s@.skip(i as int));
    slice(v.as_slice(), i, v.len())
}

/// `s` with a line break at its end, unless it is empty or has one.
pub open spec fn closed_line(s: Seq<char>) -> Seq<char> {
    if s.len() == 0 || s.last() == '\n' {
        s
    } else {
        s.push('\n')
    }
}

/// Whether `s` is empty or ends with a line break.
pub fn ends_line(s: &str) -> (r: bool)
    ensures
        r == (s@.len() == 0 || s@.last() == '\n'),
{
    let v = chars_of(s);
    let n: usize = v.len();
    n == 0 || v[n - 1] == '\n'
}

// ---------------------------------------------------------------------------
// Lines
// ---------------------------------------------------------------------------

/// The index just past the line that begins at `from`, its newline included.
pub open spec fn line_end(s: Seq<char>, from: int) -> int {
    let k = next_index(s, '\n', from);
    if k < s.len() {
        k + 1
    } else {
        s.len() as int
    }
}

/// `s` without one trailing carriage return.
pub open spec fn without_cr(s: Seq<char>) -> Seq<char> {
    if s.len() > 0 && s.last() == '\r' {
        s.drop_last()
    } else {
        s
    }
}

/// The lines of `s` from index `from` on, as `str::lines` gives them: each is
/// ended by a newline or a carriage return and a newline, which are left out,
/// and the last one may be ended by the end of the text.
pub open spec fn lines_from(s: Seq<char>, from: int) -> Seq<Seq<char>>
    decreases s.len() - from,
{
    if from >= s.len() {
        Seq::empty()
    } else {
        let k = next_index(s, '\n', from);
        if from <= k < s.len() {
            seq![without_cr(s.subrange(from, k))] + lines_from(s, k + 1)
        } else {
            seq![s.subrange(from, s.len() as int)]
        }
    }
}

/// The lines of `s`.
pub open spec fn lines(s: Seq<char>) -> Seq<Seq<char>> {
    lines_from(s, 0)
}

/// The lines from an index on are those of the rest.
pub proof fn lines_skip(s: Seq<char>, from: int)
    requires
        0 <= from <= s.len(),
    ensures
        lines_from(s, from) == lines(s.skip(from)),
    decreases s.len() - from,
{
    let t = s.skip(from);
    if from < s.len() {
        let k = next_index(s, '\n', from);
        let j = next_index(t, '\n', 0);
        next_index_skip(s, '\n', from);
        next_index_bounds(s, '\n', from);
        if k < s.len() {
            lines_skip(s, k + 1);
            lines_skip(t, j + 1);
            assert(t.skip(j + 1) =~= s.skip(k + 1));
            assert(t.subrange(0, j) =~= s.subrange(from, k));
        } else {
            assert(t.subrange(0, t.len() as int) =~= s.subrange(from, s.len() as int));
        }
    }
}

/// The lines of a text in two parts, the first of which ends at the end of a
/// line.
pub proof fn lines_append(a: Seq<char>, b: Seq<char>)
    requires
        a.len() == 0 || a.last() == '\n',
    ensures
        lines(a + b) == lines(a) + lines(b),
    decreases a.len(),
{
    if a.len() == 0 {
        assert(a + b =~= b);
        assert(lines(a) + lines(b) =~= lines(b));
    } else {
        let k = next_index(a, '\n', 0);
        next_index_bounds(a, '\n', 0);
        next_index_unique(a + b, '\n', 0, k);
        let rest = a.skip(k + 1);
        assert(rest.len() > 0 ==> rest.last() == a.last());
        lines_skip(a, k + 1);
        lines_skip(a + b, k + 1);
        assert((a + b).skip(k + 1) =~= rest + b);
        assert((a + b).subrange(0, k) =~= a.subrange(0, k));
        lines_append(rest, b);
        assert(lines(a + b) =~= lines(a) + lines(b));
    }
}

/// A line and its newline are one line.
pub proof fn lines_of_one(l: Seq<char>)
    requires
        forall|j: int| 0 <= j < l.len() ==> l[j] != '\n',
        l.len() > 0 ==> l.last() != '\r',
    ensures
        lines(l + "\n"@) == seq![l],
{
    reveal_strlit("\n");
    let s = l + "\n"@;
    let k = l.len() as int;
    next_index_unique(s, '\n', 0, k);
    assert(s.subrange(0, k) =~= l);
    assert(lines_from(s, k + 1) =~= Seq::<Seq<char>>::empty());
    assert(lines(s) =~= seq![l]);
}

/// A line that a carriage return and a newline end is one line, without either.
pub proof fn crlf_ends_a_line(l: Seq<char>)
    requires
        forall|j: int| 0 <= j < l.len() ==> l[j] != '\n',
    ensures
        lines(l + "\r\n"@) == seq![l],
{
    reveal_strlit("\r\n");
    let s = l + "\r\n"@;
    let k = l.len() as int + 1;
    next_index_unique(s, '\n', 0, k);
    assert(s.subrange(0, k) =~= l.push('\r'));
    assert(l.push('\r').drop_last() =~= l);
    assert(lines_from(s, k + 1) =~= Seq::<Seq<char>>::empty());
    assert(lines(s) =~= seq![l]);
}

/// A text that is not empty is closed by a line break, once: one that has it
/// stays, and any other gets it.
pub proof fn closing_adds_one_line_break(s: Seq<char>)
    ensures
        s.len() > 0 ==> closed_line(s).len() > 0 && closed_line(s).last() == '\n',
        s.len() == 0 ==> closed_line(s).len() == 0,
        closed_line(closed_line(s)) == closed_line(s),
        s.len() <= closed_line(s).len() <= s.len() + 1,
        closed_line(s).take(s.len() as int) == s,
        s.len() > 0 && s.last() == '\n' ==> closed_line(s) == s,
{
    assert(closed_line(s).take(s.len() as int) =~= s);
}

/// What is left of `s` without its trailing whitespace begins `s`.
pub proof fn trim_end_is_prefix(s: Seq<char>)
    ensures
        trim_end(s).len() <= s.len(),
        trim_end(s) == s.take(trim_end(s).len() as int),
    decreases s.len(),
{
    if s.len() > 0 && is_space(s.last()) {
        trim_end_is_prefix(s.drop_last());
        let n = trim_end(s).len() as int;
        assert(s.drop_last().take(n) =~= s.take(n));
    } else {
        assert(s.take(s.len() as int) =~= s);
    }
}

/// The lines of `s`.
pub fn lines_of(s: &str) -> (r: Vec<String>)
    ensures
        views(r@) == lines(s@),
{
    let v = chars_of(s);
    let n: usize = v.len();
    let mut out: Vec<String> = Vec::new();
    let mut i: usize = 0;
    assert(views(out@) + lines_from(s@, 0) =~= lines(s@));
    while i < n
        invariant
            i <= n,
            n == v@.len(),
            v@ == s@,
            views(out@) + lines_from(s@, i as int) == lines(s@),
        decreases n - i,
    {
        let k = find_from(v.as_slice(), '\n', i);
        let ghost before = out@;
        if k < n {
            let stop: usize = if i < k && v[k - 1] == '\r' {
                k - 1
            } else {
                k
            };
            out.push(slice(v.as_slice(), i, stop));
            proof {
                let whole = s@.subrange(i as int, k as int);
                if whole.len() > 0 && whole.last() == '\r' {
                    assert(whole.drop_last() =~= s@.subrange(i as int, stop as int));
                }
                assert(out@.last()@ == without_cr(whole));
                assert(views(out@) =~= views(before).push(without_cr(whole)));
                assert(views(out@) + lines_from(s@, k + 1) =~= views(before) + lines_from(
                    s@,
                    i as int,
                ));
            }
            i = k + 1;
        } else {
            out.push(slice(v.as_slice(), i, n));
            proof {
                assert(views(out@) =~= views(before).push(s@.subrange(i as int, n as int)));
                assert(views(out@) + lines_from(s@, n as int) =~= views(before) + lines_from(
                    s@,
                    i as int,
                ));
            }
            i = n;
        }
    }
    assert(lines_from(s@, i as int) =~= Seq::<Seq<char>>::empty());
    out
}

/// The first line of `s` without surrounding whitespace.
pub open spec fn first_line_trimmed(s: Seq<char>) -> Seq<char> {
    trim(if lines(s).len() == 0 {
        s
    } else {
        lines(s)[0]
    })
}

/// The first line of `s` without surrounding whitespace.
pub fn one_line(s: &str) -> (r: String)
    ensures
        r@ == first_line_trimmed(s@),
{
    let all = lines_of(s);
    if all.len() == 0 {
        assert(lines(s@).len() == 0);
        trimmed(s)
    } else {
        assert(lines(s@)[0] == all@[0]@);
        trimmed(all[0].as_str())
    }
}

/// `c` in lower case where it is an ASCII letter.
pub open spec fn lower(c: char) -> char {
    if 'A' <= c <= 'Z' {
        (c as int + 32) as char
    } else {
        c
    }
}

/// `s` with its ASCII letters in lower case.
pub open spec fn ascii_lower(s: Seq<char>) -> Seq<char> {
    s.map_values(|c: char| lower(c))
}

/// `s` with its ASCII letters in lower case.
pub fn lowered(s: &str) -> (r: String)
    ensures
        r@ == ascii_lower(s@),
{
    let v = chars_of(s);
    let mut out = String::new();
    for i in 0..v.len()
        invariant
            v@ == s@,
            out@ == ascii_lower(s@.take(i as int)),
    {
        let c = v[i];
        if 'A' <= c && c <= 'Z' {
            let n: u8 = (c as u32) as u8;
            out.push((n + 32) as char);
        } else {
            out.push(c);
        }
        assert(ascii_lower(s@.take(i
            + 1)) =~= ascii_lower(s@.take(i as int)).push(lower(s@[i as int])));
    }
    assert(s@.take(s@.len() as int) =~= s@);
    out
}

// ---------------------------------------------------------------------------
// Joining and replacing
// ---------------------------------------------------------------------------

/// `parts` one after the other with `sep` between each two.
pub open spec fn join(parts: Seq<Seq<char>>, sep: Seq<char>) -> Seq<char>
    decreases parts.len(),
{
    if parts.len() == 0 {
        Seq::empty()
    } else if parts.len() == 1 {
        parts[0]
    } else {
        join(parts.drop_last(), sep) + sep + parts.last()
    }
}

/// `parts` one after the other with `sep` between each two.
pub fn joined(parts: &Vec<String>, sep: &str) -> (r: String)
    ensures
        r@ == join(views(parts@), sep@),
{
    let mut out = String::new();
    for i in 0..parts.len()
        invariant
            out@ == join(views(parts@).take(i as int), sep@),
    {
        if i > 0 {
            out.append(sep);
        }
        out.append(parts[i].as_str());
        proof {
            let done = views(parts@).take(i + 1);
            assert(done.drop_last() =~= views(parts@).take(i as int));
            assert(done.last() == parts@[i as int]@);
            if i == 0 {
                assert(out@ =~= parts@[0]@);
            }
        }
    }
    assert(views(parts@).take(parts@.len() as int) =~= views(parts@));
    out
}

/// `s` from index `from` on, each occurrence of `part` replaced by `with`,
/// found from left to right without overlap.
pub open spec fn replace_from(s: Seq<char>, part: Seq<char>, with: Seq<char>, from: int) -> Seq<
    char,
>
    decreases s.len() - from,
{
    if from >= s.len() {
        Seq::empty()
    } else if part.len() > 0 && occurs_at(s, part, from) {
        with + replace_from(s, part, with, from + part.len())
    } else {
        seq![s[from]] + replace_from(s, part, with, from + 1)
    }
}

/// `s` with each occurrence of the non-empty `part` replaced by `with`.
pub open spec fn replace(s: Seq<char>, part: Seq<char>, with: Seq<char>) -> Seq<char> {
    replace_from(s, part, with, 0)
}

/// What replacing does. A text in which the part does not occur stays. Where its
/// first occurrence stands behind `a`, `a` stays, the part gives way to what
/// replaces it, and the rest is treated alike; what was put in is not looked at
/// again.
pub proof fn replacing_goes_from_left_to_right(
    a: Seq<char>,
    part: Seq<char>,
    b: Seq<char>,
    with: Seq<char>,
)
    requires
        part.len() > 0,
        forall|i: int| 0 <= i < a.len() ==> !occurs_at(a + part + b, part, i),
    ensures
        replace(a + part + b, part, with) == a + with + replace(b, part, with),
{
    let s = a + part + b;
    let end = a.len() as int + part.len();
    assert(s.subrange(a.len() as int, end) =~= part);
    kept_until(s, part, with, 0, a.len() as int);
    assert(s.subrange(0, a.len() as int) =~= a);
    assert(s.skip(end) =~= b);
    replaced_behind(s, part, with, end);
    assert(replace(s, part, with) =~= a + with + replace(b, part, with));
}

/// A text in which the part does not occur stays as it is.
pub proof fn nothing_to_replace(s: Seq<char>, part: Seq<char>, with: Seq<char>)
    requires
        !contains(s, part),
    ensures
        replace(s, part, with) == s,
{
    kept_until(s, part, with, 0, s.len() as int);
    assert(s.subrange(0, s.len() as int) =~= s);
    assert(replace(s, part, with) =~= s);
}

/// To put a part in its own place changes nothing.
pub proof fn replacing_with_itself_changes_nothing(s: Seq<char>, part: Seq<char>)
    ensures
        replace(s, part, part) == s,
{
    replaced_with_itself(s, part, 0);
    assert(s.skip(0) =~= s);
}

proof fn replaced_with_itself(s: Seq<char>, part: Seq<char>, from: int)
    requires
        0 <= from <= s.len(),
    ensures
        replace_from(s, part, part, from) == s.skip(from),
    decreases s.len() - from,
{
    if from < s.len() {
        if part.len() > 0 && occurs_at(s, part, from) {
            let end = from + part.len();
            replaced_with_itself(s, part, end);
            assert(s.skip(from) =~= s.subrange(from, end) + s.skip(end));
        } else {
            replaced_with_itself(s, part, from + 1);
            assert(s.skip(from) =~= seq![s[from]] + s.skip(from + 1));
        }
    } else {
        assert(s.skip(from) =~= Seq::<char>::empty());
    }
}

proof fn kept_until(s: Seq<char>, part: Seq<char>, with: Seq<char>, from: int, to: int)
    requires
        0 <= from <= to <= s.len(),
        forall|i: int| from <= i < to ==> !occurs_at(s, part, i),
    ensures
        replace_from(s, part, with, from) == s.subrange(from, to) + replace_from(
            s,
            part,
            with,
            to,
        ),
    decreases to - from,
{
    if from < to {
        kept_until(s, part, with, from + 1, to);
        assert(replace_from(s, part, with, from) =~= s.subrange(from, to) + replace_from(
            s,
            part,
            with,
            to,
        ));
    } else {
        assert(s.subrange(from, to) + replace_from(s, part, with, to) =~= replace_from(
            s,
            part,
            with,
            to,
        ));
    }
}

proof fn replaced_behind(s: Seq<char>, part: Seq<char>, with: Seq<char>, from: int)
    requires
        0 <= from <= s.len(),
    ensures
        replace_from(s, part, with, from) == replace(s.skip(from), part, with),
{
    replaced_from(s, part, with, from, 0);
}

proof fn replaced_from(s: Seq<char>, part: Seq<char>, with: Seq<char>, from: int, k: int)
    requires
        0 <= from,
        0 <= k,
        from + k <= s.len(),
    ensures
        replace_from(s, part, with, from + k) == replace_from(s.skip(from), part, with, k),
    decreases s.len() - from - k,
{
    let t = s.skip(from);
    if from + k < s.len() {
        assert(s[from + k] == t[k]);
        if k + part.len() <= t.len() {
            assert(s.subrange(from + k, from + k + part.len()) =~= t.subrange(k, k + part.len()));
        }
        if part.len() > 0 && occurs_at(t, part, k) {
            replaced_from(s, part, with, from, k + part.len());
        } else {
            replaced_from(s, part, with, from, k + 1);
        }
    }
}

/// Lower case touches the letters `A` to `Z` alone: each becomes its own small
/// letter, and every other character stays.
pub proof fn lower_case_touches_capitals_alone(s: Seq<char>, i: int)
    requires
        0 <= i < s.len(),
    ensures
        ascii_lower(s).len() == s.len(),
        'A' <= s[i] <= 'Z' ==> ascii_lower(s)[i] as int - 'a' as int == s[i] as int - 'A' as int,
        !('A' <= s[i] <= 'Z') ==> ascii_lower(s)[i] == s[i],
{
}

/// Joining puts the separator between each two parts, and nowhere else.
pub proof fn joins_put_the_separator_between(
    a: Seq<Seq<char>>,
    b: Seq<Seq<char>>,
    sep: Seq<char>,
)
    ensures
        a.len() == 1 ==> join(a, sep) == a[0],
        a.len() == 0 ==> join(a, sep).len() == 0,
        a.len() > 0 && b.len() > 0 ==> join(a + b, sep) == join(a, sep) + sep + join(b, sep),
    decreases b.len(),
{
    if a.len() > 0 && b.len() > 0 {
        let front = b.drop_last();
        assert((a + b).drop_last() =~= a + front);
        if front.len() > 0 {
            joins_put_the_separator_between(a, front, sep);
            assert(join(a + b, sep) =~= join(a, sep) + sep + join(b, sep));
        } else {
            assert(a + front =~= a);
            assert(b[0] == b.last());
        }
    }
}

/// What is joined holds every part.
pub proof fn joins_hold_every_part(parts: Seq<Seq<char>>, sep: Seq<char>, i: int)
    requires
        0 <= i < parts.len(),
    ensures
        contains(join(parts, sep), parts[i]),
    decreases parts.len(),
{
    let whole = join(parts, sep);
    let none = Seq::<char>::empty();
    if parts.len() == 1 {
        parts_are_held(none, parts[i], none, whole);
    } else {
        let front = join(parts.drop_last(), sep);
        if i == parts.len() - 1 {
            parts_are_held(front + sep, parts[i], none, whole);
        } else {
            joins_hold_every_part(parts.drop_last(), sep, i);
            held_in_a_part(none, front, sep + parts.last(), whole, parts[i]);
        }
    }
}

/// `s` with each occurrence of the non-empty `part` replaced by `with`.
pub fn replaced(s: &str, part: &str, with: &str) -> (r: String)
    requires
        part@.len() > 0,
    ensures
        r@ == replace(s@, part@, with@),
{
    let v = chars_of(s);
    let p = chars_of(part);
    let n: usize = v.len();
    let mut out = String::new();
    let mut i: usize = 0;
    assert(out@ + replace_from(s@, part@, with@, 0) =~= replace(s@, part@, with@));
    while i < n
        invariant
            i <= n,
            n == v@.len(),
            v@ == s@,
            p@ == part@,
            part@.len() > 0,
            out@ + replace_from(s@, part@, with@, i as int) == replace(s@, part@, with@),
        decreases n - i,
    {
        let ghost done = out@;
        if occurs(v.as_slice(), p.as_slice(), i) {
            out.append(with);
            assert(out@ + replace_from(s@, part@, with@, i + part@.len()) =~= done + replace_from(
                s@,
                part@,
                with@,
                i as int,
            ));
            i = i + p.len();
        } else {
            out.push(v[i]);
            assert(out@ + replace_from(s@, part@, with@, i + 1) =~= done + replace_from(
                s@,
                part@,
                with@,
                i as int,
            ));
            i = i + 1;
        }
    }
    assert(out@ + replace_from(s@, part@, with@, i as int) =~= out@);
    out
}

// ---------------------------------------------------------------------------
// Numerals
// ---------------------------------------------------------------------------

/// The decimal digit of `d`, which is below ten.
pub open spec fn digit(d: int) -> char {
    (48 + d) as char
}

/// The ten digits in their order.
pub proof fn digits_stand_in_order(d: int)
    requires
        0 <= d < 10,
    ensures
        digit(d) == "0123456789"@[d],
{
    reveal_strlit("0123456789");
}

/// `n` in decimal, without leading zeros.
pub open spec fn decimal(n: nat) -> Seq<char>
    decreases n,
{
    if n < 10 {
        seq![digit(n as int)]
    } else {
        decimal(n / 10).push(digit((n % 10) as int))
    }
}

/// `s` with `fill` put in front until it has at least `width` characters.
pub open spec fn pad_left(s: Seq<char>, fill: char, width: nat) -> Seq<char> {
    if s.len() >= width {
        s
    } else {
        Seq::new((width - s.len()) as nat, |i: int| fill) + s
    }
}

/// The decimal digit of `d`.
pub fn digit_char(d: u8) -> (r: char)
    requires
        d < 10,
    ensures
        r == digit(d as int),
{
    (48 + d) as char
}

/// `n` in decimal.
pub fn decimal_u128(n: u128) -> (r: String)
    ensures
        r@ == decimal(n as nat),
    decreases n,
{
    if n < 10 {
        let mut s = String::new();
        s.push(digit_char(n as u8));
        assert(s@ =~= seq![digit(n as int)]);
        s
    } else {
        let mut s = decimal_u128(n / 10);
        s.push(digit_char((n % 10) as u8));
        s
    }
}

/// `n` in decimal.
pub fn decimal_u64(n: u64) -> (r: String)
    ensures
        r@ == decimal(n as nat),
{
    decimal_u128(n as u128)
}

/// `n` in decimal.
pub fn decimal_u32(n: u32) -> (r: String)
    ensures
        r@ == decimal(n as nat),
{
    decimal_u128(n as u128)
}

/// `n` in decimal.
pub fn decimal_usize(n: usize) -> (r: String)
    ensures
        r@ == decimal(n as nat),
{
    decimal_u128(n as u128)
}

/// `n` in decimal, with a sign where it is negative.
pub open spec fn signed_decimal(n: int) -> Seq<char> {
    if n < 0 {
        "-"@ + decimal((-n) as nat)
    } else {
        decimal(n as nat)
    }
}

/// `n` in decimal, with a sign where it is negative.
pub fn decimal_i32(n: i32) -> (r: String)
    ensures
        r@ == signed_decimal(n as int),
{
    if n < 0 {
        let mut out = owned("-");
        out.append(decimal_u128((-(n as i64)) as u128).as_str());
        out
    } else {
        decimal_u128(n as u128)
    }
}

/// `s` with `fill` put in front until it has at least `width` characters.
pub fn padded(s: &str, fill: char, width: usize) -> (r: String)
    ensures
        r@ == pad_left(s@, fill, width as nat),
{
    let v = chars_of(s);
    let n: usize = v.len();
    if n >= width {
        return owned(s);
    }
    let mut out = String::new();
    for i in 0..(width - n)
        invariant
            out@ == Seq::new(i as nat, |j: int| fill),
    {
        out.push(fill);
        assert(out@ =~= Seq::new((i + 1) as nat, |j: int| fill));
    }
    out.append(s);
    out
}

} // verus!
