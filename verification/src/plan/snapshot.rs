//! SHA-256 snapshot/verify utilities for `plan.md`.
//!
//! Used by the runner to detect agent tampering: the runner snapshots
//! `plan.md` before dispatching the implementer, then [`verify_unchanged`]
//! after. Any difference in the digest produces a [`SnapshotError::Mismatch`]
//! so the run can halt and restore from the pre-agent backup.

use vstd::prelude::*;
use vstd::string::StringExecFns;

use sha2::Digest;

use crate::text;

verus! {

/// The SHA-256 digest of a message.
pub uninterp spec fn sha256(message: Seq<u8>) -> Seq<u8>;

/// `sha2::Sha256` over `bytes`, from `new` through `update` to `finalize`. The
/// result is a function of the bytes alone; the algorithm is not stated, and
/// neither is that different messages have different digests.
#[verifier::external_body]
fn sha256_of(bytes: &[u8]) -> (r: [u8; 32])
    ensures
        r@ == sha256(bytes@),
{
    let mut hasher = sha2::Sha256::new();
    hasher.update(bytes);
    hasher.finalize().into()
}

/// SHA-256 hash of a file's bytes captured at a point in time.
#[derive(Debug, Clone, Copy, PartialEq, Eq)]
pub struct Snapshot {
    hash: [u8; 32],
}

impl View for Snapshot {
    type V = Seq<u8>;

    closed spec fn view(&self) -> Seq<u8> {
        self.hash@
    }
}

/// Errors produced by [`snapshot`] and [`verify_unchanged`].
#[derive(Debug, PartialEq, Eq)]
pub enum SnapshotError {
    /// Reading the file failed.
    Io {
        /// File whose read failed.
        path: String,
        /// What the operating system said.
        source: String,
    },
    /// The current file contents don't hash to the expected value.
    Mismatch {
        /// File whose contents drifted.
        path: String,
    },
}

/// The message of a snapshot error.
pub open spec fn snapshot_message(e: SnapshotError) -> Seq<char> {
    match e {
        SnapshotError::Io { path, source } => "snapshot: failed to read "@ + text::debug_text(path@)
            + ": "@ + source@,
        SnapshotError::Mismatch { path } => "snapshot: contents of "@ + text::debug_text(path@)
            + " have changed since the snapshot was taken"@,
    }
}

/// The message of an error carries the path, and of one that could not be read why.
pub proof fn errors_carry_their_path(e: SnapshotError)
    ensures
        e matches SnapshotError::Io { path, source } ==> {
            &&& text::contains(snapshot_message(e), text::debug_text(path@))
            &&& text::contains(snapshot_message(e), ": "@ + source@)
        },
        e matches SnapshotError::Mismatch { path } ==> text::contains(
            snapshot_message(e),
            text::debug_text(path@),
        ),
{
    let whole = snapshot_message(e);
    match e {
        SnapshotError::Io { path, source } => {
            let name = text::debug_text(path@);
            let head = "snapshot: failed to read "@;
            text::parts_are_held(head, name, ": "@ + source@, whole);
            text::parts_are_held(head + name, ": "@ + source@, Seq::empty(), whole);
        },
        SnapshotError::Mismatch { path } => {
            text::parts_are_held(
                "snapshot: contents of "@,
                text::debug_text(path@),
                " have changed since the snapshot was taken"@,
                whole,
            );
        },
    }
}

impl SnapshotError {
    /// The message of the error.
    pub fn message(&self) -> (r: String)
        ensures
            r@ == snapshot_message(*self),
    {
        match self {
            SnapshotError::Io { path, source } => {
                let mut out = text::owned("snapshot: failed to read ");
                out.append(text::quoted(path.as_str()).as_str());
                out.append(": ");
                out.append(source.as_str());
                out
            },
            SnapshotError::Mismatch { path } => {
                let mut out = text::owned("snapshot: contents of ");
                out.append(text::quoted(path.as_str()).as_str());
                out.append(" have changed since the snapshot was taken");
                out
            },
        }
    }
}

/// The lowercase hexadecimal digit of `d`, which is below sixteen.
pub open spec fn hex_digit(d: int) -> char {
    if d < 10 {
        (48 + d) as char
    } else {
        (87 + d) as char
    }
}

/// The sixteen digits in their order.
pub proof fn hex_digits_stand_in_order(d: int)
    requires
        0 <= d < 16,
    ensures
        hex_digit(d) == "0123456789abcdef"@[d],
{
    reveal_strlit("0123456789abcdef");
}

/// `bytes` in lowercase hexadecimal, two digits each.
pub open spec fn hex_text(bytes: Seq<u8>) -> Seq<char>
    decreases bytes.len(),
{
    if bytes.len() == 0 {
        Seq::empty()
    } else {
        let b = bytes.last() as int;
        hex_text(bytes.drop_last()).push(hex_digit(b / 16)).push(hex_digit(b % 16))
    }
}

/// The hexadecimal text has two characters for each byte, each of them one of
/// `0` to `9` and `a` to `f`.
pub proof fn hex_text_shape(bytes: Seq<u8>)
    ensures
        hex_text(bytes).len() == 2 * bytes.len(),
        forall|i: int|
            0 <= i < hex_text(bytes).len() ==> '0' <= #[trigger] hex_text(bytes)[i] <= '9' || 'a'
                <= hex_text(bytes)[i] <= 'f',
    decreases bytes.len(),
{
    if bytes.len() > 0 {
        hex_text_shape(bytes.drop_last());
        let front = hex_text(bytes.drop_last());
        let b = bytes.last() as int;
        assert(0 <= b < 256);
        assert forall|i: int| 0 <= i < hex_text(bytes).len() implies '0' <= #[trigger] hex_text(
            bytes,
        )[i] <= '9' || 'a' <= hex_text(bytes)[i] <= 'f' by {
            if i < front.len() {
                assert(hex_text(bytes)[i] == front[i]);
            }
        }
    }
}

/// Different digests have different hexadecimal texts.
pub proof fn hex_text_injective(a: Seq<u8>, b: Seq<u8>)
    requires
        hex_text(a) == hex_text(b),
    ensures
        a == b,
    decreases a.len(),
{
    hex_text_shape(a);
    hex_text_shape(b);
    if a.len() > 0 {
        let (s, t) = (hex_text(a), hex_text(b));
        let (x, y) = (a.last() as int, b.last() as int);
        assert(s[s.len() - 1] == hex_digit(x % 16) && t[t.len() - 1] == hex_digit(y % 16));
        assert(s[s.len() - 2] == hex_digit(x / 16) && t[t.len() - 2] == hex_digit(y / 16));
        assert(hex_text(a.drop_last()) =~= s.take(s.len() - 2));
        assert(hex_text(b.drop_last()) =~= t.take(t.len() - 2));
        hex_text_injective(a.drop_last(), b.drop_last());
        assert(0 <= x < 256 && 0 <= y < 256);
        assert(x == y);
        assert(a =~= a.drop_last().push(a.last()));
        assert(b =~= b.drop_last().push(b.last()));
    } else {
        assert(a =~= b);
    }
}

fn hex_char(d: u8) -> (r: char)
    requires
        d < 16,
    ensures
        r == hex_digit(d as int),
{
    if d < 10 {
        (48 + d) as char
    } else {
        (87 + d) as char
    }
}

impl Snapshot {
    /// Hash the bytes directly. Useful when the contents are already in
    /// memory.
    pub fn of_bytes(bytes: &[u8]) -> (r: Self)
        ensures
            r@ == sha256(bytes@),
    {
        Snapshot { hash: sha256_of(bytes) }
    }

    /// Hex digest, lowercase. Stable for logging.
    pub fn hex(&self) -> (r: String)
        ensures
            r@ == hex_text(self@),
            r@.len() == 64,
    {
        let mut s = String::new();
        for i in 0..32
            invariant
                s@ == hex_text(self.hash@.take(i as int)),
        {
            let b: u8 = self.hash[i as usize];
            s.push(hex_char(b / 16));
            s.push(hex_char(b % 16));
            assert(self.hash@.take(i + 1).drop_last() =~= self.hash@.take(i as int));
        }
        assert(self.hash@.take(32) =~= self.hash@);
        proof {
            hex_text_shape(self.hash@);
        }
        s
    }

    /// Whether two snapshots hold the same digest.
    pub fn same(&self, other: &Snapshot) -> (r: bool)
        ensures
            r == (self@ == other@),
    {
        for i in 0..32
            invariant
                forall|j: int| 0 <= j < i ==> self.hash@[j] == other.hash@[j],
        {
            if self.hash[i as usize] != other.hash[i as usize] {
                return false;
            }
        }
        assert(self.hash@ =~= other.hash@);
        true
    }
}

/// What reading a file gave: its bytes, or what the operating system said.
pub type FileRead = Result<Vec<u8>, String>;

/// Compute a [`Snapshot`] of the file at `path`, `read` being what reading it
/// gave.
pub fn snapshot(path: &str, read: &FileRead) -> (r: Result<Snapshot, SnapshotError>)
    ensures
        match (read, r) {
            (Ok(bytes), Ok(s)) => s@ == sha256(bytes@),
            (Err(why), Err(SnapshotError::Io { path: p, source })) => p@ == path@ && source@
                == why@,
            _ => false,
        },
{
    match read {
        Ok(bytes) => Ok(Snapshot::of_bytes(bytes.as_slice())),
        Err(why) => Err(SnapshotError::Io { path: text::owned(path), source: why.clone() }),
    }
}

/// Verify that the file at `path`, `read` being what reading it gave, still
/// hashes to `expected`. Returns [`SnapshotError::Mismatch`] on any drift of the
/// digest.
pub fn verify_unchanged(path: &str, read: &FileRead, expected: &Snapshot) -> (r: Result<
    (),
    SnapshotError,
>)
    ensures
        match (read, r) {
            (Ok(bytes), Ok(_)) => sha256(bytes@) == expected@,
            (Ok(bytes), Err(SnapshotError::Mismatch { path: p })) => sha256(bytes@) != expected@
                && p@ == path@,
            (Err(why), Err(SnapshotError::Io { path: p, source })) => p@ == path@ && source@
                == why@,
            _ => false,
        },
{
    match snapshot(path, read) {
        Err(e) => Err(e),
        Ok(current) => {
            if current.same(expected) {
                Ok(())
            } else {
                Err(SnapshotError::Mismatch { path: text::owned(path) })
            }
        },
    }
}

} // verus!
