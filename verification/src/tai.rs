//! Monotonic absolute time on the TAI scale: a wire decoding, clock sampling,
//! and clamped arithmetic over an opaque integer counter.
use vstd::prelude::*;

verus! {

/// Seconds between the zero of the wire encoding and the Unix epoch.
pub const TAI_OFFSET: u64 = 4611686018427387914;

/// An instant on a monotonically increasing atomic-time scale.
#[derive(Debug, PartialEq, Eq, PartialOrd, Ord, Copy, Clone, Structural)]
pub struct Tai(pub u64);

/// The value of a big-endian byte sequence, most significant byte first.
pub open spec fn be_val(s: Seq<u8>) -> nat
    decreases s.len(),
{
    if s.len() == 0 {
        0
    } else {
        (be_val(s.drop_last()) * 256 + s.last()) as nat
    }
}

/// Difference of two counter values, clamped to zero: never a negative
/// duration, never an underflow.
pub open spec fn clamped_sub(a: u64, b: u64) -> u64 {
    if a >= b {
        (a - b) as u64
    } else {
        0
    }
}

impl Tai {
    /// The raw counter value, in seconds.
    pub fn as_secs(&self) -> (r: u64)
        ensures
            r == self.0,
    {
        self.0
    }

    /// Sum of two instants' counters; the caller rules out wrap-around.
    pub fn add(self, rhs: Tai) -> (r: Tai)
        requires
            self.0 + rhs.0 <= u64::MAX,
        ensures
            r.0 == self.0 + rhs.0,
    {
        Tai(self.0 + rhs.0)
    }

    /// Difference of two instants, clamped to zero when `rhs` is not earlier.
    pub fn sub(self, rhs: Tai) -> (r: Tai)
        ensures
            r.0 == clamped_sub(self.0, rhs.0),
    {
        if self.0 >= rhs.0 {
            Tai(self.0 - rhs.0)
        } else {
            Tai(0)
        }
    }
}

/// The instant a count of Unix seconds names on this scale.
pub fn tai_unix(unix_time: u64) -> (r: Tai)
    requires
        TAI_OFFSET + unix_time <= u64::MAX,
    ensures
        r.0 == TAI_OFFSET + unix_time,
{
    Tai(TAI_OFFSET + unix_time)
}

/// Relies on `std::time::SystemTime::elapsed`, applied to `UNIX_EPOCH`, for
/// the seconds since the Unix epoch; `Duration::as_secs` converts the result.
/// A clock set before the epoch reads as zero. Nothing can be promised of a
/// clock reading.
#[verifier::external_body]
fn unix_now_secs() -> u64 {
    match std::time::UNIX_EPOCH.elapsed() {
        Ok(d) => d.as_secs(),
        Err(_) => 0,
    }
}

/// The process's best estimate of the current instant, clamped to the
/// largest representable value if the clock runs past it.
pub fn now() -> (r: Tai)
    ensures
        r.0 >= TAI_OFFSET,
{
    let secs = unix_now_secs();
    if secs <= u64::MAX - TAI_OFFSET {
        tai_unix(secs)
    } else {
        Tai(u64::MAX)
    }
}

/// 256 raised to `n`: the count of values an `n`-byte field can hold.
pub open spec fn pow256(n: nat) -> nat
    decreases n,
{
    if n == 0 {
        1
    } else {
        256 * pow256((n - 1) as nat)
    }
}

proof fn lemma_pow256_le(i: nat, j: nat)
    requires
        i <= j,
    ensures
        pow256(i) <= pow256(j),
    decreases j,
{
    if i < j {
        lemma_pow256_le(i, (j - 1) as nat);
    }
}

proof fn lemma_be_val_step(s: Seq<u8>, i: int)
    requires
        0 <= i < s.len(),
    ensures
        be_val(s.take(i + 1)) == be_val(s.take(i)) * 256 + s[i],
{
    assert(s.take(i + 1).drop_last() =~= s.take(i));
    assert(s.take(i + 1).last() == s[i]);
}

/// Decode an 8-byte big-endian wire record; every 8-byte input is legal.
pub fn unpack(packed_tai: &[u8]) -> (r: Tai)
    requires
        packed_tai@.len() == 8,
    ensures
        r.0 == be_val(packed_tai@),
{
    proof {
        reveal_with_fuel(pow256, 9);
    }
    let mut x: u64 = 0;
    let mut i: usize = 0;
    while i < 8
        invariant
            i <= 8,
            packed_tai@.len() == 8,
            x == be_val(packed_tai@.take(i as int)),
            x < pow256(i as nat),
        decreases 8 - i,
    {
        proof {
            lemma_be_val_step(packed_tai@, i as int);
            lemma_pow256_le(i as nat, 7);
            reveal_with_fuel(pow256, 9);
        }
        x = x * 256 + (packed_tai[i] as u64);
        i = i + 1;
    }
    proof {
        assert(packed_tai@.take(8) =~= packed_tai@);
    }
    Tai(x)
}

/// The wire decoding is injective: equal decoded values come only from equal
/// byte records of the same length.
pub proof fn lemma_be_val_injective(s1: Seq<u8>, s2: Seq<u8>)
    requires
        s1.len() == s2.len(),
        be_val(s1) == be_val(s2),
    ensures
        s1 =~= s2,
    decreases s1.len(),
{
    if s1.len() > 0 {
        assert(be_val(s1.drop_last()) == be_val(s2.drop_last()) && s1.last() == s2.last());
        lemma_be_val_injective(s1.drop_last(), s2.drop_last());
        assert(s1 =~= s1.drop_last().push(s1.last()));
        assert(s2 =~= s2.drop_last().push(s2.last()));
    } else {
        assert(s1 =~= s2);
    }
}

/// Subtracting an instant that is later or equal yields the zero duration.
pub proof fn lemma_sub_clamps(a: Tai, b: Tai)
    requires
        a.0 <= b.0,
    ensures
        clamped_sub(a.0, b.0) == 0,
{
}

/// Subtraction inverts addition whenever the sum is representable, so no
/// clamping applies.
pub proof fn lemma_add_sub_inverse(a: Tai, b: Tai)
    requires
        a.0 + b.0 <= u64::MAX,
    ensures
        clamped_sub((a.0 + b.0) as u64, b.0) == a.0,
{
}

} // verus!
