//! The selection-expression parser: operator-typed text naming service
//! indices through singletons (`"7"`), closed ranges (`"3-15"`) and
//! open-ended ranges (`"1-"`), separated by any run of whitespace and
//! commas. Malformed tokens select nothing; they are never an error.
use vstd::prelude::*;
use vstd::slice::slice_subrange;
use vstd::string::StringSliceAdditionalSpecFns;

verus! {

/// One parsed selection range, inclusive at both ends; `hi == None` is an
/// open upper bound, resolved against the registry size at dispatch time.
#[derive(Debug, Copy, Clone, PartialEq, Eq)]
pub struct SelRange {
    pub lo: u32,
    pub hi: Option<u32>,
}

/// A byte that separates tokens: ASCII whitespace or a comma.
pub open spec fn is_delim(b: u8) -> bool {
    b == 32 || b == 44 || (9 <= b <= 13)
}

/// An ASCII decimal digit.
pub open spec fn is_digit(b: u8) -> bool {
    48 <= b <= 57
}

/// Every byte of `s` is a decimal digit.
pub open spec fn all_digits(s: Seq<u8>) -> bool {
    forall|j: int| 0 <= j < s.len() ==> is_digit(#[trigger] s[j])
}

/// The decimal value of a digit sequence, most significant digit first.
pub open spec fn digits_val(s: Seq<u8>) -> nat
    decreases s.len(),
{
    if s.len() == 0 {
        0
    } else {
        (digits_val(s.drop_last()) * 10 + (s.last() - 48)) as nat
    }
}

/// The length of the leading run of decimal digits.
pub open spec fn digit_run_len(s: Seq<u8>) -> nat
    decreases s.len(),
{
    if s.len() == 0 || !is_digit(s[0]) {
        0
    } else {
        1 + digit_run_len(s.drop_first())
    }
}

/// The length of the leading run of non-delimiter bytes.
pub open spec fn token_run_len(s: Seq<u8>) -> nat
    decreases s.len(),
{
    if s.len() == 0 || is_delim(s[0]) {
        0
    } else {
        1 + token_run_len(s.drop_first())
    }
}

/// The number a token of digits names: `None` for an empty token, a stray
/// byte, or a value that overflows the index type.
pub open spec fn spec_digit(s: Seq<u8>) -> Option<u32> {
    if s.len() >= 1 && all_digits(s) && digits_val(s) <= u32::MAX {
        Some(digits_val(s) as u32)
    } else {
        None
    }
}

/// The two halves of a token of the shape digits, dash, optional digits:
/// each half parsed on its own, and `(None, None)` for any other shape.
pub open spec fn spec_range_parts(s: Seq<u8>) -> (Option<u32>, Option<u32>) {
    let d = digit_run_len(s) as int;
    if 1 <= d < s.len() && s[d] == 45 && all_digits(s.skip(d + 1)) {
        (spec_digit(s.take(d)), spec_digit(s.skip(d + 1)))
    } else {
        (None, None)
    }
}

/// The selection range one token names, if any: a singleton for a token of
/// digits, a range for digits-dash-digits, an open range for digits-dash.
/// Any other shape, and any value that overflows, names nothing.
pub open spec fn token_sel(s: Seq<u8>) -> Option<SelRange> {
    let d = digit_run_len(s) as int;
    if s.len() >= 1 && d == s.len() {
        match spec_digit(s) {
            Some(v) => Some(SelRange { lo: v, hi: Some(v) }),
            None => None,
        }
    } else if 1 <= d < s.len() && s[d] == 45 && all_digits(s.skip(d + 1)) {
        match spec_digit(s.take(d)) {
            Some(lo) => if d + 1 == s.len() {
                Some(SelRange { lo, hi: None })
            } else {
                match spec_digit(s.skip(d + 1)) {
                    Some(hi) => Some(SelRange { lo, hi: Some(hi) }),
                    None => None,
                }
            },
            None => None,
        }
    } else {
        None
    }
}

/// A leading run is never longer than the sequence itself.
proof fn lemma_token_run_bound(s: Seq<u8>)
    ensures
        token_run_len(s) <= s.len(),
    decreases s.len(),
{
    if s.len() > 0 && !is_delim(s[0]) {
        lemma_token_run_bound(s.drop_first());
    }
}

/// The selection an input names: the ranges of its well-formed tokens, in
/// input order; malformed tokens are dropped.
pub open spec fn spec_parse(s: Seq<u8>) -> Seq<SelRange>
    decreases s.len(),
    via spec_parse_decreases
{
    if s.len() == 0 {
        Seq::empty()
    } else if is_delim(s[0]) {
        spec_parse(s.drop_first())
    } else {
        let k = 1 + token_run_len(s.drop_first()) as int;
        match token_sel(s.take(k)) {
            Some(r) => seq![r] + spec_parse(s.skip(k)),
            None => spec_parse(s.skip(k)),
        }
    }
}

#[via_fn]
proof fn spec_parse_decreases(s: Seq<u8>) {
    if s.len() > 0 && !is_delim(s[0]) {
        lemma_token_run_bound(s.drop_first());
    }
}

/// Index `i` lies in range `r`.
pub open spec fn in_range(r: SelRange, i: u32) -> bool {
    r.lo <= i && (match r.hi {
        Some(h) => i <= h,
        None => true,
    })
}

/// Some range of the parsed selection contains index `i`.
pub open spec fn covered(rs: Seq<SelRange>, i: u32) -> bool {
    exists|k: int| 0 <= k < rs.len() && #[trigger] in_range(rs[k], i)
}

fn is_delim_byte(b: u8) -> (r: bool)
    ensures
        r == is_delim(b),
{
    b == 32 || b == 44 || (9 <= b && b <= 13)
}

fn is_digit_byte(b: u8) -> (r: bool)
    ensures
        r == is_digit(b),
{
    48 <= b && b <= 57
}

proof fn lemma_digits_step(s: Seq<u8>, i: int)
    requires
        0 <= i < s.len(),
        is_digit(s[i]),
    ensures
        digits_val(s.take(i + 1)) == digits_val(s.take(i)) * 10 + (s[i] - 48),
{
    assert(s.take(i + 1).drop_last() =~= s.take(i));
    assert(s.take(i + 1).last() == s[i]);
}

/// Appending digits never shrinks the decimal value.
proof fn lemma_digits_val_extend(s: Seq<u8>, i: int)
    requires
        0 <= i <= s.len(),
        forall|j: int| i <= j < s.len() ==> is_digit(#[trigger] s[j]),
    ensures
        digits_val(s.take(i)) <= digits_val(s),
    decreases s.len() - i,
{
    if i < s.len() {
        lemma_digits_step(s, i);
        lemma_digits_val_extend(s, i + 1);
    } else {
        assert(s.take(i) =~= s);
    }
}

/// A run that the bytes themselves delimit has exactly that length.
proof fn lemma_digit_run_len(s: Seq<u8>, k: int)
    requires
        0 <= k <= s.len(),
        forall|j: int| 0 <= j < k ==> is_digit(#[trigger] s[j]),
        k == s.len() || !is_digit(s[k]),
    ensures
        digit_run_len(s) == k,
    decreases s.len(),
{
    if k == 0 {
    } else {
        assert(is_digit(s[0]));
        lemma_digit_run_len(s.drop_first(), k - 1);
    }
}

proof fn lemma_token_run_len(s: Seq<u8>, k: int)
    requires
        0 <= k <= s.len(),
        forall|j: int| 0 <= j < k ==> !is_delim(#[trigger] s[j]),
        k == s.len() || is_delim(s[k]),
    ensures
        token_run_len(s) == k,
    decreases s.len(),
{
    if k == 0 {
    } else {
        assert(!is_delim(s[0]));
        lemma_token_run_len(s.drop_first(), k - 1);
    }
}

/// A delimiter byte contributes nothing to the parse.
proof fn lemma_parse_at_delim(s: Seq<u8>, i: int)
    requires
        0 <= i < s.len(),
        is_delim(s[i]),
    ensures
        spec_parse(s.skip(i)) == spec_parse(s.skip(i + 1)),
{
    assert(s.skip(i).drop_first() =~= s.skip(i + 1));
    assert(s.skip(i)[0] == s[i]);
}

/// A maximal non-delimiter run starting at `i` and ending at `j` parses as
/// one token followed by the parse of the rest.
proof fn lemma_parse_at_token(s: Seq<u8>, i: int, j: int)
    requires
        0 <= i < j <= s.len(),
        forall|m: int| i <= m < j ==> !is_delim(#[trigger] s[m]),
        j == s.len() || is_delim(s[j]),
    ensures
        spec_parse(s.skip(i)) == match token_sel(s.subrange(i, j)) {
            Some(r) => seq![r] + spec_parse(s.skip(j)),
            None => spec_parse(s.skip(j)),
        },
{
    let t = s.skip(i);
    assert(forall|m: int| 0 <= m < j - i ==> t[m] == s[i + m]);
    lemma_token_run_len(t, j - i);
    assert(!is_delim(t[0]));
    assert(t.take(j - i) =~= s.subrange(i, j));
    assert(t.skip(j - i) =~= s.skip(j));
}

/// The decimal value of a slice of digits: `Some` exactly when it fits the
/// index type.
fn digits_to_u32(s: &[u8]) -> (r: Option<u32>)
    requires
        forall|j: int| 0 <= j < s@.len() ==> is_digit(#[trigger] s@[j]),
    ensures
        r == if digits_val(s@) <= u32::MAX {
            Some(digits_val(s@) as u32)
        } else {
            None::<u32>
        },
{
    let n = s.len();
    let mut acc: u32 = 0;
    let mut i: usize = 0;
    while i < n
        invariant
            i <= n,
            n == s@.len(),
            forall|j: int| 0 <= j < s@.len() ==> is_digit(#[trigger] s@[j]),
            acc == digits_val(s@.take(i as int)),
        decreases n - i,
    {
        proof {
            lemma_digits_step(s@, i as int);
        }
        let d = s[i] - 48;
        let wide: u64 = acc as u64 * 10 + d as u64;
        if wide > u32::MAX as u64 {
            proof {
                lemma_digits_val_extend(s@, i + 1);
            }
            return None;
        }
        acc = wide as u32;
        i = i + 1;
    }
    proof {
        assert(s@.take(n as int) =~= s@);
    }
    Some(acc)
}

/// The length of the leading digit run of a slice.
fn digit_run(s: &[u8]) -> (d: usize)
    ensures
        d == digit_run_len(s@),
        d <= s@.len(),
        forall|j: int| 0 <= j < d ==> is_digit(#[trigger] s@[j]),
        d < s@.len() ==> !is_digit(s@[d as int]),
{
    let n = s.len();
    let mut i: usize = 0;
    while i < n && is_digit_byte(s[i])
        invariant
            i <= n,
            n == s@.len(),
            forall|j: int| 0 <= j < i ==> is_digit(#[trigger] s@[j]),
        decreases n - i,
    {
        i = i + 1;
    }
    proof {
        lemma_digit_run_len(s@, i as int);
    }
    i
}

/// True when every byte of the slice is a digit.
fn all_digits_check(s: &[u8]) -> (r: bool)
    ensures
        r == all_digits(s@),
{
    let n = s.len();
    let mut i: usize = 0;
    while i < n
        invariant
            i <= n,
            n == s@.len(),
            forall|j: int| 0 <= j < i ==> is_digit(#[trigger] s@[j]),
        decreases n - i,
    {
        if !is_digit_byte(s[i]) {
            return false;
        }
        i = i + 1;
    }
    true
}

/// Parse one token of operator input as the number it names.
pub fn get_digit(input: &str) -> (r: Option<u32>)
    ensures
        r == spec_digit(input.spec_bytes()),
{
    let bytes = input.as_bytes();
    if bytes.len() == 0 {
        return None;
    }
    if !all_digits_check(bytes) {
        return None;
    }
    digits_to_u32(bytes)
}

/// Split one token of the shape digits, dash, optional digits into its two
/// bounds, each parsed on its own; any other shape yields `(None, None)`.
pub fn get_range(input: &str) -> (r: (Option<u32>, Option<u32>))
    ensures
        r == spec_range_parts(input.spec_bytes()),
{
    let bytes = input.as_bytes();
    let n = bytes.len();
    let d = digit_run(bytes);
    if d < 1 || d >= n || bytes[d] != 45 {
        return (None, None);
    }
    let suffix = slice_subrange(bytes, d + 1, n);
    proof {
        assert(bytes@.subrange(d + 1, n as int) =~= bytes@.skip(d + 1));
        assert(bytes@.subrange(0, d as int) =~= bytes@.take(d as int));
    }
    if !all_digits_check(suffix) {
        return (None, None);
    }
    let bottom = digits_to_u32(slice_subrange(bytes, 0, d));
    let top = if suffix.len() == 0 {
        None
    } else {
        digits_to_u32(suffix)
    };
    (bottom, top)
}

/// The selection range one token names, if any.
fn token_to_sel(tok: &[u8]) -> (r: Option<SelRange>)
    ensures
        r == token_sel(tok@),
{
    let n = tok.len();
    let d = digit_run(tok);
    if n >= 1 && d == n {
        match digits_to_u32(tok) {
            Some(v) => Some(SelRange { lo: v, hi: Some(v) }),
            None => None,
        }
    } else if 1 <= d && d < n && tok[d] == 45 {
        let suffix = slice_subrange(tok, d + 1, n);
        proof {
            assert(tok@.subrange(d + 1, n as int) =~= tok@.skip(d + 1));
            assert(tok@.subrange(0, d as int) =~= tok@.take(d as int));
        }
        if !all_digits_check(suffix) {
            return None;
        }
        match digits_to_u32(slice_subrange(tok, 0, d)) {
            Some(lo) => {
                if d + 1 == n {
                    Some(SelRange { lo, hi: None })
                } else {
                    match digits_to_u32(suffix) {
                        Some(hi) => Some(SelRange { lo, hi: Some(hi) }),
                        None => None,
                    }
                }
            },
            None => None,
        }
    } else {
        None
    }
}

/// Parse operator input into the selection it names: the ranges of its
/// well-formed tokens in input order, malformed tokens dropped.
pub fn get_commands(input: &str) -> (r: Vec<SelRange>)
    ensures
        r@ == spec_parse(input.spec_bytes()),
{
    let bytes = input.as_bytes();
    let n = bytes.len();
    let mut out: Vec<SelRange> = Vec::new();
    let mut i: usize = 0;
    proof {
        assert(bytes@.skip(0) =~= bytes@);
        assert(Seq::<SelRange>::empty() + spec_parse(bytes@) =~= spec_parse(bytes@));
    }
    while i < n
        invariant
            i <= n,
            n == bytes@.len(),
            bytes@ == input.spec_bytes(),
            spec_parse(bytes@) == out@ + spec_parse(bytes@.skip(i as int)),
        decreases n - i,
    {
        if is_delim_byte(bytes[i]) {
            proof {
                lemma_parse_at_delim(bytes@, i as int);
            }
            i = i + 1;
        } else {
            let start = i;
            i = i + 1;
            while i < n && !is_delim_byte(bytes[i])
                invariant
                    start < i <= n,
                    n == bytes@.len(),
                    forall|m: int| start <= m < i ==> !is_delim(#[trigger] bytes@[m]),
                decreases n - i,
            {
                i = i + 1;
            }
            let tok = slice_subrange(bytes, start, i);
            proof {
                lemma_parse_at_token(bytes@, start as int, i as int);
            }
            match token_to_sel(tok) {
                Some(r) => {
                    proof {
                        assert(out@.push(r) + spec_parse(bytes@.skip(i as int)) =~= out@ + (seq![r]
                            + spec_parse(bytes@.skip(i as int))));
                    }
                    out.push(r);
                },
                None => {},
            }
        }
    }
    proof {
        assert(bytes@.skip(n as int) =~= Seq::<u8>::empty());
        assert(out@ + Seq::<SelRange>::empty() =~= out@);
    }
    out
}

/// Whether index `i` falls in range `r`.
fn in_range_exec(r: &SelRange, i: u32) -> (b: bool)
    ensures
        b == in_range(*r, i),
{
    r.lo <= i && (match r.hi {
        Some(h) => i <= h,
        None => true,
    })
}

/// Whether some range of the selection contains index `i`.
fn covered_exec(rs: &Vec<SelRange>, i: u32) -> (b: bool)
    ensures
        b == covered(rs@, i),
{
    let n = rs.len();
    let mut k: usize = 0;
    while k < n
        invariant
            k <= n,
            n == rs@.len(),
            forall|m: int| 0 <= m < k ==> !in_range(#[trigger] rs@[m], i),
        decreases n - k,
    {
        if in_range_exec(&rs[k], i) {
            return true;
        }
        k = k + 1;
    }
    false
}

/// Resolve a parsed selection against a registry of `n` services: the
/// indices below `n` that some range contains, in increasing order, each
/// once. An open upper bound reaches the last live index, so the same
/// expression resolves afresh against the current registry size.
pub fn resolve(expr: &Vec<SelRange>, n: usize) -> (r: Vec<u32>)
    requires
        n <= u32::MAX as usize,
    ensures
        forall|k: int| 0 <= k < r@.len() ==> (#[trigger] r@[k]) < n && covered(expr@, r@[k]),
        forall|i: u32| i < n && covered(expr@, i) ==> r@.contains(i),
        forall|k1: int, k2: int| 0 <= k1 < k2 < r@.len() ==> r@[k1] < r@[k2],
{
    let mut out: Vec<u32> = Vec::new();
    let mut i: usize = 0;
    while i < n
        invariant
            i <= n,
            n <= u32::MAX as usize,
            forall|k: int| 0 <= k < out@.len() ==> (#[trigger] out@[k]) < i && covered(
                expr@,
                out@[k],
            ),
            forall|j: u32| j < i && covered(expr@, j) ==> out@.contains(j),
            forall|k1: int, k2: int| 0 <= k1 < k2 < out@.len() ==> out@[k1] < out@[k2],
        decreases n - i,
    {
        let ghost old_out = out@;
        if covered_exec(expr, i as u32) {
            out.push(i as u32);
            proof {
                assert forall|j: u32| j < i + 1 && covered(expr@, j) implies out@.contains(j) by {
                    if j < i {
                        let k = choose|k: int| 0 <= k < old_out.len() && old_out[k] == j;
                        assert(out@[k] == j);
                    } else {
                        assert(out@[old_out.len() as int] == i as u32);
                    }
                }
            }
        } else {
            proof {
                assert forall|j: u32| j < i + 1 && covered(expr@, j) implies out@.contains(j) by {
                    assert(j < i);
                }
            }
        }
        i = i + 1;
    }
    out
}

/// A range with an open upper bound covers every index from its lower bound
/// up: with `resolve`, the same parsed expression therefore selects through
/// the last index of whatever registry it is resolved against.
pub proof fn lemma_open_bound_tracks_registry(rs: Seq<SelRange>, k: int, i: u32)
    requires
        0 <= k < rs.len(),
        rs[k].hi is None,
        rs[k].lo <= i,
    ensures
        covered(rs, i),
{
    assert(in_range(rs[k], i));
}

} // verus!
