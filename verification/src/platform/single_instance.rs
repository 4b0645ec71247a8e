//! One running copy per installed copy.
//!
//! The identity is the folder the executable lives in, not the user: a copy on a stick and a copy
//! on a disk are two different installs. A second launch of the same folder is a request, not an
//! error: the copy already running is told to show its window.

use crate::text::{chars_of, concat2};
use vstd::prelude::*;

verus! {

/// Where a fingerprint begins.
pub const OFFSET: u64 = 0xcbf2_9ce4_8422_2325;

/// What each step of a fingerprint multiplies by.
pub const PRIME: u64 = 0x100_0000_01b3;

/// What `str::to_uppercase` makes of a text.
pub uninterp spec fn uppercase(text: Seq<char>) -> Seq<char>;

/// `str::to_uppercase`: the uppercase equivalent of the text, a function of the text alone.
#[verifier::external_body]
fn to_uppercase(text: &str) -> (r: String)
    ensures
        r@ == uppercase(text@),
{
    text.to_uppercase()
}

/// One step of FNV-1a: the byte is folded in, and what no longer fits is let go.
pub open spec fn step(hash: u64, byte: u8) -> u64 {
    (((hash ^ (byte as u64)) * PRIME) % 0x1_0000_0000_0000_0000) as u64
}

/// FNV-1a over some bytes.
pub open spec fn fnv(bytes: Seq<u8>) -> u64
    decreases bytes.len(),
{
    if bytes.len() == 0 {
        OFFSET
    } else {
        step(fnv(bytes.drop_last()), bytes.last())
    }
}

/// What an install folder is known by. Paths are case-insensitive, so `C:\App` and `c:\app` are
/// one install.
pub open spec fn identity(directory: Seq<char>) -> u64 {
    fnv(vstd::utf8::encode_utf8(uppercase(directory)))
}

/// A stable, case-insensitive fingerprint of the install folder.
///
/// FNV-1a rather than the standard hasher, whose output is explicitly not promised to be stable,
/// and this name has to mean the same thing to a build from six months ago.
pub fn fingerprint(directory: &str) -> (r: u64)
    ensures
        r == identity(directory@),
{
    let upper = to_uppercase(directory);
    let bytes = upper.as_str().as_bytes();
    let mut hash: u64 = OFFSET;
    let mut i: usize = 0;
    proof {
        assert(bytes@.take(0) =~= Seq::empty());
    }
    while i < bytes.len()
        invariant
            i <= bytes@.len(),
            hash == fnv(bytes@.take(i as int)),
        decreases bytes@.len() - i,
    {
        proof {
            assert(bytes@.take(i + 1).drop_last() =~= bytes@.take(i as int));
            assert(bytes@.take(i + 1).last() == bytes@[i as int]);
        }
        hash = (hash ^ (bytes[i] as u64)).wrapping_mul(PRIME);
        i = i + 1;
    }
    proof {
        assert(bytes@.take(bytes@.len() as int) =~= bytes@);
    }
    hash
}

/// What undoes a step's multiplication, among the numbers of sixty-four bits.
const UNDO: u64 = 0xce96_5057_aff6_957b;

/// No two numbers are multiplied to the same one.
proof fn lemma_multiplied_apart(one: u64, other: u64)
    requires
        (one * PRIME) % 0x1_0000_0000_0000_0000 == (other * PRIME) % 0x1_0000_0000_0000_0000,
    ensures
        one == other,
{
    lemma_undone(one);
    lemma_undone(other);
}

/// The number comes back from its product.
proof fn lemma_undone(n: u64)
    ensures
        (((n * PRIME) % 0x1_0000_0000_0000_0000) * UNDO) % 0x1_0000_0000_0000_0000 == n,
{
    let m: int = 0x1_0000_0000_0000_0000;
    let product: int = n * PRIME;
    let over: int = product / m;
    let left: int = product % m;
    vstd::arithmetic::div_mod::lemma_fundamental_div_mod(product, m);
    let turns: int = n * 0xce_9650_590f - over * UNDO;
    assert(left * UNDO == m * turns + n) by (nonlinear_arith)
        requires
            product == n * PRIME,
            product == m * over + left,
            m == 0x1_0000_0000_0000_0000,
            PRIME * UNDO == m * 0xce_9650_590f + 1,
            turns == n * 0xce_9650_590f - over * UNDO,
    {
        assert(left * UNDO == n * (PRIME * UNDO) - m * (over * UNDO));
        assert(n * (PRIME * UNDO) == m * (n * 0xce_9650_590f) + n);
        assert(m * turns == m * (n * 0xce_9650_590f) - m * (over * UNDO));
    }
    vstd::arithmetic::div_mod::lemma_mod_multiples_vanish(turns, n as int, m);
    vstd::arithmetic::div_mod::lemma_small_mod(n as nat, m as nat);
}

/// Bytes that differ in one place have different hashes.
proof fn lemma_one_byte_tells(one: Seq<u8>, other: Seq<u8>, at: int)
    requires
        0 <= at < one.len() == other.len(),
        one[at] != other[at],
        forall|k: int| 0 <= k < one.len() && k != at ==> #[trigger] one[k] == other[k],
    ensures
        fnv(one) != fnv(other),
    decreases one.len(),
{
    let last = one.len() - 1;
    let before = fnv(one.drop_last());
    let beside = fnv(other.drop_last());
    let a: u8 = one.last();
    let b: u8 = other.last();
    if at == last {
        assert(one.drop_last() =~= other.drop_last());
        assert(before ^ (a as u64) != before ^ (b as u64)) by (bit_vector)
            requires
                a != b,
        ;
    } else {
        assert(one[last] == other[last]);
        lemma_one_byte_tells(one.drop_last(), other.drop_last(), at);
        assert(before ^ (a as u64) != beside ^ (a as u64)) by (bit_vector)
            requires
                before != beside,
        ;
    }
    if fnv(one) == fnv(other) {
        lemma_multiplied_apart(before ^ (a as u64), beside ^ (b as u64));
    }
}

/// Two folders whose uppercase names differ in a single byte, such as the letter of the drive, are
/// two installs.
pub proof fn law_one_byte_makes_another_install(one: Seq<char>, other: Seq<char>, at: int)
    requires
        ({
            let bytes = vstd::utf8::encode_utf8(uppercase(one));
            let others = vstd::utf8::encode_utf8(uppercase(other));
            &&& 0 <= at < bytes.len() == others.len()
            &&& bytes[at] != others[at]
            &&& forall|k: int|
                0 <= k < bytes.len() && k != at ==> #[trigger] bytes[k] == others[k]
        }),
    ensures
        identity(one) != identity(other),
{
    lemma_one_byte_tells(
        vstd::utf8::encode_utf8(uppercase(one)),
        vstd::utf8::encode_utf8(uppercase(other)),
        at,
    );
}

/// The digit for a number below sixteen.
pub open spec fn hex_digit(n: int) -> char {
    if n < 10 {
        ('0' as int + n) as char
    } else {
        ('a' as int + n - 10) as char
    }
}

/// A number in `width` hexadecimal digits, with zeros before it.
pub open spec fn hex(n: nat, width: nat) -> Seq<char>
    decreases width,
{
    if width == 0 {
        Seq::empty()
    } else {
        hex(n / 16, (width - 1) as nat).push(hex_digit((n % 16) as int))
    }
}

/// A number in `width` hexadecimal digits.
fn hex_text(n: u64, width: u32) -> (r: String)
    ensures
        r@ == hex(n as nat, width as nat),
    decreases width,
{
    if width == 0 {
        return String::new();
    }
    let mut out = hex_text(n / 16, width - 1);
    let digit: u8 = (n % 16) as u8;
    let c = if digit < 10 {
        (48u8 + digit) as char
    } else {
        (97u8 + (digit - 10)) as char
    };
    out.push(c);
    out
}

/// The name of the claim on an install. It belongs to one logon session: naming it globally would
/// need privileges an ordinary program has no business asking for.
pub open spec fn claim_name(id: u64) -> Seq<char> {
    "Local\\SyncMaid-"@ + hex(id as nat, 16)
}

/// The name of the claim on an install.
pub fn mutex_name(id: u64) -> (r: String)
    ensures
        r@ == claim_name(id),
{
    concat2("Local\\SyncMaid-", hex_text(id, 16).as_str())
}

/// The name of the event by which a later launch asks the running copy to show itself.
pub fn event_name(id: u64) -> (r: String)
    ensures
        r@ == claim_name(id) + "-show"@,
{
    concat2(mutex_name(id).as_str(), "-show")
}

/// A character in UTF-16: one unit, or a surrogate pair for what does not fit in one.
pub open spec fn utf16(c: char) -> Seq<u16> {
    let n = c as u32 as int;
    if n < 0x1_0000 {
        seq![n as u16]
    } else {
        seq![
            (0xd800 + (n - 0x1_0000) / 0x400) as u16,
            (0xdc00 + (n - 0x1_0000) % 0x400) as u16,
        ]
    }
}

/// A text in UTF-16.
pub open spec fn utf16_text(text: Seq<char>) -> Seq<u16>
    decreases text.len(),
{
    if text.len() == 0 {
        Seq::empty()
    } else {
        utf16_text(text.drop_last()) + utf16(text.last())
    }
}

/// A text in UTF-16 with a zero behind it, as the system takes it.
pub fn wide(text: &str) -> (r: Vec<u16>)
    ensures
        r@ == utf16_text(text@).push(0),
{
    let chars = chars_of(text);
    let mut out: Vec<u16> = Vec::new();
    let mut i: usize = 0;
    proof {
        assert(text@.take(0) =~= Seq::empty());
    }
    while i < chars.len()
        invariant
            i <= chars@.len(),
            chars@ == text@,
            out@ == utf16_text(text@.take(i as int)),
        decreases chars@.len() - i,
    {
        let c = chars[i];
        let ghost before = out@;
        proof {
            assert(text@.take(i + 1).drop_last() =~= text@.take(i as int));
            assert(text@.take(i + 1).last() == c);
            vstd::utf8::char_is_scalar(c);
        }
        let n: u32 = c as u32;
        if n < 0x1_0000 {
            out.push(n as u16);
        } else {
            let rest: u32 = n - 0x1_0000;
            out.push((0xd800 + rest / 0x400) as u16);
            out.push((0xdc00 + rest % 0x400) as u16);
        }
        proof {
            assert(out@ =~= before + utf16(c));
        }
        i = i + 1;
    }
    proof {
        assert(text@.take(text@.len() as int) =~= text@);
    }
    out.push(0);
    out
}

/// What to do about other copies of this install.
#[derive(Debug, Clone, Copy, PartialEq, Eq, Structural)]
pub enum Launch {
    /// This process is the one: hold the claim, and listen for knocks.
    First,
    /// There is nothing to coordinate through. Starting anyway is the lesser failure.
    Unguarded,
    /// A copy of this install is already running: let go of the claim and knock.
    Another,
}

/// What a launch found. `claimed` says whether someone held the claim already, where it could be
/// made at all.
pub fn acquire(claimed: Option<bool>) -> (r: Launch)
    ensures
        r == match claimed {
            None => Launch::Unguarded,
            Some(true) => Launch::Another,
            Some(false) => Launch::First,
        },
{
    match claimed {
        None => Launch::Unguarded,
        Some(already) => if already {
            Launch::Another
        } else {
            Launch::First
        },
    }
}

/// Two folders that differ in case alone are one install.
pub proof fn law_the_fingerprint_ignores_case(one: Seq<char>, other: Seq<char>)
    requires
        uppercase(one) == uppercase(other),
    ensures
        identity(one) == identity(other),
{
}

/// A digit tells its number.
proof fn lemma_hex_digit(a: int, b: int)
    requires
        0 <= a < 16,
        0 <= b < 16,
        hex_digit(a) == hex_digit(b),
    ensures
        a == b,
{
}

/// Numbers that fit are told apart by their digits.
proof fn lemma_hex(a: nat, b: nat, width: nat)
    requires
        a < vstd::arithmetic::power::pow(16, width),
        b < vstd::arithmetic::power::pow(16, width),
        hex(a, width) == hex(b, width),
    ensures
        a == b,
    decreases width,
{
    if width == 0 {
        vstd::arithmetic::power::lemma_pow0(16);
    } else {
        let rest = (width - 1) as nat;
        let left = hex(a / 16, rest);
        let right = hex(b / 16, rest);
        assert(left.push(hex_digit((a % 16) as int)).drop_last() =~= left);
        assert(right.push(hex_digit((b % 16) as int)).drop_last() =~= right);
        assert(left.push(hex_digit((a % 16) as int)).last() == hex_digit((a % 16) as int));
        assert(right.push(hex_digit((b % 16) as int)).last() == hex_digit((b % 16) as int));
        lemma_hex_digit((a % 16) as int, (b % 16) as int);
        assert(vstd::arithmetic::power::pow(16, width) == 16 * vstd::arithmetic::power::pow(
            16,
            rest,
        )) by {
            reveal(vstd::arithmetic::power::pow);
        }
        lemma_hex(a / 16, b / 16, rest);
    }
}

/// Two installs that are known by different fingerprints never share a claim.
pub proof fn law_claims_are_as_distinct_as_fingerprints(one: u64, other: u64)
    requires
        claim_name(one) == claim_name(other),
    ensures
        one == other,
{
    let front = "Local\\SyncMaid-"@;
    assert(claim_name(one).skip(front.len() as int) =~= hex(one as nat, 16));
    assert(claim_name(other).skip(front.len() as int) =~= hex(other as nat, 16));
    assert(vstd::arithmetic::power::pow(16, 16) == 0x1_0000_0000_0000_0000) by {
        reveal_with_fuel(vstd::arithmetic::power::pow, 17);
    }
    lemma_hex(one as nat, other as nat, 16);
}

} // verus!
