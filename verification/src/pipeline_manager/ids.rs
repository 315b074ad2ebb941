//! Identifiers of tenants, projects, programs and pipelines.

use uuid::Uuid;
use vstd::prelude::*;

verus! {

/// The lower-case hexadecimal digit of a number below sixteen.
pub open spec fn hex_digit(d: nat) -> char {
    if d < 10 {
        crate::text::digit(d)
    } else if d == 10 {
        'a'
    } else if d == 11 {
        'b'
    } else if d == 12 {
        'c'
    } else if d == 13 {
        'd'
    } else if d == 14 {
        'e'
    } else {
        'f'
    }
}

/// The last `len` hexadecimal digits of a number.
pub open spec fn hex_digits(n: nat, len: nat) -> Seq<char>
    decreases len,
{
    if len == 0 {
        Seq::empty()
    } else {
        hex_digits(n / 16, (len - 1) as nat).push(hex_digit(n % 16))
    }
}

/// The text of an identifier: its hexadecimal digits in five groups with hyphens
/// between them.
pub open spec fn id_text(n: u128) -> Seq<char> {
    let h = hex_digits(n as nat, 32);
    h.subrange(0, 8) + seq!['-'] + h.subrange(8, 12) + seq!['-'] + h.subrange(12, 16) + seq!['-']
        + h.subrange(16, 20) + seq!['-'] + h.subrange(20, 32)
}

/// Shows the identifier with the given bits by the `Display` of `uuid::Uuid`:
/// lower-case hexadecimal digits, most significant first, in groups of 8, 4, 4, 4
/// and 12.
#[verifier::external_body]
fn uuid_text(bits: u128) -> (r: String)
    ensures
        r@ == id_text(bits),
{
    Uuid::from_u128(bits).to_string()
}

/// The bits carry a version number and the usual variant.
pub open spec fn has_version(bits: u128, version: nat) -> bool {
    &&& (bits as nat / 0x1000_0000_0000_0000_0000) % 16 == version
    &&& (bits as nat / 0x4000_0000_0000_0000) % 4 == 2
}

/// Calls `uuid::Uuid::new_v4`, which makes an identifier by chance; its version is
/// always the same.
#[verifier::external_body]
fn random_bits() -> (r: u128)
    ensures
        has_version(r, 4),
{
    Uuid::new_v4().as_u128()
}

/// Calls `uuid::Uuid::now_v7`, which makes an identifier from the time and by
/// chance; its version is always the same.
#[verifier::external_body]
fn timed_bits() -> (r: u128)
    ensures
        has_version(r, 7),
{
    Uuid::now_v7().as_u128()
}

/// The text of an identifier with the given bits.
pub fn show_id(bits: u128) -> (r: String)
    ensures
        r@ == id_text(bits),
{
    uuid_text(bits)
}

/// The text of a new random identifier: that of some bits.
pub fn random_id() -> (r: String)
    ensures
        exists|bits: u128| r@ == #[trigger] id_text(bits) && has_version(bits, 4),
{
    uuid_text(random_bits())
}

/// The bits of a new identifier that grows with time.
pub fn revision_bits() -> (r: u128)
    ensures
        has_version(r, 7),
{
    timed_bits()
}

/// Sixteen to the power of `len`.
pub open spec fn hex_limit(len: nat) -> nat
    decreases len,
{
    if len == 0 {
        1
    } else {
        16 * hex_limit((len - 1) as nat)
    }
}

proof fn lemma_hex_len(n: nat, len: nat)
    ensures
        hex_digits(n, len).len() == len,
    decreases len,
{
    if len > 0 {
        lemma_hex_len(n / 16, (len - 1) as nat);
    }
}

/// Numbers of at most `len` digits differ where their digits differ.
proof fn lemma_hex_injective(m: nat, n: nat, len: nat)
    requires
        m < hex_limit(len),
        n < hex_limit(len),
        hex_digits(m, len) == hex_digits(n, len),
    ensures
        m == n,
    decreases len,
{
    if len > 0 {
        let k = (len - 1) as nat;
        lemma_hex_len(m / 16, k);
        lemma_hex_len(n / 16, k);
        let a = hex_digits(m, len);
        let b = hex_digits(n, len);
        assert(a.last() == b.last());
        assert(a.drop_last() =~= hex_digits(m / 16, k));
        assert(b.drop_last() =~= hex_digits(n / 16, k));
        lemma_hex_injective(m / 16, n / 16, k);
        assert(m % 16 == n % 16);
    }
}

/// Different identifiers have different texts.
pub proof fn different_ids_differ_in_text(m: u128, n: u128)
    requires
        m != n,
    ensures
        id_text(m) != id_text(n),
{
    if id_text(m) == id_text(n) {
        let a = hex_digits(m as nat, 32);
        let b = hex_digits(n as nat, 32);
        lemma_hex_len(m as nat, 32);
        lemma_hex_len(n as nat, 32);
        let s = id_text(m);
        let t = id_text(n);
        assert forall|i: int| 0 <= i < 32 implies a[i] == b[i] by {
            if i < 8 {
                assert(s[i] == a[i] && t[i] == b[i]);
            } else if i < 12 {
                assert(s[i + 1] == a[i] && t[i + 1] == b[i]);
            } else if i < 16 {
                assert(s[i + 2] == a[i] && t[i + 2] == b[i]);
            } else if i < 20 {
                assert(s[i + 3] == a[i] && t[i + 3] == b[i]);
            } else {
                assert(s[i + 4] == a[i] && t[i + 4] == b[i]);
            }
        }
        assert(a =~= b);
        reveal_with_fuel(hex_limit, 33);
        lemma_hex_injective(m as nat, n as nat, 32);
    }
}

/// A pipeline.
#[derive(Debug, Clone, Copy, PartialEq, Eq, Structural)]
pub struct PipelineId(pub u128);

/// A project.
#[derive(Debug, Clone, Copy, PartialEq, Eq, Structural)]
pub struct ProjectId(pub u128);

/// A tenant.
#[derive(Debug, Clone, Copy, PartialEq, Eq, Structural)]
pub struct TenantId(pub u128);

impl PipelineId {
    /// The text of the identifier.
    pub open spec fn text(self) -> Seq<char> {
        id_text(self.0)
    }

    /// Shows the identifier.
    pub fn to_text(self) -> (r: String)
        ensures
            r@ == self.text(),
    {
        uuid_text(self.0)
    }
}

impl ProjectId {
    /// The text of the identifier.
    pub open spec fn text(self) -> Seq<char> {
        id_text(self.0)
    }

    /// Shows the identifier.
    pub fn to_text(self) -> (r: String)
        ensures
            r@ == self.text(),
    {
        uuid_text(self.0)
    }
}

/// The value of a lower-case hexadecimal digit by its code, or sixteen.
pub open spec fn hex_value(c: char) -> int {
    let n = c as u32;
    if 48 <= n <= 57 {
        n - 48
    } else if 97 <= n <= 102 {
        n - 87
    } else {
        16
    }
}

/// The number that a run of hexadecimal digits stands for.
pub open spec fn hex_number(s: Seq<char>) -> int
    decreases s.len(),
{
    if s.len() == 0 {
        0
    } else {
        16 * hex_number(s.drop_last()) + hex_value(s.last())
    }
}

proof fn lemma_hex_read_back(n: nat, len: nat)
    requires
        n < hex_limit(len),
    ensures
        hex_number(hex_digits(n, len)) == n,
        hex_digits(n, len).len() == len,
        forall|i: int| 0 <= i < len ==> hex_value(#[trigger] hex_digits(n, len)[i]) < 16,
    decreases len,
{
    if len > 0 {
        let k = (len - 1) as nat;
        lemma_hex_read_back(n / 16, k);
        assert(hex_digits(n, len).drop_last() =~= hex_digits(n / 16, k));
    }
}

/// The text of an identifier has 36 characters: hexadecimal digits in lower case, which
/// give its bits when they are read, with hyphens behind the first eight of them and behind
/// each of the three fours that follow.
pub proof fn identifiers_are_written_in_hexadecimal(
    bits: u128,
    pipeline: PipelineId,
    project: ProjectId,
    r: String,
)
    requires
        ({
            ||| call_ensures(show_id, (bits,), r)
            ||| call_ensures(PipelineId::to_text, (pipeline,), r) && pipeline.0 == bits
            ||| call_ensures(ProjectId::to_text, (project,), r) && project.0 == bits
        }),
    ensures
        r@.len() == 36,
        r@[8] == '-' && r@[13] == '-' && r@[18] == '-' && r@[23] == '-',
        forall|i: int|
            0 <= i < 36 && i != 8 && i != 13 && i != 18 && i != 23 ==> hex_value(#[trigger] r@[i])
                < 16,
        hex_number(
            r@.subrange(0, 8) + r@.subrange(9, 13) + r@.subrange(14, 18) + r@.subrange(19, 23)
                + r@.subrange(24, 36),
        ) == bits,
{
    reveal_with_fuel(hex_limit, 33);
    lemma_hex_read_back(bits as nat, 32);
    let h = hex_digits(bits as nat, 32);
    assert(r@.subrange(0, 8) + r@.subrange(9, 13) + r@.subrange(14, 18) + r@.subrange(19, 23)
        + r@.subrange(24, 36) =~= h);
    assert forall|i: int|
        0 <= i < 36 && i != 8 && i != 13 && i != 18 && i != 23 implies hex_value(#[trigger] r@[i])
        < 16 by {
        let j = if i < 8 {
            i
        } else if i < 13 {
            i - 1
        } else if i < 18 {
            i - 2
        } else if i < 23 {
            i - 3
        } else {
            i - 4
        };
        assert(r@[i] == h[j]);
    }
}

proof fn lemma_hex_shift(n: nat, len: nat, drop: nat)
    requires
        drop <= len,
    ensures
        hex_digits(n, len).len() == len,
        hex_digits(n, len).take(len - drop) == hex_digits(n / hex_limit(drop), (len - drop) as nat),
        hex_limit(drop) > 0,
    decreases drop,
{
    lemma_hex_len(n, len);
    if drop == 0 {
        assert(hex_digits(n, len).take(len as int) =~= hex_digits(n, len));
        assert(n / 1 == n);
    } else {
        let k = (drop - 1) as nat;
        lemma_hex_shift(n / 16, (len - 1) as nat, k);
        assert(hex_digits(n, len).take(len - drop) =~= hex_digits(n / 16, (len - 1) as nat).take(
            len - drop,
        ));
        vstd::arithmetic::div_mod::lemma_div_denominator(n as int, 16, hex_limit(k) as int);
    }
}

/// The digit at a position of the last `len` hexadecimal digits.
proof fn lemma_hex_at(n: nat, len: nat, i: nat)
    requires
        i < len,
    ensures
        hex_digits(n, len).len() == len,
        hex_digits(n, len)[i as int] == hex_digit(n / hex_limit((len - 1 - i) as nat) % 16),
{
    let drop = (len - 1 - i) as nat;
    lemma_hex_shift(n, len, drop);
    assert(hex_digits(n, len).take(i as int + 1).last() == hex_digits(n, len)[i as int]);
}

/// A new identifier shows its version and the usual variant in its text: the version behind
/// the second hyphen, and one of `8`, `9`, `a` and `b` behind the third.
pub proof fn versions_are_shown(bits: u128, version: nat)
    requires
        has_version(bits, version),
        version < 16,
    ensures
        hex_value(id_text(bits)[14]) == version,
        8 <= hex_value(id_text(bits)[19]) <= 11,
{
    let n = bits as nat;
    let h = hex_digits(n, 32);
    lemma_hex_len(n, 32);
    assert(id_text(bits)[14] == h[12]);
    assert(id_text(bits)[19] == h[16]);
    lemma_hex_at(n, 32, 12);
    lemma_hex_at(n, 32, 16);
    assert(hex_limit(19) == 0x1000_0000_0000_0000_0000 && hex_limit(15) == 0x1000_0000_0000_0000)
        by {
        reveal_with_fuel(hex_limit, 20);
    }
    let d = n / 0x1000_0000_0000_0000;
    assert(d / 4 == n / 0x4000_0000_0000_0000) by {
        vstd::arithmetic::div_mod::lemma_div_denominator(n as int, 0x1000_0000_0000_0000, 4);
    }
    assert((d / 4) % 4 == 2);
    assert(8 <= d % 16 <= 11);
}

/// Random identifiers have version four, and those of revisions version seven.
pub proof fn new_identifiers_have_their_versions(r: String, bits: u128)
    ensures
        call_ensures(random_id, (), r) ==> r@.len() == 36 && hex_value(r@[14]) == 4 && 8
            <= hex_value(r@[19]) <= 11,
        call_ensures(revision_bits, (), bits) ==> hex_value(id_text(bits)[14]) == 7 && 8
            <= hex_value(id_text(bits)[19]) <= 11,
{
    if call_ensures(random_id, (), r) {
        let b = choose|b: u128| r@ == #[trigger] id_text(b) && has_version(b, 4);
        versions_are_shown(b, 4);
        lemma_hex_len(b as nat, 32);
    }
    if call_ensures(revision_bits, (), bits) {
        versions_are_shown(bits, 7);
    }
}

} // verus!
