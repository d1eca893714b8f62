//! Big-endian numbers: the byte order of every fixed-size integer in the
//! protocol.

use vstd::prelude::*;

verus! {

/// `256` raised to the power `n`.
pub open spec fn pow256(n: nat) -> nat
    decreases n,
{
    if n == 0 {
        1
    } else {
        256 * pow256((n - 1) as nat)
    }
}

/// The number that `s` stands for, most significant byte first.
pub open spec fn be_value(s: Seq<u8>) -> nat
    decreases s.len(),
{
    if s.len() == 0 {
        0
    } else {
        be_value(s.drop_last()) * 256 + s.last() as nat
    }
}

/// The `n` bytes of `x` (taken modulo `256^n`), most significant first.
pub open spec fn be_bytes(x: nat, n: nat) -> Seq<u8>
    decreases n,
{
    if n == 0 {
        Seq::empty()
    } else {
        be_bytes(x / 256, (n - 1) as nat).push((x % 256) as u8)
    }
}

pub proof fn lemma_be_bytes_len(x: nat, n: nat)
    ensures
        be_bytes(x, n).len() == n,
    decreases n,
{
    if n > 0 {
        lemma_be_bytes_len(x / 256, (n - 1) as nat);
    }
}

/// `n` bytes stand for less than `256^n`.
pub proof fn lemma_be_value_bound(s: Seq<u8>)
    ensures
        be_value(s) < pow256(s.len()),
    decreases s.len(),
{
    if s.len() > 0 {
        lemma_be_value_bound(s.drop_last());
        let a = be_value(s.drop_last());
        let p = pow256(s.drop_last().len());
        assert(a * 256 + s.last() < 256 * p) by (nonlinear_arith)
            requires
                a < p,
                s.last() < 256,
        ;
    }
}

/// Writing `x` in `n` bytes and reading them back gives `x`, when it fits.
pub proof fn lemma_be_roundtrip(x: nat, n: nat)
    requires
        x < pow256(n),
    ensures
        be_value(be_bytes(x, n)) == x,
    decreases n,
{
    if n > 0 {
        let y = x / 256;
        let k = (n - 1) as nat;
        assert(y < pow256(k)) by (nonlinear_arith)
            requires
                x < 256 * pow256(k),
                y == x / 256,
        ;
        lemma_be_roundtrip(y, k);
        lemma_be_bytes_len(y, k);
        let b = be_bytes(x, n);
        assert(b.drop_last() =~= be_bytes(y, k));
    } else {
        assert(x == 0);
    }
}

pub proof fn lemma_pow256_values()
    ensures
        pow256(1) == 0x100,
        pow256(2) == 0x1_0000,
        pow256(4) == 0x1_0000_0000,
        pow256(8) == 0x1_0000_0000_0000_0000,
        pow256(16) == 0x1_0000_0000_0000_0000_0000_0000_0000_0000,
{
    reveal_with_fuel(pow256, 17);
}

/// The bytes of `be_bytes` for small widths, spelled out.
pub proof fn lemma_be_bytes_shape(x: nat)
    ensures
        be_bytes(x, 1) == seq![(x % 256) as u8],
        be_bytes(x, 2) == seq![(x / 256 % 256) as u8, (x % 256) as u8],
        be_bytes(x, 3) == seq![(x / 256 / 256 % 256) as u8, (x / 256 % 256) as u8, (x % 256) as u8],
        be_bytes(x, 4) == seq![
            (x / 256 / 256 / 256 % 256) as u8,
            (x / 256 / 256 % 256) as u8,
            (x / 256 % 256) as u8,
            (x % 256) as u8,
        ],
{
    reveal_with_fuel(be_bytes, 5);
    assert(be_bytes(x, 1) =~= seq![(x % 256) as u8]);
    assert(be_bytes(x / 256, 1) =~= seq![(x / 256 % 256) as u8]);
    assert(be_bytes(x / 256 / 256, 1) =~= seq![(x / 256 / 256 % 256) as u8]);
    assert(be_bytes(x / 256 / 256 / 256, 1) =~= seq![(x / 256 / 256 / 256 % 256) as u8]);
    assert(be_bytes(x / 256, 2) =~= seq![(x / 256 / 256 % 256) as u8, (x / 256 % 256) as u8]);
    assert(be_bytes(x / 256 / 256, 2) =~= seq![
        (x / 256 / 256 / 256 % 256) as u8,
        (x / 256 / 256 % 256) as u8,
    ]);
    assert(be_bytes(x / 256, 3) =~= seq![
        (x / 256 / 256 / 256 % 256) as u8,
        (x / 256 / 256 % 256) as u8,
        (x / 256 % 256) as u8,
    ]);
}

} // verus!
