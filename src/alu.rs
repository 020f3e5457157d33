//! Integer arithmetic, shifts and bitwise operations on operands of 1, 2, 4
//! or 8 bytes. Every result wraps around modulo `256^n` for an `n`-byte
//! operand; shift amounts are taken modulo the operand's bit width.
use vstd::prelude::*;
use vstd::arithmetic::div_mod::{
    lemma_fundamental_div_mod,
    lemma_fundamental_div_mod_converse_div,
    lemma_fundamental_div_mod_converse_mod,
};
use vstd::arithmetic::mul::lemma_mul_upper_bound;
use crate::encoding::{pow256, lemma_pow256_values};
use crate::error::ExecutionError;

verus! {

/// The two-operand integer operations.
#[derive(Clone, Copy, Debug, PartialEq, Eq, Structural)]
pub enum BinaryOp {
    Add,
    Sub,
    Mult,
    Div,
    Mod,
    LShift,
    RShift,
    ALShift,
    ARShift,
    And,
    Or,
    Xor,
}

/// `2` to the power `k`.
pub open spec fn pow2(k: nat) -> nat
    decreases k,
{
    if k == 0 {
        1
    } else {
        2 * pow2((k - 1) as nat)
    }
}

/// An operand width in bytes that the integer sizes use.
pub open spec fn valid_width(n: nat) -> bool {
    n == 1 || n == 2 || n == 4 || n == 8
}

/// The bit distance a shift by `b` moves an `n`-byte operand.
pub open spec fn shift_amount(b: nat, n: nat) -> nat {
    b % (8 * n)
}

/// The two's-complement value of the `n`-byte unsigned `a`.
pub open spec fn signed(a: nat, n: nat) -> int {
    if a < pow256(n) / 2 {
        a as int
    } else {
        a - pow256(n)
    }
}

/// The result of `op` on the `n`-byte unsigned operands `a` and `b`, reduced
/// modulo `256^n`. Division and remainder are those of unsigned integers;
/// the arithmetic right shift rounds the signed value towards minus infinity.
pub open spec fn binary_result(op: BinaryOp, a: nat, b: nat, n: nat) -> nat {
    let m = pow256(n);
    let s = shift_amount(b, n);
    match op {
        BinaryOp::Add => (a + b) % m,
        BinaryOp::Sub => ((a - b) % (m as int)) as nat,
        BinaryOp::Mult => (a * b) % m,
        BinaryOp::Div => a / b,
        BinaryOp::Mod => a % b,
        BinaryOp::LShift | BinaryOp::ALShift => (a * pow2(s)) % m,
        BinaryOp::RShift => a / pow2(s),
        BinaryOp::ARShift => ((signed(a, n) / (pow2(s) as int)) % (m as int)) as nat,
        BinaryOp::And => ((a as u64) & (b as u64)) as nat % m,
        BinaryOp::Or => ((a as u64) | (b as u64)) as nat % m,
        BinaryOp::Xor => ((a as u64) ^ (b as u64)) as nat % m,
    }
}

/// The bitwise complement of the `n`-byte unsigned `a`.
pub open spec fn not_result(a: nat, n: nat) -> nat {
    (!(a as u64)) as nat % pow256(n)
}

/// Whether `op` divides by its second operand.
pub open spec fn divides(op: BinaryOp) -> bool {
    op is Div || op is Mod
}

fn modulus(n: usize) -> (r: u128)
    requires
        valid_width(n as nat),
    ensures
        r == pow256(n as nat),
{
    proof {
        lemma_pow256_values();
    }
    if n == 1 {
        0x100
    } else if n == 2 {
        0x1_0000
    } else if n == 4 {
        0x1_0000_0000
    } else {
        0x1_0000_0000_0000_0000
    }
}

fn power_of_two(k: u32) -> (r: u128)
    requires
        k < 64,
    ensures
        r == pow2(k as nat),
        1 <= r <= 0x8000_0000_0000_0000,
{
    proof {
        reveal_with_fuel(pow2, 64);
        assert(pow2(63) == 0x8000_0000_0000_0000);
    }
    let mut r: u128 = 1;
    let mut i: u32 = 0;
    while i < k
        invariant
            i <= k < 64,
            r == pow2(i as nat),
            r * pow2((63 - i) as nat) == 0x8000_0000_0000_0000,
        decreases k - i,
    {
        proof {
            let rest = pow2((63 - i - 1) as nat);
            assert(pow2((63 - i) as nat) == 2 * rest);
            lemma_pow2_positive((63 - i - 1) as nat);
            assert(r * 2 * rest == 0x8000_0000_0000_0000 && r * 2 <= 0x8000_0000_0000_0000)
                by (nonlinear_arith)
                requires
                    r * (2 * rest) == 0x8000_0000_0000_0000,
                    rest >= 1,
                    r >= 0,
            ;
        }
        r = r * 2;
        i = i + 1;
    }
    proof {
        lemma_pow2_positive(i as nat);
        lemma_pow2_positive((63 - i) as nat);
        assert(r <= 0x8000_0000_0000_0000) by (nonlinear_arith)
            requires
                r * pow2((63 - i) as nat) == 0x8000_0000_0000_0000,
                pow2((63 - i) as nat) >= 1,
                r >= 0,
        ;
    }
    r
}

proof fn lemma_pow2_positive(k: nat)
    ensures
        pow2(k) >= 1,
    decreases k,
{
    if k > 0 {
        lemma_pow2_positive((k - 1) as nat);
    }
}

proof fn lemma_div_at_most(x: int, p: int)
    requires
        x >= 0,
        p >= 1,
    ensures
        0 <= x / p <= x,
{
    assert(0 <= x / p <= x) by (nonlinear_arith)
        requires
            x >= 0,
            p >= 1,
    ;
}

/// Rounding a negative dividend towards minus infinity: for `c >= 0`,
/// `-(c + 1) / p == -(c / p) - 1`.
proof fn lemma_floor_div_negative(c: int, p: int)
    requires
        c >= 0,
        p > 0,
    ensures
        (-(c + 1)) / p == -(c / p) - 1,
{
    lemma_fundamental_div_mod(c, p);
    let q = c / p;
    let r = c % p;
    assert(-(c + 1) == (-q - 1) * p + (p - r - 1)) by (nonlinear_arith)
        requires
            c == p * q + r,
    ;
    lemma_fundamental_div_mod_converse_div(-(c + 1), p, -q - 1, p - r - 1);
}

/// Applies `op` to the `n`-byte operands `a` and `b`.
pub fn binary(op: BinaryOp, a: u64, b: u64, n: usize) -> (r: Result<u64, ExecutionError>)
    requires
        valid_width(n as nat),
        a < pow256(n as nat),
        b < pow256(n as nat),
    ensures
        divides(op) && b == 0 ==> r == Err::<u64, ExecutionError>(ExecutionError::DivisionByZero),
        !(divides(op) && b == 0) ==> (r matches Ok(v) && v as nat == binary_result(
            op,
            a as nat,
            b as nat,
            n as nat,
        )),
{
    let m = modulus(n);
    let x = a as u128;
    let y = b as u128;
    proof {
        lemma_pow256_values();
    }
    let s = (b % (8 * n as u64)) as u32;
    let v: u128 = match op {
        BinaryOp::Add => (x + y) % m,
        BinaryOp::Sub => {
            proof {
                if a >= b {
                    lemma_fundamental_div_mod_converse_mod(a - b, m as int, 0, a - b);
                    lemma_fundamental_div_mod_converse_mod(a - b + m, m as int, 1, a - b);
                } else {
                    lemma_fundamental_div_mod_converse_mod(a - b, m as int, -1, a - b + m);
                    lemma_fundamental_div_mod_converse_mod(a - b + m, m as int, 0, a - b + m);
                }
            }
            (x + m - y) % m
        },
        BinaryOp::Mult => {
            proof {
                lemma_mul_upper_bound(a as int, 0xffff_ffff_ffff_ffff, b as int, 0xffff_ffff_ffff_ffff);
            }
            (x * y) % m
        },
        BinaryOp::Div => {
            if b == 0 {
                return Err(ExecutionError::DivisionByZero);
            }
            x / y
        },
        BinaryOp::Mod => {
            if b == 0 {
                return Err(ExecutionError::DivisionByZero);
            }
            x % y
        },
        BinaryOp::LShift | BinaryOp::ALShift => {
            let p = power_of_two(s);
            proof {
                lemma_mul_upper_bound(a as int, 0xffff_ffff_ffff_ffff, p as int, 0x8000_0000_0000_0000);
            }
            (x * p) % m
        },
        BinaryOp::RShift => {
            let p = power_of_two(s);
            x / p
        },
        BinaryOp::ARShift => {
            let p = power_of_two(s);
            if x < m / 2 {
                proof {
                    lemma_div_at_most(a as int, p as int);
                    lemma_fundamental_div_mod_converse_mod(a as int / p as int, m as int, 0, a as int / p as int);
                }
                x / p
            } else {
                let c = m - 1 - x;
                proof {
                    lemma_floor_div_negative(c as int, p as int);
                    lemma_div_at_most(c as int, p as int);
                    let q = c as int / p as int;
                    assert(signed(a as nat, n as nat) == -(c + 1));
                    lemma_fundamental_div_mod_converse_mod(-q - 1, m as int, -1, m - q - 1);
                }
                m - 1 - c / p
            }
        },
        BinaryOp::And => (a & b) as u128 % m,
        BinaryOp::Or => (a | b) as u128 % m,
        BinaryOp::Xor => (a ^ b) as u128 % m,
    };
    Ok(v as u64)
}

/// The bitwise complement of the `n`-byte operand `a`.
pub fn complement(a: u64, n: usize) -> (r: u64)
    requires
        valid_width(n as nat),
    ensures
        r as nat == not_result(a as nat, n as nat),
{
    let m = modulus(n);
    proof {
        lemma_pow256_values();
    }
    ((!a) as u128 % m) as u64
}

} // verus!
