//! Scalar values and the closed set of column types the engine supports.
//!
//! Numeric non-integer columns are carried as exact decimal numbers: a signed
//! mantissa together with a decimal scale, denoting `mantissa / 10^scale`.
//! Comparisons between decimals are exact rational comparisons, evaluated in
//! verified integer arithmetic.

use vstd::prelude::*;

verus! {

/// The closed set of primitive column types this engine supports.
#[derive(Clone, Copy, PartialEq, Eq, Structural, Debug)]
pub enum DataType {
    Boolean,
    Int64,
    Decimal,
    Utf8,
}

/// Largest decimal scale a well-formed `DecimalValue` may carry.
pub const MAX_DECIMAL_SCALE: u32 = 18;

/// An exact decimal number `mantissa / 10^scale`.
///
/// Two values with different scales may denote the same number
/// (`515 / 10^1` and `5150 / 10^2`); the comparison functions treat them as
/// equal.
#[derive(Clone, Copy, PartialEq, Eq, Structural, Debug)]
pub struct DecimalValue {
    pub mantissa: i64,
    pub scale: u32,
}

/// `10^k` as a mathematical integer.
pub open spec fn pow10(k: nat) -> int
    decreases k,
{
    if k == 0 {
        1
    } else {
        10 * pow10((k - 1) as nat)
    }
}

impl DecimalValue {
    /// A well-formed decimal keeps its scale small enough that exact
    /// cross-multiplied comparison cannot overflow 128-bit arithmetic.
    pub open spec fn wf(self) -> bool {
        self.scale <= MAX_DECIMAL_SCALE
    }

    /// The number this value denotes, scaled to a common grid with `other`:
    /// `self < other` as rationals.
    pub open spec fn lt_spec(self, other: DecimalValue) -> bool {
        self.mantissa * pow10(other.scale as nat) < other.mantissa * pow10(self.scale as nat)
    }

    /// `self == other` as rationals.
    pub open spec fn eq_spec(self, other: DecimalValue) -> bool {
        self.mantissa * pow10(other.scale as nat) == other.mantissa * pow10(self.scale as nat)
    }
}

proof fn lemma_pow10_bounds(k: nat)
    requires
        k <= 18,
    ensures
        1 <= pow10(k) <= 1000000000000000000,
{
    reveal_with_fuel(pow10, 19);
    assert(pow10(18) == 1000000000000000000);
    lemma_pow10_mono(k, 18);
}

proof fn lemma_pow10_mono(a: nat, b: nat)
    requires
        a <= b,
    ensures
        pow10(a) <= pow10(b),
        1 <= pow10(a),
    decreases b,
{
    if a == b {
        lemma_pow10_pos(a);
    } else {
        lemma_pow10_mono(a, (b - 1) as nat);
        lemma_pow10_pos((b - 1) as nat);
    }
}

proof fn lemma_pow10_pos(k: nat)
    ensures
        1 <= pow10(k),
    decreases k,
{
    if k > 0 {
        lemma_pow10_pos((k - 1) as nat);
    }
}

proof fn lemma_mul_in_bounds(x: int, y: int, bx: int, by: int)
    requires
        -bx <= x <= bx,
        0 <= y <= by,
        0 <= bx,
    ensures
        -(bx * by) <= x * y <= bx * by,
{
    assert(-(bx * by) <= x * y <= bx * by) by (nonlinear_arith)
        requires
            -bx <= x <= bx,
            0 <= y <= by,
            0 <= bx,
    ;
}

/// `10^k` computed at runtime.
fn pow10_exec(k: u32) -> (r: i128)
    requires
        k <= MAX_DECIMAL_SCALE,
    ensures
        r == pow10(k as nat),
        1 <= r <= 1000000000000000000,
{
    let mut acc: i128 = 1;
    let mut j: u32 = 0;
    proof {
        lemma_pow10_bounds(k as nat);
    }
    while j < k
        invariant
            j <= k <= MAX_DECIMAL_SCALE,
            acc == pow10(j as nat),
            1 <= acc <= 1000000000000000000,
        decreases k - j,
    {
        proof {
            lemma_pow10_bounds((j + 1) as nat);
        }
        acc = acc * 10;
        j = j + 1;
    }
    acc
}

/// The two cross-multiplied mantissas that exact decimal comparison compares.
fn dec_cross(a: DecimalValue, b: DecimalValue) -> (r: (i128, i128))
    requires
        a.wf(),
        b.wf(),
    ensures
        r.0 == a.mantissa * pow10(b.scale as nat),
        r.1 == b.mantissa * pow10(a.scale as nat),
{
    let pa = pow10_exec(b.scale);
    let pb = pow10_exec(a.scale);
    proof {
        lemma_mul_in_bounds(a.mantissa as int, pa as int, 0x8000_0000_0000_0000, 1000000000000000000);
        lemma_mul_in_bounds(b.mantissa as int, pb as int, 0x8000_0000_0000_0000, 1000000000000000000);
    }
    let left: i128 = (a.mantissa as i128) * pa;
    let right: i128 = (b.mantissa as i128) * pb;
    (left, right)
}

/// Exact `a < b` on decimals.
pub fn dec_lt(a: DecimalValue, b: DecimalValue) -> (r: bool)
    requires
        a.wf(),
        b.wf(),
    ensures
        r == a.lt_spec(b),
{
    let (left, right) = dec_cross(a, b);
    left < right
}

/// Exact `a <= b` on decimals.
pub fn dec_le(a: DecimalValue, b: DecimalValue) -> (r: bool)
    requires
        a.wf(),
        b.wf(),
    ensures
        r == (a.lt_spec(b) || a.eq_spec(b)),
{
    let (left, right) = dec_cross(a, b);
    left <= right
}

/// Exact `a == b` on decimals (scale-insensitive).
pub fn dec_eq(a: DecimalValue, b: DecimalValue) -> (r: bool)
    requires
        a.wf(),
        b.wf(),
    ensures
        r == a.eq_spec(b),
{
    let (left, right) = dec_cross(a, b);
    left == right
}

/// One typed value of a column.
#[derive(Clone, Debug, PartialEq)]
pub enum ScalarValue {
    Boolean(bool),
    Int64(i64),
    Decimal(DecimalValue),
    Utf8(String),
}

/// Mathematical model of a [`ScalarValue`].
pub enum ValueModel {
    Boolean(bool),
    Int64(i64),
    Decimal(DecimalValue),
    Utf8(Seq<char>),
}

impl View for ScalarValue {
    type V = ValueModel;

    open spec fn view(&self) -> ValueModel {
        match self {
            ScalarValue::Boolean(b) => ValueModel::Boolean(*b),
            ScalarValue::Int64(v) => ValueModel::Int64(*v),
            ScalarValue::Decimal(v) => ValueModel::Decimal(*v),
            ScalarValue::Utf8(s) => ValueModel::Utf8(s@),
        }
    }
}

/// The declared type of a modeled value.
pub open spec fn value_type(v: ValueModel) -> DataType {
    match v {
        ValueModel::Boolean(_) => DataType::Boolean,
        ValueModel::Int64(_) => DataType::Int64,
        ValueModel::Decimal(_) => DataType::Decimal,
        ValueModel::Utf8(_) => DataType::Utf8,
    }
}

/// A well-formed value: decimals keep their scale within bounds.
pub open spec fn value_wf(v: ValueModel) -> bool {
    match v {
        ValueModel::Decimal(d) => d.wf(),
        _ => true,
    }
}

impl ScalarValue {
    /// The declared type of this value.
    pub fn data_type(&self) -> (r: DataType)
        ensures
            r == value_type(self@),
    {
        match self {
            ScalarValue::Boolean(_) => DataType::Boolean,
            ScalarValue::Int64(_) => DataType::Int64,
            ScalarValue::Decimal(_) => DataType::Decimal,
            ScalarValue::Utf8(_) => DataType::Utf8,
        }
    }
}

} // verus!
