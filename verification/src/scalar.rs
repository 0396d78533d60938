//! The element type of a matrix: a machine integer seen as a mathematical one.

use vstd::prelude::*;
use crate::text::{append_int, append_nat, int_text};

verus! {

/// A numeric element: a fixed-width integer with checked arithmetic.
///
/// Every value stands for the integer `value()`. Sums and products are
/// computed exactly or not at all.
pub trait Scalar: Copy + Sized {
    /// The integer this element stands for.
    spec fn value(self) -> int;

    /// Whether the type has an element standing for `v`.
    spec fn in_range(v: int) -> bool;

    /// Every element stands for an integer of the type's range.
    proof fn lemma_value_in_range(self)
        ensures
            Self::in_range(self.value()),
    ;

    /// Zero and one are in the type's range.
    proof fn lemma_units_in_range()
        ensures
            Self::in_range(0),
            Self::in_range(1),
    ;

    /// Two elements that stand for the same integer are the same element.
    proof fn lemma_value_injective(a: Self, b: Self)
        requires
            a.value() == b.value(),
        ensures
            a == b,
    ;

    /// The additive identity.
    fn zero() -> (z: Self)
        ensures
            z.value() == 0,
    ;

    /// `self + rhs`, or `None` when the sum is out of range.
    fn checked_sum(self, rhs: Self) -> (r: Option<Self>)
        ensures
            r is Some <==> Self::in_range(self.value() + rhs.value()),
            r matches Some(s) ==> s.value() == self.value() + rhs.value(),
    ;

    /// `self * rhs`, or `None` when the product is out of range.
    fn checked_product(self, rhs: Self) -> (r: Option<Self>)
        ensures
            r is Some <==> Self::in_range(self.value() * rhs.value()),
            r matches Some(p) ==> p.value() == self.value() * rhs.value(),
    ;

    /// Appends the decimal text of the element to `out`.
    fn append_text(self, out: &mut String)
        ensures
            final(out)@ == old(out)@ + int_text(self.value()),
    ;
}

impl Scalar for i8 {
    open spec fn value(self) -> int {
        self as int
    }

    open spec fn in_range(v: int) -> bool {
        i8::MIN <= v <= i8::MAX
    }

    proof fn lemma_value_in_range(self) {
    }

    proof fn lemma_units_in_range() {
    }

    proof fn lemma_value_injective(a: Self, b: Self) {
    }

    fn zero() -> (z: Self) {
        0
    }

    fn checked_sum(self, rhs: Self) -> (r: Option<Self>) {
        self.checked_add(rhs)
    }

    fn checked_product(self, rhs: Self) -> (r: Option<Self>) {
        self.checked_mul(rhs)
    }

    fn append_text(self, out: &mut String) {
        append_int(out, self as i128);
    }
}

impl Scalar for i16 {
    open spec fn value(self) -> int {
        self as int
    }

    open spec fn in_range(v: int) -> bool {
        i16::MIN <= v <= i16::MAX
    }

    proof fn lemma_value_in_range(self) {
    }

    proof fn lemma_units_in_range() {
    }

    proof fn lemma_value_injective(a: Self, b: Self) {
    }

    fn zero() -> (z: Self) {
        0
    }

    fn checked_sum(self, rhs: Self) -> (r: Option<Self>) {
        self.checked_add(rhs)
    }

    fn checked_product(self, rhs: Self) -> (r: Option<Self>) {
        self.checked_mul(rhs)
    }

    fn append_text(self, out: &mut String) {
        append_int(out, self as i128);
    }
}

impl Scalar for i32 {
    open spec fn value(self) -> int {
        self as int
    }

    open spec fn in_range(v: int) -> bool {
        i32::MIN <= v <= i32::MAX
    }

    proof fn lemma_value_in_range(self) {
    }

    proof fn lemma_units_in_range() {
    }

    proof fn lemma_value_injective(a: Self, b: Self) {
    }

    fn zero() -> (z: Self) {
        0
    }

    fn checked_sum(self, rhs: Self) -> (r: Option<Self>) {
        self.checked_add(rhs)
    }

    fn checked_product(self, rhs: Self) -> (r: Option<Self>) {
        self.checked_mul(rhs)
    }

    fn append_text(self, out: &mut String) {
        append_int(out, self as i128);
    }
}

impl Scalar for i64 {
    open spec fn value(self) -> int {
        self as int
    }

    open spec fn in_range(v: int) -> bool {
        i64::MIN <= v <= i64::MAX
    }

    proof fn lemma_value_in_range(self) {
    }

    proof fn lemma_units_in_range() {
    }

    proof fn lemma_value_injective(a: Self, b: Self) {
    }

    fn zero() -> (z: Self) {
        0
    }

    fn checked_sum(self, rhs: Self) -> (r: Option<Self>) {
        self.checked_add(rhs)
    }

    fn checked_product(self, rhs: Self) -> (r: Option<Self>) {
        self.checked_mul(rhs)
    }

    fn append_text(self, out: &mut String) {
        append_int(out, self as i128);
    }
}

impl Scalar for i128 {
    open spec fn value(self) -> int {
        self as int
    }

    open spec fn in_range(v: int) -> bool {
        i128::MIN <= v <= i128::MAX
    }

    proof fn lemma_value_in_range(self) {
    }

    proof fn lemma_units_in_range() {
    }

    proof fn lemma_value_injective(a: Self, b: Self) {
    }

    fn zero() -> (z: Self) {
        0
    }

    fn checked_sum(self, rhs: Self) -> (r: Option<Self>) {
        self.checked_add(rhs)
    }

    fn checked_product(self, rhs: Self) -> (r: Option<Self>) {
        self.checked_mul(rhs)
    }

    fn append_text(self, out: &mut String) {
        append_int(out, self);
    }
}

impl Scalar for isize {
    open spec fn value(self) -> int {
        self as int
    }

    open spec fn in_range(v: int) -> bool {
        isize::MIN <= v <= isize::MAX
    }

    proof fn lemma_value_in_range(self) {
    }

    proof fn lemma_units_in_range() {
    }

    proof fn lemma_value_injective(a: Self, b: Self) {
    }

    fn zero() -> (z: Self) {
        0
    }

    fn checked_sum(self, rhs: Self) -> (r: Option<Self>) {
        self.checked_add(rhs)
    }

    fn checked_product(self, rhs: Self) -> (r: Option<Self>) {
        self.checked_mul(rhs)
    }

    fn append_text(self, out: &mut String) {
        append_int(out, self as i128);
    }
}

impl Scalar for u8 {
    open spec fn value(self) -> int {
        self as int
    }

    open spec fn in_range(v: int) -> bool {
        u8::MIN <= v <= u8::MAX
    }

    proof fn lemma_value_in_range(self) {
    }

    proof fn lemma_units_in_range() {
    }

    proof fn lemma_value_injective(a: Self, b: Self) {
    }

    fn zero() -> (z: Self) {
        0
    }

    fn checked_sum(self, rhs: Self) -> (r: Option<Self>) {
        self.checked_add(rhs)
    }

    fn checked_product(self, rhs: Self) -> (r: Option<Self>) {
        self.checked_mul(rhs)
    }

    fn append_text(self, out: &mut String) {
        append_nat(out, self as u128);
    }
}

impl Scalar for u16 {
    open spec fn value(self) -> int {
        self as int
    }

    open spec fn in_range(v: int) -> bool {
        u16::MIN <= v <= u16::MAX
    }

    proof fn lemma_value_in_range(self) {
    }

    proof fn lemma_units_in_range() {
    }

    proof fn lemma_value_injective(a: Self, b: Self) {
    }

    fn zero() -> (z: Self) {
        0
    }

    fn checked_sum(self, rhs: Self) -> (r: Option<Self>) {
        self.checked_add(rhs)
    }

    fn checked_product(self, rhs: Self) -> (r: Option<Self>) {
        self.checked_mul(rhs)
    }

    fn append_text(self, out: &mut String) {
        append_nat(out, self as u128);
    }
}

impl Scalar for u32 {
    open spec fn value(self) -> int {
        self as int
    }

    open spec fn in_range(v: int) -> bool {
        u32::MIN <= v <= u32::MAX
    }

    proof fn lemma_value_in_range(self) {
    }

    proof fn lemma_units_in_range() {
    }

    proof fn lemma_value_injective(a: Self, b: Self) {
    }

    fn zero() -> (z: Self) {
        0
    }

    fn checked_sum(self, rhs: Self) -> (r: Option<Self>) {
        self.checked_add(rhs)
    }

    fn checked_product(self, rhs: Self) -> (r: Option<Self>) {
        self.checked_mul(rhs)
    }

    fn append_text(self, out: &mut String) {
        append_nat(out, self as u128);
    }
}

impl Scalar for u64 {
    open spec fn value(self) -> int {
        self as int
    }

    open spec fn in_range(v: int) -> bool {
        u64::MIN <= v <= u64::MAX
    }

    proof fn lemma_value_in_range(self) {
    }

    proof fn lemma_units_in_range() {
    }

    proof fn lemma_value_injective(a: Self, b: Self) {
    }

    fn zero() -> (z: Self) {
        0
    }

    fn checked_sum(self, rhs: Self) -> (r: Option<Self>) {
        self.checked_add(rhs)
    }

    fn checked_product(self, rhs: Self) -> (r: Option<Self>) {
        self.checked_mul(rhs)
    }

    fn append_text(self, out: &mut String) {
        append_nat(out, self as u128);
    }
}

impl Scalar for u128 {
    open spec fn value(self) -> int {
        self as int
    }

    open spec fn in_range(v: int) -> bool {
        u128::MIN <= v <= u128::MAX
    }

    proof fn lemma_value_in_range(self) {
    }

    proof fn lemma_units_in_range() {
    }

    proof fn lemma_value_injective(a: Self, b: Self) {
    }

    fn zero() -> (z: Self) {
        0
    }

    fn checked_sum(self, rhs: Self) -> (r: Option<Self>) {
        self.checked_add(rhs)
    }

    fn checked_product(self, rhs: Self) -> (r: Option<Self>) {
        self.checked_mul(rhs)
    }

    fn append_text(self, out: &mut String) {
        append_nat(out, self);
    }
}

impl Scalar for usize {
    open spec fn value(self) -> int {
        self as int
    }

    open spec fn in_range(v: int) -> bool {
        usize::MIN <= v <= usize::MAX
    }

    proof fn lemma_value_in_range(self) {
    }

    proof fn lemma_units_in_range() {
    }

    proof fn lemma_value_injective(a: Self, b: Self) {
    }

    fn zero() -> (z: Self) {
        0
    }

    fn checked_sum(self, rhs: Self) -> (r: Option<Self>) {
        self.checked_add(rhs)
    }

    fn checked_product(self, rhs: Self) -> (r: Option<Self>) {
        self.checked_mul(rhs)
    }

    fn append_text(self, out: &mut String) {
        append_nat(out, self as u128);
    }
}

} // verus!
