//! `Number` for the signed integer types.
//!
//! The absolute difference of two signed values can be wider than the type;
//! it then saturates at the greatest value.

use super::Number;
use vstd::prelude::*;

verus! {

impl Number for i8 {
    open spec fn value(self) -> int {
        self as int
    }

    open spec fn lowest() -> int {
        i8::MIN as int
    }

    open spec fn highest() -> int {
        i8::MAX as int
    }

    proof fn lemma_limits() {
    }

    proof fn lemma_in_range(self) {
    }

    fn zero() -> i8 {
        0
    }

    fn one() -> i8 {
        1
    }

    fn abs_diff(self, other: i8) -> i8 {
        let gap = if self >= other {
            i8::checked_sub(self, other)
        } else {
            i8::checked_sub(other, self)
        };
        match gap {
            Some(d) => d,
            None => i8::MAX,
        }
    }

    fn checked_add(self, other: i8) -> Option<i8> {
        i8::checked_add(self, other)
    }

    fn checked_sub(self, other: i8) -> Option<i8> {
        i8::checked_sub(self, other)
    }

    fn checked_mul(self, other: i8) -> Option<i8> {
        i8::checked_mul(self, other)
    }

    fn checked_div(self, other: i8) -> Option<i8> {
        i8::checked_div(self, other)
    }
}

impl Number for i16 {
    open spec fn value(self) -> int {
        self as int
    }

    open spec fn lowest() -> int {
        i16::MIN as int
    }

    open spec fn highest() -> int {
        i16::MAX as int
    }

    proof fn lemma_limits() {
    }

    proof fn lemma_in_range(self) {
    }

    fn zero() -> i16 {
        0
    }

    fn one() -> i16 {
        1
    }

    fn abs_diff(self, other: i16) -> i16 {
        let gap = if self >= other {
            i16::checked_sub(self, other)
        } else {
            i16::checked_sub(other, self)
        };
        match gap {
            Some(d) => d,
            None => i16::MAX,
        }
    }

    fn checked_add(self, other: i16) -> Option<i16> {
        i16::checked_add(self, other)
    }

    fn checked_sub(self, other: i16) -> Option<i16> {
        i16::checked_sub(self, other)
    }

    fn checked_mul(self, other: i16) -> Option<i16> {
        i16::checked_mul(self, other)
    }

    fn checked_div(self, other: i16) -> Option<i16> {
        i16::checked_div(self, other)
    }
}

impl Number for i32 {
    open spec fn value(self) -> int {
        self as int
    }

    open spec fn lowest() -> int {
        i32::MIN as int
    }

    open spec fn highest() -> int {
        i32::MAX as int
    }

    proof fn lemma_limits() {
    }

    proof fn lemma_in_range(self) {
    }

    fn zero() -> i32 {
        0
    }

    fn one() -> i32 {
        1
    }

    fn abs_diff(self, other: i32) -> i32 {
        let gap = if self >= other {
            i32::checked_sub(self, other)
        } else {
            i32::checked_sub(other, self)
        };
        match gap {
            Some(d) => d,
            None => i32::MAX,
        }
    }

    fn checked_add(self, other: i32) -> Option<i32> {
        i32::checked_add(self, other)
    }

    fn checked_sub(self, other: i32) -> Option<i32> {
        i32::checked_sub(self, other)
    }

    fn checked_mul(self, other: i32) -> Option<i32> {
        i32::checked_mul(self, other)
    }

    fn checked_div(self, other: i32) -> Option<i32> {
        i32::checked_div(self, other)
    }
}

impl Number for i64 {
    open spec fn value(self) -> int {
        self as int
    }

    open spec fn lowest() -> int {
        i64::MIN as int
    }

    open spec fn highest() -> int {
        i64::MAX as int
    }

    proof fn lemma_limits() {
    }

    proof fn lemma_in_range(self) {
    }

    fn zero() -> i64 {
        0
    }

    fn one() -> i64 {
        1
    }

    fn abs_diff(self, other: i64) -> i64 {
        let gap = if self >= other {
            i64::checked_sub(self, other)
        } else {
            i64::checked_sub(other, self)
        };
        match gap {
            Some(d) => d,
            None => i64::MAX,
        }
    }

    fn checked_add(self, other: i64) -> Option<i64> {
        i64::checked_add(self, other)
    }

    fn checked_sub(self, other: i64) -> Option<i64> {
        i64::checked_sub(self, other)
    }

    fn checked_mul(self, other: i64) -> Option<i64> {
        i64::checked_mul(self, other)
    }

    fn checked_div(self, other: i64) -> Option<i64> {
        i64::checked_div(self, other)
    }
}

impl Number for i128 {
    open spec fn value(self) -> int {
        self as int
    }

    open spec fn lowest() -> int {
        i128::MIN as int
    }

    open spec fn highest() -> int {
        i128::MAX as int
    }

    proof fn lemma_limits() {
    }

    proof fn lemma_in_range(self) {
    }

    fn zero() -> i128 {
        0
    }

    fn one() -> i128 {
        1
    }

    fn abs_diff(self, other: i128) -> i128 {
        let gap = if self >= other {
            i128::checked_sub(self, other)
        } else {
            i128::checked_sub(other, self)
        };
        match gap {
            Some(d) => d,
            None => i128::MAX,
        }
    }

    fn checked_add(self, other: i128) -> Option<i128> {
        i128::checked_add(self, other)
    }

    fn checked_sub(self, other: i128) -> Option<i128> {
        i128::checked_sub(self, other)
    }

    fn checked_mul(self, other: i128) -> Option<i128> {
        i128::checked_mul(self, other)
    }

    fn checked_div(self, other: i128) -> Option<i128> {
        i128::checked_div(self, other)
    }
}

impl Number for isize {
    open spec fn value(self) -> int {
        self as int
    }

    open spec fn lowest() -> int {
        isize::MIN as int
    }

    open spec fn highest() -> int {
        isize::MAX as int
    }

    proof fn lemma_limits() {
    }

    proof fn lemma_in_range(self) {
    }

    fn zero() -> isize {
        0
    }

    fn one() -> isize {
        1
    }

    fn abs_diff(self, other: isize) -> isize {
        let gap = if self >= other {
            isize::checked_sub(self, other)
        } else {
            isize::checked_sub(other, self)
        };
        match gap {
            Some(d) => d,
            None => isize::MAX,
        }
    }

    fn checked_add(self, other: isize) -> Option<isize> {
        isize::checked_add(self, other)
    }

    fn checked_sub(self, other: isize) -> Option<isize> {
        isize::checked_sub(self, other)
    }

    fn checked_mul(self, other: isize) -> Option<isize> {
        isize::checked_mul(self, other)
    }

    fn checked_div(self, other: isize) -> Option<isize> {
        isize::checked_div(self, other)
    }
}

} // verus!
