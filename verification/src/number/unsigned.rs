//! `Number` for the unsigned integer types.
//!
//! The absolute difference subtracts the smaller operand from the larger, so
//! it never passes below zero and always fits.

use super::Number;
use vstd::prelude::*;

verus! {

impl Number for u8 {
    open spec fn value(self) -> int {
        self as int
    }

    open spec fn lowest() -> int {
        0
    }

    open spec fn highest() -> int {
        u8::MAX as int
    }

    proof fn lemma_limits() {
    }

    proof fn lemma_in_range(self) {
    }

    fn zero() -> u8 {
        0
    }

    fn one() -> u8 {
        1
    }

    fn abs_diff(self, other: u8) -> u8 {
        if self >= other {
            self - other
        } else {
            other - self
        }
    }

    fn checked_add(self, other: u8) -> Option<u8> {
        u8::checked_add(self, other)
    }

    fn checked_sub(self, other: u8) -> Option<u8> {
        u8::checked_sub(self, other)
    }

    fn checked_mul(self, other: u8) -> Option<u8> {
        u8::checked_mul(self, other)
    }

    fn checked_div(self, other: u8) -> Option<u8> {
        u8::checked_div(self, other)
    }
}

impl Number for u16 {
    open spec fn value(self) -> int {
        self as int
    }

    open spec fn lowest() -> int {
        0
    }

    open spec fn highest() -> int {
        u16::MAX as int
    }

    proof fn lemma_limits() {
    }

    proof fn lemma_in_range(self) {
    }

    fn zero() -> u16 {
        0
    }

    fn one() -> u16 {
        1
    }

    fn abs_diff(self, other: u16) -> u16 {
        if self >= other {
            self - other
        } else {
            other - self
        }
    }

    fn checked_add(self, other: u16) -> Option<u16> {
        u16::checked_add(self, other)
    }

    fn checked_sub(self, other: u16) -> Option<u16> {
        u16::checked_sub(self, other)
    }

    fn checked_mul(self, other: u16) -> Option<u16> {
        u16::checked_mul(self, other)
    }

    fn checked_div(self, other: u16) -> Option<u16> {
        u16::checked_div(self, other)
    }
}

impl Number for u32 {
    open spec fn value(self) -> int {
        self as int
    }

    open spec fn lowest() -> int {
        0
    }

    open spec fn highest() -> int {
        u32::MAX as int
    }

    proof fn lemma_limits() {
    }

    proof fn lemma_in_range(self) {
    }

    fn zero() -> u32 {
        0
    }

    fn one() -> u32 {
        1
    }

    fn abs_diff(self, other: u32) -> u32 {
        if self >= other {
            self - other
        } else {
            other - self
        }
    }

    fn checked_add(self, other: u32) -> Option<u32> {
        u32::checked_add(self, other)
    }

    fn checked_sub(self, other: u32) -> Option<u32> {
        u32::checked_sub(self, other)
    }

    fn checked_mul(self, other: u32) -> Option<u32> {
        u32::checked_mul(self, other)
    }

    fn checked_div(self, other: u32) -> Option<u32> {
        u32::checked_div(self, other)
    }
}

impl Number for u64 {
    open spec fn value(self) -> int {
        self as int
    }

    open spec fn lowest() -> int {
        0
    }

    open spec fn highest() -> int {
        u64::MAX as int
    }

    proof fn lemma_limits() {
    }

    proof fn lemma_in_range(self) {
    }

    fn zero() -> u64 {
        0
    }

    fn one() -> u64 {
        1
    }

    fn abs_diff(self, other: u64) -> u64 {
        if self >= other {
            self - other
        } else {
            other - self
        }
    }

    fn checked_add(self, other: u64) -> Option<u64> {
        u64::checked_add(self, other)
    }

    fn checked_sub(self, other: u64) -> Option<u64> {
        u64::checked_sub(self, other)
    }

    fn checked_mul(self, other: u64) -> Option<u64> {
        u64::checked_mul(self, other)
    }

    fn checked_div(self, other: u64) -> Option<u64> {
        u64::checked_div(self, other)
    }
}

impl Number for u128 {
    open spec fn value(self) -> int {
        self as int
    }

    open spec fn lowest() -> int {
        0
    }

    open spec fn highest() -> int {
        u128::MAX as int
    }

    proof fn lemma_limits() {
    }

    proof fn lemma_in_range(self) {
    }

    fn zero() -> u128 {
        0
    }

    fn one() -> u128 {
        1
    }

    fn abs_diff(self, other: u128) -> u128 {
        if self >= other {
            self - other
        } else {
            other - self
        }
    }

    fn checked_add(self, other: u128) -> Option<u128> {
        u128::checked_add(self, other)
    }

    fn checked_sub(self, other: u128) -> Option<u128> {
        u128::checked_sub(self, other)
    }

    fn checked_mul(self, other: u128) -> Option<u128> {
        u128::checked_mul(self, other)
    }

    fn checked_div(self, other: u128) -> Option<u128> {
        u128::checked_div(self, other)
    }
}

impl Number for usize {
    open spec fn value(self) -> int {
        self as int
    }

    open spec fn lowest() -> int {
        0
    }

    open spec fn highest() -> int {
        usize::MAX as int
    }

    proof fn lemma_limits() {
    }

    proof fn lemma_in_range(self) {
    }

    fn zero() -> usize {
        0
    }

    fn one() -> usize {
        1
    }

    fn abs_diff(self, other: usize) -> usize {
        if self >= other {
            self - other
        } else {
            other - self
        }
    }

    fn checked_add(self, other: usize) -> Option<usize> {
        usize::checked_add(self, other)
    }

    fn checked_sub(self, other: usize) -> Option<usize> {
        usize::checked_sub(self, other)
    }

    fn checked_mul(self, other: usize) -> Option<usize> {
        usize::checked_mul(self, other)
    }

    fn checked_div(self, other: usize) -> Option<usize> {
        usize::checked_div(self, other)
    }
}

} // verus!
