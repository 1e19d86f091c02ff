//! Ordering records by several of their fields, one after another.

use vstd::prelude::*;
use core::cmp::Ordering;
use crate::text::chars_of;
use crate::text::lex;
use crate::text::lex_sign;

verus! {

/// The sign of the order of two numbers: -1, 0 or 1.
pub open spec fn sign(a: int, b: int) -> int {
    if a < b {
        -1
    } else if a > b {
        1
    } else {
        0
    }
}

/// The first of two signs that decides.
pub open spec fn or_else(first: int, second: int) -> int {
    if first != 0 {
        first
    } else {
        second
    }
}

/// The `Ordering` that a sign stands for.
pub open spec fn ordering_of(sign: int) -> Ordering {
    if sign < 0 {
        Ordering::Less
    } else if sign == 0 {
        Ordering::Equal
    } else {
        Ordering::Greater
    }
}

/// The sign of the order of two numbers.
pub fn number_sign(a: i64, b: i64) -> (s: i8)
    ensures
        s == sign(a as int, b as int),
{
    if a < b {
        -1
    } else if a > b {
        1
    } else {
        0
    }
}

/// The sign of the order of two texts.
pub fn text_sign(a: &str, b: &str) -> (s: i8)
    ensures
        s == lex(a@, b@),
{
    let left = chars_of(a);
    let right = chars_of(b);
    lex_sign(&left, &right)
}

/// The sign of the order of two numbers where the greater comes first.
pub open spec fn reverse_order(a: u32, b: u32) -> int {
    sign(b as int, a as int)
}

fn reverse_sign(a: u32, b: u32) -> (s: i8)
    ensures
        s == reverse_order(a, b),
{
    if a > b {
        -1
    } else if a < b {
        1
    } else {
        0
    }
}

/// Compares two numbers so that the greater comes first.
pub fn greater_first(a: u32, b: u32) -> (o: Ordering)
    ensures
        o == ordering_of(reverse_order(a, b)),
{
    to_ordering(reverse_sign(a, b))
}

/// The `Ordering` that the sign `s` stands for.
pub fn to_ordering(s: i8) -> (o: Ordering)
    ensures
        s < 0 ==> o == Ordering::Less,
        s == 0 ==> o == Ordering::Equal,
        s > 0 ==> o == Ordering::Greater,
{
    if s < 0 {
        Ordering::Less
    } else if s == 0 {
        Ordering::Equal
    } else {
        Ordering::Greater
    }
}

} // verus!
