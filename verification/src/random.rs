//! Random numbers from a uniform distribution.
//!
//! Every function here hands its work to the `rand` crate and its generator of
//! the current thread. What comes back differs from call to call, so the
//! contracts state only what holds of every outcome: the range of a bounded
//! number. That each value of the range is as likely as any other is the
//! promise of `rand`; no contract states it.
//!
//! The generator takes its seed from the operating system, when a thread
//! first draws and at each reseed. Where the system gives it none, `rand`
//! stops the program. No precondition can leave that out, any more than
//! running out of memory.

use rand::Rng;
use vstd::prelude::*;

verus! {

/// A random `u8`, each value as likely as any other.
///
/// Calls `rand::random::<u8>()`. Any `u8` may come back, so there is nothing
/// to claim of the result.
#[verifier::external_body]
pub fn u8() -> u8 {
    rand::random()
}

/// Calls `Rng::gen_range(low..high)` on `rand::thread_rng()`. That call panics
/// on an empty range, which `requires` leaves out; for any other it returns a
/// number of the range, the lower end included and the upper end not.
#[verifier::external_body]
fn u8_in_range(low: u8, high: u8) -> (r: u8)
    requires
        low < high,
    ensures
        low <= r < high,
{
    rand::thread_rng().gen_range(low..high)
}

/// A random `u8` from 0 up to `upper_bound`, which itself is never returned.
pub fn u8_bound(upper_bound: u8) -> (r: u8)
    requires
        upper_bound > 0,
    ensures
        0 <= r < upper_bound,
{
    u8_in_range(0, upper_bound)
}

/// A random `u16`, each value as likely as any other.
///
/// Calls `rand::random::<u16>()`. Any `u16` may come back, so there is nothing
/// to claim of the result.
#[verifier::external_body]
pub fn u16() -> u16 {
    rand::random()
}

/// Calls `Rng::gen_range(low..high)` on `rand::thread_rng()`. That call panics
/// on an empty range, which `requires` leaves out; for any other it returns a
/// number of the range, the lower end included and the upper end not.
#[verifier::external_body]
fn u16_in_range(low: u16, high: u16) -> (r: u16)
    requires
        low < high,
    ensures
        low <= r < high,
{
    rand::thread_rng().gen_range(low..high)
}

/// A random `u16` from 0 up to `upper_bound`, which itself is never returned.
pub fn u16_bound(upper_bound: u16) -> (r: u16)
    requires
        upper_bound > 0,
    ensures
        0 <= r < upper_bound,
{
    u16_in_range(0, upper_bound)
}

/// A random `u32`, each value as likely as any other.
///
/// Calls `rand::random::<u32>()`. Any `u32` may come back, so there is nothing
/// to claim of the result.
#[verifier::external_body]
pub fn u32() -> u32 {
    rand::random()
}

/// Calls `Rng::gen_range(low..high)` on `rand::thread_rng()`. That call panics
/// on an empty range, which `requires` leaves out; for any other it returns a
/// number of the range, the lower end included and the upper end not.
#[verifier::external_body]
fn u32_in_range(low: u32, high: u32) -> (r: u32)
    requires
        low < high,
    ensures
        low <= r < high,
{
    rand::thread_rng().gen_range(low..high)
}

/// A random `u32` from 0 up to `upper_bound`, which itself is never returned.
pub fn u32_bound(upper_bound: u32) -> (r: u32)
    requires
        upper_bound > 0,
    ensures
        0 <= r < upper_bound,
{
    u32_in_range(0, upper_bound)
}

/// A random `u64`, each value as likely as any other.
///
/// Calls `rand::random::<u64>()`. Any `u64` may come back, so there is nothing
/// to claim of the result.
#[verifier::external_body]
pub fn u64() -> u64 {
    rand::random()
}

/// Calls `Rng::gen_range(low..high)` on `rand::thread_rng()`. That call panics
/// on an empty range, which `requires` leaves out; for any other it returns a
/// number of the range, the lower end included and the upper end not.
#[verifier::external_body]
fn u64_in_range(low: u64, high: u64) -> (r: u64)
    requires
        low < high,
    ensures
        low <= r < high,
{
    rand::thread_rng().gen_range(low..high)
}

/// A random `u64` from 0 up to `upper_bound`, which itself is never returned.
pub fn u64_bound(upper_bound: u64) -> (r: u64)
    requires
        upper_bound > 0,
    ensures
        0 <= r < upper_bound,
{
    u64_in_range(0, upper_bound)
}

/// A random `u128`, each value as likely as any other.
///
/// Calls `rand::random::<u128>()`. Any `u128` may come back, so there is nothing
/// to claim of the result.
#[verifier::external_body]
pub fn u128() -> u128 {
    rand::random()
}

/// Calls `Rng::gen_range(low..high)` on `rand::thread_rng()`. That call panics
/// on an empty range, which `requires` leaves out; for any other it returns a
/// number of the range, the lower end included and the upper end not.
#[verifier::external_body]
fn u128_in_range(low: u128, high: u128) -> (r: u128)
    requires
        low < high,
    ensures
        low <= r < high,
{
    rand::thread_rng().gen_range(low..high)
}

/// A random `u128` from 0 up to `upper_bound`, which itself is never returned.
pub fn u128_bound(upper_bound: u128) -> (r: u128)
    requires
        upper_bound > 0,
    ensures
        0 <= r < upper_bound,
{
    u128_in_range(0, upper_bound)
}

/// A random `usize`, each value as likely as any other.
///
/// Calls `rand::random::<usize>()`. Any `usize` may come back, so there is nothing
/// to claim of the result.
#[verifier::external_body]
pub fn usize() -> usize {
    rand::random()
}

/// Calls `Rng::gen_range(low..high)` on `rand::thread_rng()`. That call panics
/// on an empty range, which `requires` leaves out; for any other it returns a
/// number of the range, the lower end included and the upper end not.
#[verifier::external_body]
fn usize_in_range(low: usize, high: usize) -> (r: usize)
    requires
        low < high,
    ensures
        low <= r < high,
{
    rand::thread_rng().gen_range(low..high)
}

/// A random `usize` from 0 up to `upper_bound`, which itself is never returned.
pub fn usize_bound(upper_bound: usize) -> (r: usize)
    requires
        upper_bound > 0,
    ensures
        0 <= r < upper_bound,
{
    usize_in_range(0, upper_bound)
}

/// A random `i8`, each value as likely as any other.
///
/// Calls `rand::random::<i8>()`. Any `i8` may come back, so there is nothing
/// to claim of the result.
#[verifier::external_body]
pub fn i8() -> i8 {
    rand::random()
}

/// Calls `Rng::gen_range(low..high)` on `rand::thread_rng()`. That call panics
/// on an empty range, which `requires` leaves out; for any other it returns a
/// number of the range, the lower end included and the upper end not.
#[verifier::external_body]
fn i8_in_range(low: i8, high: i8) -> (r: i8)
    requires
        low < high,
    ensures
        low <= r < high,
{
    rand::thread_rng().gen_range(low..high)
}

/// A random `i8` from 0 up to `upper_bound`, which itself is never returned.
pub fn i8_bound(upper_bound: i8) -> (r: i8)
    requires
        upper_bound > 0,
    ensures
        0 <= r < upper_bound,
{
    i8_in_range(0, upper_bound)
}

/// A random `i16`, each value as likely as any other.
///
/// Calls `rand::random::<i16>()`. Any `i16` may come back, so there is nothing
/// to claim of the result.
#[verifier::external_body]
pub fn i16() -> i16 {
    rand::random()
}

/// Calls `Rng::gen_range(low..high)` on `rand::thread_rng()`. That call panics
/// on an empty range, which `requires` leaves out; for any other it returns a
/// number of the range, the lower end included and the upper end not.
#[verifier::external_body]
fn i16_in_range(low: i16, high: i16) -> (r: i16)
    requires
        low < high,
    ensures
        low <= r < high,
{
    rand::thread_rng().gen_range(low..high)
}

/// A random `i16` from 0 up to `upper_bound`, which itself is never returned.
pub fn i16_bound(upper_bound: i16) -> (r: i16)
    requires
        upper_bound > 0,
    ensures
        0 <= r < upper_bound,
{
    i16_in_range(0, upper_bound)
}

/// A random `i32`, each value as likely as any other.
///
/// Calls `rand::random::<i32>()`. Any `i32` may come back, so there is nothing
/// to claim of the result.
#[verifier::external_body]
pub fn i32() -> i32 {
    rand::random()
}

/// Calls `Rng::gen_range(low..high)` on `rand::thread_rng()`. That call panics
/// on an empty range, which `requires` leaves out; for any other it returns a
/// number of the range, the lower end included and the upper end not.
#[verifier::external_body]
fn i32_in_range(low: i32, high: i32) -> (r: i32)
    requires
        low < high,
    ensures
        low <= r < high,
{
    rand::thread_rng().gen_range(low..high)
}

/// A random `i32` from 0 up to `upper_bound`, which itself is never returned.
pub fn i32_bound(upper_bound: i32) -> (r: i32)
    requires
        upper_bound > 0,
    ensures
        0 <= r < upper_bound,
{
    i32_in_range(0, upper_bound)
}

/// A random `i64`, each value as likely as any other.
///
/// Calls `rand::random::<i64>()`. Any `i64` may come back, so there is nothing
/// to claim of the result.
#[verifier::external_body]
pub fn i64() -> i64 {
    rand::random()
}

/// Calls `Rng::gen_range(low..high)` on `rand::thread_rng()`. That call panics
/// on an empty range, which `requires` leaves out; for any other it returns a
/// number of the range, the lower end included and the upper end not.
#[verifier::external_body]
fn i64_in_range(low: i64, high: i64) -> (r: i64)
    requires
        low < high,
    ensures
        low <= r < high,
{
    rand::thread_rng().gen_range(low..high)
}

/// A random `i64` from 0 up to `upper_bound`, which itself is never returned.
pub fn i64_bound(upper_bound: i64) -> (r: i64)
    requires
        upper_bound > 0,
    ensures
        0 <= r < upper_bound,
{
    i64_in_range(0, upper_bound)
}

/// A random `i128`, each value as likely as any other.
///
/// Calls `rand::random::<i128>()`. Any `i128` may come back, so there is nothing
/// to claim of the result.
#[verifier::external_body]
pub fn i128() -> i128 {
    rand::random()
}

/// Calls `Rng::gen_range(low..high)` on `rand::thread_rng()`. That call panics
/// on an empty range, which `requires` leaves out; for any other it returns a
/// number of the range, the lower end included and the upper end not.
#[verifier::external_body]
fn i128_in_range(low: i128, high: i128) -> (r: i128)
    requires
        low < high,
    ensures
        low <= r < high,
{
    rand::thread_rng().gen_range(low..high)
}

/// A random `i128` from 0 up to `upper_bound`, which itself is never returned.
pub fn i128_bound(upper_bound: i128) -> (r: i128)
    requires
        upper_bound > 0,
    ensures
        0 <= r < upper_bound,
{
    i128_in_range(0, upper_bound)
}

/// A random `isize`, each value as likely as any other.
///
/// Calls `rand::random::<isize>()`. Any `isize` may come back, so there is nothing
/// to claim of the result.
#[verifier::external_body]
pub fn isize() -> isize {
    rand::random()
}

/// Calls `Rng::gen_range(low..high)` on `rand::thread_rng()`. That call panics
/// on an empty range, which `requires` leaves out; for any other it returns a
/// number of the range, the lower end included and the upper end not.
#[verifier::external_body]
fn isize_in_range(low: isize, high: isize) -> (r: isize)
    requires
        low < high,
    ensures
        low <= r < high,
{
    rand::thread_rng().gen_range(low..high)
}

/// A random `isize` from 0 up to `upper_bound`, which itself is never returned.
pub fn isize_bound(upper_bound: isize) -> (r: isize)
    requires
        upper_bound > 0,
    ensures
        0 <= r < upper_bound,
{
    isize_in_range(0, upper_bound)
}

/// A random `bool`, `true` as likely as `false`.
///
/// Calls `rand::random::<bool>()`. Either value may come back, so there is
/// nothing to claim of the result.
#[verifier::external_body]
pub fn bool() -> bool {
    rand::random()
}

} // verus!
