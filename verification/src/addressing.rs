//! Address and coin enumerations.

use vstd::prelude::*;

verus! {

/// An IP address, by protocol version.
#[derive(Debug)]
pub enum IpAddrKind {
    V4(u8, u8, u8, u8),
    V6(String),
}

/// A message with per-variant payloads.
pub enum Message {
    Quit,
    Move { s: i32, v: i32 },
    Write(String),
    ChangeColor(i32, i32, i32),
}

/// States a quarter may come from.
#[derive(Clone, Copy, Debug, PartialEq, Eq, Structural)]
pub enum UsState {
    Alaska,
    Idaho,
    Oregon,
    Washington,
}

/// United States coins.
#[derive(Debug)]
pub enum Coin {
    Penny,
    Nickel,
    Dime,
    Quarter(UsState),
}

/// Face value of each coin, in cents.
pub open spec fn cents_of(c: Coin) -> u8 {
    match c {
        Coin::Penny => 1,
        Coin::Nickel => 5,
        Coin::Dime => 10,
        Coin::Quarter(_) => 25,
    }
}

/// The face value of a coin.
pub fn value_in_cents(coin: &Coin) -> (r: u8)
    ensures
        r == cents_of(*coin),
{
    match coin {
        Coin::Penny => 1,
        Coin::Nickel => 5,
        Coin::Dime => 10,
        Coin::Quarter(_state) => 25,
    }
}

} // verus!
