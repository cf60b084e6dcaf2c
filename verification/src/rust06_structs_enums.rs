//! Enums with behaviour: `Option` results and a traffic-light state machine.
use vstd::prelude::*;
use crate::strings::{push_signed_decimal, signed_decimal};

verus! {

/// The first even value, if any.
pub fn first_even(values: &[i32]) -> (r: Option<i32>)
    ensures
        match r {
            Some(x) => exists|k: int|
                0 <= k < values@.len() && values@[k] == x && x % 2 == 0 && (forall|j: int|
                    0 <= j < k ==> values@[j] % 2 != 0),
            None => forall|j: int| 0 <= j < values@.len() ==> values@[j] % 2 != 0,
        },
{
    let mut i: usize = 0;
    while i < values.len()
        invariant
            i <= values@.len(),
            forall|j: int| 0 <= j < i ==> values@[j] % 2 != 0,
        decreases values@.len() - i,
    {
        let v = values[i];
        if v % 2 == 0 {
            assert(values@[i as int] == v);
            return Some(v);
        }
        i = i + 1;
    }
    None
}

/// Half of an even number; `None` for odd numbers.
pub fn halve(n: i32) -> (r: Option<i32>)
    ensures
        n % 2 == 0 ==> r == Some((n / 2) as i32),
        n % 2 != 0 ==> r is None,
        r matches Some(h) ==> 2 * h == n,
{
    if n % 2 == 0 {
        Some(n / 2)
    } else {
        None
    }
}

/// The sentence describing half of `n`.
pub open spec fn half_description(n: i32) -> Seq<char> {
    if n % 2 == 0 {
        signed_decimal(n as int) + " 的一半是 "@ + signed_decimal(n as int / 2)
    } else {
        signed_decimal(n as int) + " 不是偶数，算不了一半"@
    }
}

pub fn describe_half(n: i32) -> (s: String)
    ensures
        s@ == half_description(n),
{
    let mut s = String::new();
    push_signed_decimal(&mut s, n as i64);
    let Some(half) = halve(n) else {
        s.append(" 不是偶数，算不了一半");
        return s;
    };
    s.append(" 的一半是 ");
    push_signed_decimal(&mut s, half as i64);
    s
}

/// A traffic light cycling red, green, yellow.
#[derive(Debug, Clone, Copy, PartialEq, Eq, Structural)]
pub enum TrafficLight {
    Red,
    Green,
    Yellow,
}

pub open spec fn next_light(l: TrafficLight) -> TrafficLight {
    match l {
        TrafficLight::Red => TrafficLight::Green,
        TrafficLight::Green => TrafficLight::Yellow,
        TrafficLight::Yellow => TrafficLight::Red,
    }
}

impl TrafficLight {
    /// The light that follows this one.
    pub fn next(&self) -> (n: Self)
        ensures
            n == next_light(*self),
    {
        match self {
            TrafficLight::Red => TrafficLight::Green,
            TrafficLight::Green => TrafficLight::Yellow,
            TrafficLight::Yellow => TrafficLight::Red,
        }
    }

    /// What a driver does at this light: stop, go, wait.
    pub fn action(&self) -> (a: &'static str)
        ensures
            a@ == match *self {
                TrafficLight::Red => "停"@,
                TrafficLight::Green => "行"@,
                TrafficLight::Yellow => "等"@,
            },
    {
        match self {
            TrafficLight::Red => "停",
            TrafficLight::Green => "行",
            TrafficLight::Yellow => "等",
        }
    }
}

/// Three steps bring every light back to where it started, and no fewer
/// steps do.
pub proof fn law_light_cycle(l: TrafficLight)
    ensures
        next_light(next_light(next_light(l))) == l,
        next_light(l) != l,
        next_light(next_light(l)) != l,
{
}

} // verus!
