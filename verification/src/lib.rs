//! Choosing the cheapest of the delivery prices that competing courier
//! services quote for one parcel.
//!
//! A price is an IEEE 754 binary64 number. The library holds it as its bit
//! pattern ([`costo::Costo`]) and decides on the pattern alone; the arithmetic
//! that produces a price is left to the caller.

pub mod costo;
pub mod seleccion;
