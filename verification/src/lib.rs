//! Algebraic building blocks of a dining-cryptographers network: the prime
//! field of order 2^127 - 1 and the element-wise XOR group over sequences.

pub mod dc;
