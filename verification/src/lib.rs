//! Random unsigned integers with a chosen number of one bits.
//!
//! A value of eight bits is picked from a table that lists, for each count of
//! one bits, every byte with that count. A wider value is put together from
//! two halves: the count is split between them at random, each half is drawn
//! with its share, and the two are joined.
//!
//! Every sampler is proved to hand back a value with exactly the number of
//! one bits that was asked for, whatever the random source yields.
//!
//! # Example
//!
//! ```rust
//! use rand::thread_rng;
//! use rand_bits::gen_bits;
//!
//! let mut rng = thread_rng();
//! let x: u8 = gen_bits(&mut rng, 4); // a u8 with 4 set bits
//! assert_eq!(x.count_ones(), 4);
//! let y: u16 = gen_bits(&mut rng, 15); // a u16 with 15 set bits
//! assert_eq!(y.count_ones(), 15);
//! ```

pub mod compose;
pub mod counting;
pub mod distribution;
mod source;
pub mod table;
pub mod weight;

pub use distribution::{gen_bits, try_gen_bits, Distribution, Standard};
