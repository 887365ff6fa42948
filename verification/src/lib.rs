//! A fixed-capacity Bloom filter: approximate set membership with no false
//! negatives, over a small bit array and a fixed number of seeded hashes.

pub mod bits;
pub mod hash;
pub mod params;
pub mod seeds;
pub mod model;
pub mod filter;

pub use filter::Bloom;
