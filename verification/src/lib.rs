//! A ring of mutually untrusted nodes evaluates a chained linear expression
//! over the Paillier partially homomorphic cryptosystem.  The master encrypts
//! its initial term, every relay folds its own scalar pair into the encrypted
//! accumulator without decrypting, and only the master ever sees a plaintext.
//!
//! `hex` holds the verified base-16 text representation of the
//! arbitrary-precision integers that cross the wire, `scheme` the homomorphic
//! capability behind trusted wrappers, `codec` the verified wire framing, and
//! `node` the role state machine together with the ring algebra.

pub mod codec;
pub mod hex;
pub mod node;
pub mod scheme;
