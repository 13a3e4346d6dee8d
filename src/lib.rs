//! Threshold ECDSA key management: the key-generation rounds and the state machine that
//! drives them over message stores, the no-small-factor proof, and BIP32 public derivation
//! applied to a threshold key share.
pub mod account;
pub mod bignum;
pub mod derive;
pub mod dkg;
pub mod hd;
pub mod keygen;
pub mod laws;
pub mod nsf;
pub mod nsf_laws;
pub mod rounds;
pub mod share;
pub mod store;
