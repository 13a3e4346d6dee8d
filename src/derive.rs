//! Derivation of an account's child key from a stored share: one local round, no messages.

use vstd::prelude::*;
use crate::account::{account_path, account_usage};
use crate::hd::{be_bytes, be_value, curve_order, hd_key_of, HdError};
use crate::share::{call_hd_key, raw_share};

verus! {

/// The only round: derive the account's tweak and child key from the share's group key.
pub struct Round0 {
    pub ac_path: account_path,
    pub raw_share: raw_share,
}

impl Round0 {
    /// The net tweak and child public key of the account path.
    pub fn proceed(self) -> (r: Result<(Vec<u8>, Vec<u8>), HdError>)
        requires
            self.raw_share.local_key_hd.well_formed(),
            self.raw_share.chain_code@.len() == 32,
        ensures
            match hd_key_of(self.ac_path.spec_path(), self.raw_share.local_key_hd.y_sum_s@, self.raw_share.chain_code@) {
                Ok((tweak, child)) => r matches Ok((t, c)) && t@ == be_bytes(tweak, 32) && t@.len() == 32
                    && be_value(t@) == tweak && tweak < curve_order() && c@ == child,
                Err(e) => r == Err::<(Vec<u8>, Vec<u8>), HdError>(e),
            },
    {
        let path = self.ac_path.get_path_string_bip44();
        call_hd_key(path.as_str(), &self.raw_share.local_key_hd, &self.raw_share.chain_code)
    }

    /// Derivation hashes and multiplies on the curve at every level.
    pub fn is_expensive(&self) -> (r: bool)
        ensures
            r,
    {
        true
    }
}

/// Derivation of account `index` of coin type `0` for one party's share.
pub struct Derive {
    round: Round0,
}

impl Derive {
    pub closed spec fn spec_round(&self) -> Round0 {
        self.round
    }

    /// The derivation of account `m/44/0/<index>/<usage>` from `raw_share`; the party index
    /// `i` is not needed for it.
    pub fn new(i: u16, index: u16, account_type: account_usage, raw_share: raw_share) -> (r: Self)
        ensures
            r.spec_round().ac_path.coin_type == 0,
            r.spec_round().ac_path.account_index == index,
            r.spec_round().ac_path.usage == account_type,
            r.spec_round().raw_share == raw_share,
    {
        let path = account_path::init(0, index as u32, account_type);
        Derive { round: Round0 { ac_path: path, raw_share } }
    }

    /// Runs the round: the net tweak and child public key of the account.
    pub fn proceed(self) -> (r: Result<(Vec<u8>, Vec<u8>), HdError>)
        requires
            self.spec_round().raw_share.local_key_hd.well_formed(),
            self.spec_round().raw_share.chain_code@.len() == 32,
        ensures
            match hd_key_of(
                self.spec_round().ac_path.spec_path(),
                self.spec_round().raw_share.local_key_hd.y_sum_s@,
                self.spec_round().raw_share.chain_code@,
            ) {
                Ok((tweak, child)) => r matches Ok((t, c)) && t@ == be_bytes(tweak, 32) && t@.len() == 32
                    && be_value(t@) == tweak && tweak < curve_order() && c@ == child,
                Err(e) => r == Err::<(Vec<u8>, Vec<u8>), HdError>(e),
            },
    {
        self.round.proceed()
    }
}

} // verus!
