//! BIP44-style account paths.
#![allow(non_camel_case_types)]

use vstd::prelude::*;
use vstd::string::StringExecFns;

verus! {

/// The ten decimal digits, in order.
pub open spec fn digit_chars() -> Seq<char> {
    seq!['0', '1', '2', '3', '4', '5', '6', '7', '8', '9']
}

/// Decimal notation of `n`, most significant digit first, without leading zeros.
pub open spec fn decimal_of(n: nat) -> Seq<char>
    decreases n,
{
    if n < 10 {
        seq![digit_chars()[n as int]]
    } else {
        decimal_of(n / 10).push(digit_chars()[(n % 10) as int])
    }
}

fn digit_str(d: u32) -> (r: &'static str)
    requires
        d < 10,
    ensures
        r@ == seq![digit_chars()[d as int]],
{
    proof {
        reveal_strlit("0");
        reveal_strlit("1");
        reveal_strlit("2");
        reveal_strlit("3");
        reveal_strlit("4");
        reveal_strlit("5");
        reveal_strlit("6");
        reveal_strlit("7");
        reveal_strlit("8");
        reveal_strlit("9");
    }
    match d {
        0 => "0",
        1 => "1",
        2 => "2",
        3 => "3",
        4 => "4",
        5 => "5",
        6 => "6",
        7 => "7",
        8 => "8",
        _ => "9",
    }
}

/// Appends the decimal notation of `n` to `s`.
pub fn push_decimal(s: &mut String, n: u32)
    ensures
        final(s)@ == old(s)@ + decimal_of(n as nat),
    decreases n,
{
    if n >= 10 {
        push_decimal(s, n / 10);
    }
    s.append(digit_str(n % 10));
    assert(final(s)@ == old(s)@ + decimal_of(n as nat));
}

/// What an account's addresses are used for.
#[derive(Clone, Copy, Debug, PartialEq, Eq, Structural)]
pub enum account_usage {
    Receive,
    Change,
}

impl account_usage {
    /// The path component of the usage: `0` for receiving, `1` for change.
    pub open spec fn spec_num(self) -> int {
        match self {
            account_usage::Receive => 0,
            account_usage::Change => 1,
        }
    }

    pub fn get_num(&self) -> (r: i32)
        ensures
            r == self.spec_num(),
    {
        match self {
            account_usage::Receive => 0,
            account_usage::Change => 1,
        }
    }

    /// The usage whose path component is `i`; only `0` and `1` name one.
    pub fn from_num(i: u8) -> (r: Self)
        requires
            i <= 1,
        ensures
            r.spec_num() == i,
    {
        match i {
            0 => account_usage::Receive,
            _ => account_usage::Change,
        }
    }
}

/// An account under purpose 44: coin type, account index and usage.
#[derive(Clone, Copy, Debug, PartialEq, Eq, Structural)]
pub struct account_path {
    pub coin_type: u32,
    pub account_index: u32,
    pub usage: account_usage,
}

/// The text of a BIP44 path `m/44/<coin>/<account>/<usage>`.
pub open spec fn bip44_path(coin_type: nat, account_index: nat, usage: nat) -> Seq<char> {
    seq!['m', '/', '4', '4', '/'] + decimal_of(coin_type) + seq!['/'] + decimal_of(account_index)
        + seq!['/'] + decimal_of(usage)
}

impl account_path {
    pub open spec fn spec_path(self) -> Seq<char> {
        bip44_path(self.coin_type as nat, self.account_index as nat, self.usage.spec_num() as nat)
    }

    pub fn init(coin_type: u32, index: u32, usage: account_usage) -> (r: Self)
        ensures
            r.coin_type == coin_type,
            r.account_index == index,
            r.usage == usage,
    {
        account_path { coin_type, account_index: index, usage }
    }

    /// The path string `m/44/<coin_type>/<account_index>/<usage>`.
    pub fn get_path_string_bip44(&self) -> (r: String)
        ensures
            r@ == self.spec_path(),
    {
        let mut s = String::new();
        proof {
            reveal_strlit("m/44/");
            reveal_strlit("/");
        }
        s.append("m/44/");
        push_decimal(&mut s, self.coin_type);
        s.append("/");
        push_decimal(&mut s, self.account_index);
        s.append("/");
        let u = self.usage.get_num();
        push_decimal(&mut s, u as u32);
        assert(s@ == self.spec_path());
        s
    }
}

} // verus!
