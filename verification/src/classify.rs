use vstd::prelude::*;
use crate::strutil::{
    contains_seq, ends_with_seq, lower, starts_with_seq, str_contains, str_ends_with,
    str_starts_with, to_lower,
};

verus! {

// The four name-based heuristics.  They are case-insensitive substring and
// prefix matches over a fixed rule table; rule order is part of the behavior.
/// The human description attached to a function name, if any rule matches.
/// Rules are tried in this exact order; the first whose keyword occurs in the
/// lower-cased name wins.
pub open spec fn spec_function_purpose(name: Seq<char>) -> Option<Seq<char>> {
    let l = lower(name);
    if contains_seq(l, "constructor"@) {
        Option::Some("Contract initialization"@)
    } else if contains_seq(l, "transfer"@) {
        Option::Some("Transfer tokens or ETH"@)
    } else if contains_seq(l, "approve"@) {
        Option::Some("Approve token spending"@)
    } else if contains_seq(l, "mint"@) {
        Option::Some("Create new tokens"@)
    } else if contains_seq(l, "burn"@) {
        Option::Some("Destroy tokens"@)
    } else if contains_seq(l, "deposit"@) {
        Option::Some("Deposit funds"@)
    } else if contains_seq(l, "withdraw"@) {
        Option::Some("Withdraw funds"@)
    } else if contains_seq(l, "claim"@) {
        Option::Some("Claim rewards or tokens"@)
    } else if contains_seq(l, "stake"@) {
        Option::Some("Stake tokens"@)
    } else if contains_seq(l, "unstake"@) {
        Option::Some("Unstake tokens"@)
    } else if contains_seq(l, "vote"@) {
        Option::Some("Cast vote"@)
    } else if contains_seq(l, "execute"@) {
        Option::Some("Execute operation"@)
    } else if contains_seq(l, "deploy"@) {
        Option::Some("Deploy new contract instance"@)
    } else if contains_seq(l, "predictaddress"@) {
        Option::Some("Calculate deterministic address"@)
    } else if contains_seq(l, "airdrop"@) {
        Option::Some("Distribute tokens to addresses"@)
    } else if contains_seq(l, "airdroptoaddresses"@) {
        Option::Some("Send ETH to multiple addresses"@)
    } else if contains_seq(l, "airdroptokeyids"@) {
        Option::Some("Send ETH to wallets identified by public keys"@)
    } else {
        Option::None
    }
}

/// Looks up a human description for a function name.
pub fn get_function_purpose(function_name: &str) -> (r: Option<String>)
    ensures
        r.deep_view() == spec_function_purpose(function_name@),
{
    let low = to_lower(function_name);
    let l = low.as_str();
    if str_contains(l, "constructor") {
        Option::Some(String::from_str("Contract initialization"))
    } else if str_contains(l, "transfer") {
        Option::Some(String::from_str("Transfer tokens or ETH"))
    } else if str_contains(l, "approve") {
        Option::Some(String::from_str("Approve token spending"))
    } else if str_contains(l, "mint") {
        Option::Some(String::from_str("Create new tokens"))
    } else if str_contains(l, "burn") {
        Option::Some(String::from_str("Destroy tokens"))
    } else if str_contains(l, "deposit") {
        Option::Some(String::from_str("Deposit funds"))
    } else if str_contains(l, "withdraw") {
        Option::Some(String::from_str("Withdraw funds"))
    } else if str_contains(l, "claim") {
        Option::Some(String::from_str("Claim rewards or tokens"))
    } else if str_contains(l, "stake") {
        Option::Some(String::from_str("Stake tokens"))
    } else if str_contains(l, "unstake") {
        Option::Some(String::from_str("Unstake tokens"))
    } else if str_contains(l, "vote") {
        Option::Some(String::from_str("Cast vote"))
    } else if str_contains(l, "execute") {
        Option::Some(String::from_str("Execute operation"))
    } else if str_contains(l, "deploy") {
        Option::Some(String::from_str("Deploy new contract instance"))
    } else if str_contains(l, "predictaddress") {
        Option::Some(String::from_str("Calculate deterministic address"))
    } else if str_contains(l, "airdrop") {
        Option::Some(String::from_str("Distribute tokens to addresses"))
    } else if str_contains(l, "airdroptoaddresses") {
        Option::Some(String::from_str("Send ETH to multiple addresses"))
    } else if str_contains(l, "airdroptokeyids") {
        Option::Some(String::from_str("Send ETH to wallets identified by public keys"))
    } else {
        Option::None
    }
}

/// True when the lower-cased variable name holds one of the fixed
/// importance markers.
pub open spec fn spec_important_variable(name: Seq<char>) -> bool {
    let l = lower(name);
    contains_seq(l, "owner"@) || contains_seq(l, "admin"@) || contains_seq(l, "token"@)
        || contains_seq(l, "deployer"@) || contains_seq(l, "implementation"@) || contains_seq(
        l,
        "registry"@,
    ) || contains_seq(l, "factory"@)
}

/// Decides whether a variable is important enough to appear in a
/// participant description.
pub fn is_important_variable(var_name: &str) -> (r: bool)
    ensures
        r == spec_important_variable(var_name@),
{
    let low = to_lower(var_name);
    let l = low.as_str();
    str_contains(l, "owner") || str_contains(l, "admin") || str_contains(l, "token")
        || str_contains(l, "deployer") || str_contains(l, "implementation") || str_contains(
        l,
        "registry",
    ) || str_contains(l, "factory")
}

/// The type guessed from an identifier name alone.  The rules are checked in
/// this exact order and the first match wins.
pub open spec fn spec_guess_type(name: Seq<char>) -> Seq<char> {
    let l = lower(name);
    if starts_with_seq(name, "is"@) || starts_with_seq(name, "has"@) {
        "bool"@
    } else if contains_seq(l, "amount"@) || contains_seq(l, "value"@) || contains_seq(
        l,
        "balance"@,
    ) {
        "uint256"@
    } else if contains_seq(l, "address"@) || ends_with_seq(name, "Addr"@) {
        "address"@
    } else if contains_seq(l, "id"@) {
        "bytes32"@
    } else if contains_seq(l, "key"@) {
        "bytes"@
    } else {
        "any"@
    }
}

/// Guesses a plausible type for an identifier from its name.
pub fn guess_type_from_name(name: &str) -> (r: String)
    ensures
        r@ == spec_guess_type(name@),
{
    let low = to_lower(name);
    let l = low.as_str();
    if str_starts_with(name, "is") || str_starts_with(name, "has") {
        String::from_str("bool")
    } else if str_contains(l, "amount") || str_contains(l, "value") || str_contains(l, "balance") {
        String::from_str("uint256")
    } else if str_contains(l, "address") || str_ends_with(name, "Addr") {
        String::from_str("address")
    } else if str_contains(l, "id") {
        String::from_str("bytes32")
    } else if str_contains(l, "key") {
        String::from_str("bytes")
    } else {
        String::from_str("any")
    }
}

/// The display type of a literal, from its declared kind.
pub open spec fn spec_literal_type(kind: Option<Seq<char>>) -> Seq<char> {
    match kind {
        Option::Some(k) => if k == "number"@ {
            "uint256"@
        } else if k == "string"@ {
            "string"@
        } else if k == "bool"@ {
            "bool"@
        } else {
            "any"@
        },
        Option::None => "any"@,
    }
}

/// Maps a literal node's declared kind to a display type.
pub fn get_literal_type(kind: &Option<String>) -> (r: String)
    ensures
        r@ == spec_literal_type(kind.deep_view()),
{
    match kind {
        Option::Some(k) => {
            if crate::strutil::str_eq(k.as_str(), "number") {
                String::from_str("uint256")
            } else if crate::strutil::str_eq(k.as_str(), "string") {
                String::from_str("string")
            } else if crate::strutil::str_eq(k.as_str(), "bool") {
                String::from_str("bool")
            } else {
                String::from_str("any")
            }
        },
        Option::None => String::from_str("any"),
    }
}

} // verus!
