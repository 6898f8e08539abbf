//! MAC addresses read from text with `macaddr`.
use vstd::prelude::*;
use crate::json::{Json, JsonV, opt_str, str_in, view_opt};
use crate::text::{to_uppercase, unicode_uppercase};

verus! {

/// The bytes of the MAC address `MacAddr::from_str` reads from a text, when
/// it reads one.
pub uninterp spec fn mac_text_bytes(s: Seq<char>) -> Option<Seq<u8>>;

/// `macaddr::MacAddr::from_str`, giving the address's bytes.  The contract
/// names the result and states that an address has 6 or 8 bytes (its two
/// variants hold `[u8; 6]` and `[u8; 8]`); it claims nothing of the
/// accepted notations.
#[verifier::external_body]
pub(crate) fn mac_from_text(s: &str) -> (r: Option<Vec<u8>>)
    ensures
        match r {
            Some(b) => mac_text_bytes(s@) == Some(b@) && (b@.len() == 6 || b@.len() == 8),
            None => mac_text_bytes(s@) is None,
        },
{
    match s.parse::<macaddr::MacAddr>() {
        Ok(mac) => Some(mac.as_bytes().to_vec()),
        Err(_) => None,
    }
}

/// The MAC address a text value gives: the bytes `MacAddr::from_str` reads
/// from it.
pub open spec fn text_mac(v: Option<JsonV>) -> Option<Seq<u8>> {
    match opt_str(v) {
        Some(s) => mac_text_bytes(s),
        None => None,
    }
}

/// The MAC address a text value gives (see [`text_mac`]), as its bytes.
pub fn parse_text_mac(v: Option<&Json>) -> (r: Option<Vec<u8>>)
    ensures
        match r {
            Some(b) => text_mac(view_opt(v)) == Some(b@),
            None => text_mac(view_opt(v)) is None,
        },
{
    match str_in(v) {
        Some(s) => mac_from_text(s),
        None => None,
    }
}

/// The MAC address an upper-cased text value gives: the bytes
/// `MacAddr::from_str` reads from the text's Unicode upper-case form.
pub open spec fn upper_text_mac(v: Option<JsonV>) -> Option<Seq<u8>> {
    match opt_str(v) {
        Some(s) => mac_text_bytes(unicode_uppercase(s)),
        None => None,
    }
}

/// The MAC address an upper-cased text value gives (see
/// [`upper_text_mac`]), as its bytes.
pub fn parse_upper_text_mac(v: Option<&Json>) -> (r: Option<Vec<u8>>)
    ensures
        match r {
            Some(b) => upper_text_mac(view_opt(v)) == Some(b@),
            None => upper_text_mac(view_opt(v)) is None,
        },
{
    match str_in(v) {
        Some(s) => {
            let upper = to_uppercase(s);
            mac_from_text(upper.as_str())
        },
        None => None,
    }
}

} // verus!
