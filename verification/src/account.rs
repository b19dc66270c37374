//! The account that is logged in to.

use vstd::prelude::*;
use vstd::string::*;

use crate::property_list::{Entries, Node};
use crate::text::decimal_text;

verus! {

/// The SHA-256 digest of some bytes.
pub uninterp spec fn sha256(data: Seq<u8>) -> Seq<u8>;

/// `Sha256::digest` gives the digest of some bytes, which has thirty-two bytes. How it comes
/// about is not stated.
#[verifier::external_body]
fn sha256_digest(data: &[u8]) -> (digest: Vec<u8>)
    ensures
        digest@ == sha256(data@),
        digest@.len() == 32,
{
    let digest = <sha2::Sha256 as sha2::Digest>::digest(data);
    digest.to_vec()
}

/// What stands for a password at login: the digest of its bytes in UTF-8.
pub fn hash_password(password: &str) -> (hash: Vec<u8>)
    ensures
        hash@ == sha256(vstd::utf8::encode_utf8(password@)),
        hash@.len() == 32,
{
    sha256_digest(password.as_bytes())
}

/// How an account is known to the services.
pub struct AccountIds {
    pub dsid: String,
    pub adsid: String,
}

/// The content of the identifiers of an account.
pub struct AccountIdsView {
    pub dsid: Seq<char>,
    pub adsid: Seq<char>,
}

impl View for AccountIds {
    type V = AccountIdsView;

    open spec fn view(&self) -> AccountIdsView {
        AccountIdsView { dsid: self.dsid@, adsid: self.adsid@ }
    }
}

/// The identifiers of an account in what a login returns, if both are there: one as a number
/// of 64 bits without a sign, the other as text.
pub open spec fn ids_in(entries: Entries) -> Option<AccountIdsView> {
    match (
        crate::property_list::lookup(entries, "DsPrsId"@),
        crate::property_list::lookup(entries, "adsid"@),
    ) {
        (Some(Node::Integer(n)), Some(Node::Text(adsid))) => if 0 <= n <= u64::MAX {
            Some(AccountIdsView { dsid: crate::text::decimal(n as nat), adsid })
        } else {
            None
        },
        _ => None,
    }
}

/// Finds the identifiers of an account in what a login returned.
pub fn account_ids(spd: &plist::Dictionary) -> (ids: Option<AccountIds>)
    ensures
        match ids {
            Some(i) => ids_in(crate::property_list::dictionary_entries(*spd)) == Some(i@),
            None => ids_in(crate::property_list::dictionary_entries(*spd)) is None,
        },
        ({
            let entries = crate::property_list::dictionary_entries(*spd);
            let dsid = crate::property_list::lookup(entries, "DsPrsId"@);
            let adsid = crate::property_list::lookup(entries, "adsid"@);
            match ids {
                Some(i) => {
                    &&& dsid matches Some(Node::Integer(n)) && 0 <= n <= u64::MAX && i.dsid@
                        == crate::text::decimal(n as nat)
                    &&& adsid == Some(Node::Text(i.adsid@))
                },
                None => {
                    ||| !(dsid matches Some(Node::Integer(n)) && 0 <= n <= u64::MAX)
                    ||| !(adsid matches Some(Node::Text(_)))
                },
            }
        }),
{
    let dsid: u64 = match spd.get("DsPrsId") {
        Some(value) => match value.as_unsigned_integer() {
            Some(number) => number,
            None => {
                return None;
            },
        },
        None => {
            return None;
        },
    };
    let adsid = match spd.get("adsid") {
        Some(value) => match value.as_string() {
            Some(text) => text,
            None => {
                return None;
            },
        },
        None => {
            return None;
        },
    };
    Some(AccountIds { dsid: decimal_text(dsid), adsid: adsid.to_string() })
}

/// The identifiers are those that the login returned: the number, in a notation that reads back
/// as that number, and the text, whatever it is. They are found exactly where both are there.
pub proof fn lemma_ids_are_those_of_the_login(entries: Entries, n: u64, text: Seq<char>)
    ensures
        crate::property_list::lookup(entries, "DsPrsId"@) == Some(Node::Integer(n as int))
            && crate::property_list::lookup(entries, "adsid"@) == Some(Node::Text(text)) ==> {
            &&& ids_in(entries) matches Some(ids)
            &&& crate::text::number(ids.dsid) == Some(n as nat)
            &&& ids.dsid == crate::text::decimal(n as nat)
            &&& ids.adsid == text
        },
        ids_in(entries) matches Some(ids) ==> {
            &&& crate::property_list::lookup(entries, "adsid"@) == Some(Node::Text(ids.adsid))
            &&& crate::text::number(ids.dsid) matches Some(m) && m <= u64::MAX
                && crate::property_list::lookup(entries, "DsPrsId"@) == Some(
                Node::Integer(m as int),
            )
        },
{
    crate::text::lemma_decimal_round_trip(n as nat);
    if let Some(Node::Integer(m)) = crate::property_list::lookup(entries, "DsPrsId"@) {
        if m >= 0 {
            crate::text::lemma_decimal_round_trip(m as nat);
        }
    }
}

/// The identifiers of an account are looked at as they are.
pub proof fn lemma_account_ids_view(ids: AccountIds)
    ensures
        ids@.dsid == ids.dsid@,
        ids@.adsid == ids.adsid@,
{
}

} // verus!
