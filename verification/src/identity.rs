//! On-chain display identities.
//!
//! A validator's registered identity is a display name, optionally qualified
//! by a sub-identity name, rendered as `name/sub`.

use vstd::prelude::*;
use vstd::utf8::{decode_utf8, valid_utf8};

verus! {

/// One field of a registered on-chain identity: raw displayable bytes, or a
/// form that carries no displayable text (a hash commitment, or nothing
/// registered at all).
pub enum IdentityData {
    Raw(Vec<u8>),
    Hashed,
    Unset,
}

/// Relies on String::from_utf8: the bytes come back as a string exactly when
/// they are valid UTF-8, and the string holds their decoding.
#[verifier::external_body]
fn string_from_utf8(bytes: Vec<u8>) -> (r: Option<String>)
    ensures
        (r is Some) == valid_utf8(bytes@),
        r matches Some(s) ==> s@ == decode_utf8(bytes@),
{
    String::from_utf8(bytes).ok()
}

/// The display text of one identity field: the raw bytes decoded, or `???`
/// where the field holds no displayable text.
pub fn parse_identity_data(data: IdentityData) -> (r: String)
    requires
        data matches IdentityData::Raw(bytes) ==> valid_utf8(bytes@),
    ensures
        r@ == match data {
            IdentityData::Raw(bytes) => decode_utf8(bytes@),
            IdentityData::Hashed => "???"@,
            IdentityData::Unset => "???"@,
        },
{
    match data {
        IdentityData::Raw(bytes) => match string_from_utf8(bytes) {
            Some(s) => s,
            None => String::new(),
        },
        IdentityData::Hashed => String::from_str("???"),
        IdentityData::Unset => String::from_str("???"),
    }
}

/// The shortened form of an address, used as the display name of a validator
/// with no registered identity: its first six characters, an ellipsis, and
/// its last six.
pub fn shortened_address(s: &str) -> (r: String)
    requires
        s@.len() >= 6,
    ensures
        r@ == (s@.subrange(0, 6) + "..."@) + s@.subrange(s@.len() - 6, s@.len() as int),
{
    let n = s.unicode_len();
    let head = s.substring_char(0, 6);
    let tail = s.substring_char(n - 6, n);
    String::from_str(head).concat("...").concat(tail)
}

/// A resolved on-chain identity: a display name and an optional sub-name.
#[derive(Debug)]
pub struct Identity {
    name: String,
    sub: Option<String>,
}

/// How an identity renders: `name/sub` with a sub-identity, the bare name
/// without one.
pub open spec fn rendered_identity(name: Seq<char>, sub: Option<Seq<char>>) -> Seq<char> {
    match sub {
        Some(s) => (name + "/"@) + s,
        None => name,
    }
}

impl Identity {
    /// The display name.
    pub closed spec fn name_view(&self) -> Seq<char> {
        self.name@
    }

    /// The sub-identity name, if any.
    pub closed spec fn sub_view(&self) -> Option<Seq<char>> {
        match self.sub {
            Some(ref s) => Some(s@),
            None => None,
        }
    }

    /// An identity with a bare display name.
    pub fn with_name(name: String) -> (r: Self)
        ensures
            r.name_view() == name@,
            r.sub_view() is None,
    {
        Identity { name, sub: None }
    }

    /// An identity qualified by a sub-identity name.
    pub fn with_name_and_sub(name: String, sub: String) -> (r: Self)
        ensures
            r.name_view() == name@,
            r.sub_view() == Some(sub@),
    {
        Identity { name, sub: Some(sub) }
    }

    /// The identity rendered as text.
    pub fn full_name(&self) -> (r: String)
        ensures
            r@ == rendered_identity(self.name_view(), self.sub_view()),
    {
        match &self.sub {
            Some(sub) => self.name.clone().concat("/").concat(sub.as_str()),
            None => self.name.clone(),
        }
    }
}

impl Clone for Identity {
    fn clone(&self) -> (r: Self)
        ensures
            r.name_view() == self.name_view(),
            r.sub_view() == self.sub_view(),
    {
        Identity {
            name: self.name.clone(),
            sub: match &self.sub {
                Some(s) => Some(s.clone()),
                None => None,
            },
        }
    }
}

} // verus!
