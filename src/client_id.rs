//! Client identifiers: 128-bit values written in the standard UUID form.
use vstd::prelude::*;

verus! {

/// The value that `Uuid::parse_str` reads from a text, if it reads one.
pub uninterp spec fn uuid_value(s: Seq<char>) -> Option<u128>;

/// The hyphenated lower-case form that uuid writes for a value.
pub uninterp spec fn uuid_text(id: u128) -> Seq<char>;

/// A lower-case hexadecimal digit.
pub open spec fn is_lower_hex(c: char) -> bool {
    ('0' <= c && c <= '9') || ('a' <= c && c <= 'f')
}

/// The hyphenated form: 32 hexadecimal digits in groups of 8, 4, 4, 4 and 12.
pub open spec fn is_hyphenated(s: Seq<char>) -> bool {
    &&& s.len() == 36
    &&& forall|i: int|
        0 <= i < 36 ==> if i == 8 || i == 13 || i == 18 || i == 23 {
            s[i] == '-'
        } else {
            is_lower_hex(#[trigger] s[i])
        }
}

/// Relies on uuid::Uuid::parse_str, which accepts the usual textual forms.
#[verifier::external_body]
fn parse_uuid(s: &str) -> (r: Option<u128>)
    ensures
        r == uuid_value(s@),
{
    match uuid::Uuid::parse_str(s) {
        Ok(u) => Some(u.as_u128()),
        Err(_) => None,
    }
}

/// Relies on uuid's `Display` for `Uuid`: the hyphenated lower-case form
/// (`format_hyphenated`), which `Uuid::parse_str` reads back, as its
/// documentation says of every form the crate writes.
#[verifier::external_body]
fn format_uuid(id: u128) -> (r: String)
    ensures
        r@ == uuid_text(id),
        is_hyphenated(r@),
        uuid_value(r@) == Some(id),
{
    uuid::Uuid::from_u128(id).to_string()
}

/// Identifies one event stream that a server accepted.
#[derive(Clone, Copy, Debug, PartialEq, Eq, Hash, Structural)]
pub struct ClientId(pub u128);

impl ClientId {
    /// The standard textual form of the identifier.
    pub fn to_text(&self) -> (r: String)
        ensures
            r@ == uuid_text(self.0),
            is_hyphenated(r@),
            uuid_value(r@) == Some(self.0),
    {
        format_uuid(self.0)
    }

    /// Reads an identifier from its textual form.
    pub fn parse(s: &str) -> (r: Option<ClientId>)
        ensures
            r == match uuid_value(s@) {
                Some(v) => Some(ClientId(v)),
                None => None::<ClientId>,
            },
    {
        match parse_uuid(s) {
            Some(v) => Some(ClientId(v)),
            None => None,
        }
    }
}

} // verus!
