//! Identifiers of devices, connections, transfers and shares.
use crate::bytes;
use crate::table::Key;
use crate::text;
use vstd::prelude::*;

verus! {

/// A 128-bit identifier.
#[derive(Clone, Copy, Debug, PartialEq, Eq, Structural, PartialOrd, Ord, Hash)]
pub struct Uuid {
    pub value: u128,
}

/// The hyphenated notation: 32 hexadecimal digits in groups of 8, 4, 4, 4 and 12.
pub open spec fn hyphenated(value: u128) -> Seq<char> {
    let h = text::hex_of(bytes::be_of(value as nat, 16));
    h.subrange(0, 8) + seq!['-'] + h.subrange(8, 12) + seq!['-'] + h.subrange(12, 16) + seq!['-']
        + h.subrange(16, 20) + seq!['-'] + h.subrange(20, 32)
}

/// A character of the hyphenated notation.
pub open spec fn is_mark(c: char) -> bool {
    ||| '0' <= c <= '9'
    ||| 'a' <= c <= 'f'
    ||| c == '-'
}

/// The hyphenated notation has 36 characters.
pub proof fn lemma_hyphenated(value: u128)
    ensures
        hyphenated(value).len() == 36,
        forall|i: int| 0 <= i < 36 ==> is_mark(#[trigger] hyphenated(value)[i]),
{
    let data = bytes::be_of(value as nat, 16);
    bytes::lemma_be_length(value as nat, 16);
    text::lemma_hex_length(data);
    let h = text::hex_of(data);
    lemma_hex_marks(data);
    let r = hyphenated(value);
    assert forall|i: int| 0 <= i < 36 implies is_mark(#[trigger] r[i]) by {
        if i < 8 {
            assert(r[i] == h[i]);
        } else if 8 < i < 13 {
            assert(r[i] == h[i - 1]);
        } else if 13 < i < 18 {
            assert(r[i] == h[i - 2]);
        } else if 18 < i < 23 {
            assert(r[i] == h[i - 3]);
        } else if 23 < i {
            assert(r[i] == h[i - 4]);
        }
    }
}

proof fn lemma_hex_marks(data: Seq<u8>)
    ensures
        forall|i: int| 0 <= i < text::hex_of(data).len() ==> is_mark(#[trigger] text::hex_of(data)[i]),
    decreases data.len(),
{
    if data.len() > 0 {
        lemma_hex_marks(data.drop_last());
        lemma_hex_mark((data.last() / 16) as nat);
        lemma_hex_mark((data.last() % 16) as nat);
        let front = text::hex_of(data.drop_last());
        let all = text::hex_of(data);
        assert forall|i: int| 0 <= i < all.len() implies is_mark(#[trigger] all[i]) by {
            if i < front.len() {
                assert(all[i] == front[i]);
            }
        }
    }
}

proof fn lemma_hex_mark(d: nat)
    requires
        d < 16,
    ensures
        is_mark(text::hex_digit(d)),
{
}

/// `uuid::Uuid::parse_str`, by the value that it gives where it accepts the text.
pub uninterp spec fn parsed_uuid(s: Seq<char>) -> Option<u128>;

/// `uuid::Uuid::new_v4`: the value is random but for the bits that mark version 4 and the variant.
#[verifier::external_body]
fn random_value() -> (r: u128)
    ensures
        (r >> 76) & 0xf == 4,
        (r >> 62) & 0x3 == 2,
{
    uuid::Uuid::new_v4().as_u128()
}

/// `uuid::Uuid`'s `Display`: the hyphenated notation in lower case.
#[verifier::external_body]
fn notation(value: u128) -> (r: String)
    ensures
        r@ == hyphenated(value),
{
    format!("{}", uuid::Uuid::from_u128(value))
}

/// `uuid::Uuid::parse_str`: the result is a function of the text alone, and the hyphenated
/// notation of a value gives back that value.
#[verifier::external_body]
fn parse_value(s: &str) -> (r: Option<u128>)
    ensures
        r == parsed_uuid(s@),
        forall|v: u128| s@ == #[trigger] hyphenated(v) ==> r == Some(v),
{
    uuid::Uuid::parse_str(s).ok().map(|id| id.as_u128())
}

impl Uuid {
    /// The identifier whose bits are all zero.
    pub fn nil() -> (r: Self)
        ensures
            r.value == 0,
    {
        Uuid { value: 0 }
    }

    /// The identifier with this value.
    pub fn from_u128(value: u128) -> (r: Self)
        ensures
            r.value == value,
    {
        Uuid { value }
    }

    /// The identifier is marked as a random one: version 4, of the variant that has versions.
    pub open spec fn is_random(&self) -> bool {
        &&& (self.value >> 76) & 0xf == 4
        &&& (self.value >> 62) & 0x3 == 2
    }

    /// A random identifier, marked as one.
    pub fn new_v4() -> (r: Self)
        ensures
            r.is_random(),
    {
        Uuid { value: random_value() }
    }

    /// The hyphenated notation in lower case.
    pub fn to_string(&self) -> (r: String)
        ensures
            r@ == hyphenated(self.value),
    {
        notation(self.value)
    }

    /// The identifier that a text denotes. The hyphenated notation of an identifier denotes it.
    pub fn parse_str(s: &str) -> (r: Option<Self>)
        ensures
            r == (match parsed_uuid(s@) {
                Some(value) => Some(Uuid { value }),
                None => None,
            }),
            forall|v: u128| s@ == #[trigger] hyphenated(v) ==> r == Some(Uuid { value: v }),
    {
        match parse_value(s) {
            Some(value) => Some(Uuid { value }),
            None => None,
        }
    }

    /// The sixteen bytes, most significant first.
    pub fn as_bytes(&self) -> (r: Vec<u8>)
        ensures
            r@ == bytes::be_of(self.value as nat, 16),
    {
        let mut out: Vec<u8> = Vec::new();
        bytes::push_be(&mut out, self.value, 16);
        out
    }
}

impl Key for Uuid {
    fn same(&self, other: &Self) -> (r: bool) {
        self.value == other.value
    }
}

/// An item under a peer: two identifiers.
#[derive(Clone, Copy, Debug, PartialEq, Eq, Structural, Hash)]
pub struct PeerItem {
    pub peer: Uuid,
    pub item: Uuid,
}

impl Key for PeerItem {
    fn same(&self, other: &Self) -> (r: bool) {
        self.peer.value == other.peer.value && self.item.value == other.item.value
    }
}

/// An identifier is read back from its notation.
pub proof fn law_identifier_is_read_back(id: Uuid, written: String, s: &str, r: Option<Uuid>)
    requires
        call_ensures(Uuid::to_string, (&id,), written),
        s@ == written@,
        call_ensures(Uuid::parse_str, (s,), r),
    ensures
        r == Some(id),
        written@.len() == 36,
        written@[8] == '-' && written@[13] == '-' && written@[18] == '-' && written@[23] == '-',
{
    lemma_hyphenated(id.value);
    text::lemma_hex_length(bytes::be_of(id.value as nat, 16));
    bytes::lemma_be_length(id.value as nat, 16);
    assert(s@ == hyphenated(id.value));
}

/// The bytes of an identifier are sixteen, and its number is read back from them.
pub proof fn law_bytes_of_identifier(id: Uuid, r: Vec<u8>)
    requires
        call_ensures(Uuid::as_bytes, (&id,), r),
    ensures
        r@.len() == 16,
        bytes::be_value(r@) == id.value,
{
    bytes::lemma_be_length(id.value as nat, 16);
    reveal_with_fuel(bytes::range_of, 17);
    bytes::lemma_be_round_trip(id.value as nat, 16);
}

/// An identifier is the number that it was made of, and the one of nobody is zero.
pub proof fn law_identifier_is_its_number(value: u128, a: Uuid, nobody: Uuid)
    requires
        call_ensures(Uuid::from_u128, (value,), a),
        call_ensures(Uuid::nil, (), nobody),
    ensures
        a.value == value,
        nobody.value == 0,
{
}

} // verus!
