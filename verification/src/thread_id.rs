//! Thread identifiers: 128-bit UUIDs, parsed with the `uuid` crate and
//! printed in their canonical hyphenated lowercase form.

use vstd::prelude::*;
use crate::text::{hex_char, hex_digit_str};

verus! {

/// Identifies one agent thread.
#[derive(Clone, Copy, Debug, PartialEq, Eq, Structural, Hash)]
pub struct ThreadId {
    /// The UUID's 128 bits, most significant first.
    pub uuid: u128,
}

/// What `uuid::Uuid::parse_str` gives for a text: the UUID's bits, or the
/// text of the error it reports.
pub uninterp spec fn uuid_parse(text: Seq<char>) -> Result<u128, Seq<char>>;

/// Calls `uuid::Uuid::parse_str`. Its result depends on the text alone and
/// is named `uuid_parse`; on success it is taken as `u128` (`Uuid::as_u128`),
/// on failure the error is taken as its `Display` text.
#[verifier::external_body]
fn parse_uuid(text: &str) -> (r: Result<u128, String>)
    ensures
        match r {
            Ok(bits) => uuid_parse(text@) == Ok::<u128, Seq<char>>(bits),
            Err(message) => uuid_parse(text@) == Err::<u128, Seq<char>>(message@),
        },
{
    match uuid::Uuid::parse_str(text) {
        Ok(uuid) => Ok(uuid.as_u128()),
        Err(error) => Err(error.to_string()),
    }
}

/// Whether position `i` of the hyphenated form holds a hyphen.
pub open spec fn is_hyphen_position(i: int) -> bool {
    i == 8 || i == 13 || i == 18 || i == 23
}

/// Which of the 32 hexadecimal digits stands at position `i` of the
/// hyphenated form (for a position that holds no hyphen).
pub open spec fn digit_index(i: int) -> int {
    if i < 8 {
        i
    } else if i < 13 {
        i - 1
    } else if i < 18 {
        i - 2
    } else if i < 23 {
        i - 3
    } else {
        i - 4
    }
}

/// The `k`-th hexadecimal digit of `bits`, counting from the most significant.
pub open spec fn nibble(bits: u128, k: int) -> u128 {
    (bits >> ((4 * (31 - k)) as u128)) & 15u128
}

/// The canonical text of a UUID: 36 characters, lowercase hexadecimal digits
/// in groups of 8, 4, 4, 4 and 12, separated by hyphens.
pub open spec fn uuid_text(bits: u128) -> Seq<char> {
    Seq::new(
        36,
        |i: int|
            if is_hyphen_position(i) {
                '-'
            } else {
                hex_char(nibble(bits, digit_index(i)) as int)
            },
    )
}

impl ThreadId {
    /// The text of this identifier, as the view of the string that
    /// `to_string` gives.
    pub open spec fn text(self) -> Seq<char> {
        uuid_text(self.uuid)
    }

    /// Parses a thread identifier from any textual UUID form that the
    /// `uuid` crate accepts; on failure gives the crate's error message.
    pub fn from_string(text: &str) -> (r: Result<ThreadId, String>)
        ensures
            match r {
                Ok(id) => uuid_parse(text@) == Ok::<u128, Seq<char>>(id.uuid),
                Err(message) => uuid_parse(text@) == Err::<u128, Seq<char>>(message@),
            },
    {
        match parse_uuid(text) {
            Ok(bits) => Ok(ThreadId { uuid: bits }),
            Err(message) => Err(message),
        }
    }

    /// The canonical hyphenated lowercase text of this identifier.
    pub fn to_string(&self) -> (s: String)
        ensures
            s@ == self.text(),
    {
        let bits = self.uuid;
        let mut s = String::new();
        let mut i: usize = 0;
        while i < 36
            invariant
                i <= 36,
                bits == self.uuid,
                s@.len() == i,
                forall|j: int| 0 <= j < i ==> s@[j] == #[trigger] uuid_text(bits)[j],
            decreases 36 - i,
        {
            if i == 8 || i == 13 || i == 18 || i == 23 {
                proof { reveal_strlit("-"); }
                s.append("-");
            } else {
                let k: u32 = if i < 8 {
                    i as u32
                } else if i < 13 {
                    (i - 1) as u32
                } else if i < 18 {
                    (i - 2) as u32
                } else if i < 23 {
                    (i - 3) as u32
                } else {
                    (i - 4) as u32
                };
                let shift: u128 = (4 * (31 - k)) as u128;
                let d: u128 = (bits >> shift) & 15u128;
                assert(d < 16) by (bit_vector)
                    requires
                        d == (bits >> shift) & 15u128,
                ;
                assert(d == nibble(bits, digit_index(i as int)));
                s.append(hex_digit_str(d as u8));
            }
            i = i + 1;
        }
        assert(s@ =~= uuid_text(bits));
        s
    }
}

/// The name of the bin file that holds the entry of `id`: its text and ".json".
pub open spec fn bin_file_text(id: ThreadId) -> Seq<char> {
    id.text() + seq!['.', 'j', 's', 'o', 'n']
}

/// The name of the bin file that holds the entry of `id`.
pub fn bin_file_name(id: ThreadId) -> (name: String)
    ensures
        name@ == bin_file_text(id),
{
    let mut name = id.to_string();
    proof { reveal_strlit(".json"); }
    name.append(".json");
    name
}

} // verus!
