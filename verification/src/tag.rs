use vstd::prelude::*;

verus! {

/// A four-byte structural tag.  It is interpreted as text only when printed;
/// the walker compares it for equality and tests it for plausibility, nothing
/// more.
#[derive(Clone, Copy, PartialEq, Eq, Debug, Structural)]
pub struct Tag {
    pub b0: u8,
    pub b1: u8,
    pub b2: u8,
    pub b3: u8,
}

/// A tag byte is plausible when it is printable ASCII.  The space byte is
/// part of the range, which also admits the trailing space padding several
/// chunk formats use in their tags.
pub open spec fn spec_valid_tag_byte(b: u8) -> bool {
    0x20 <= b <= 0x7e
}

/// A tag is plausible as a structural tag when all four bytes are printable.
/// This is a heuristic filter against false container detection, not a
/// format validator.
pub open spec fn spec_valid_tag(t: Tag) -> bool {
    spec_valid_tag_byte(t.b0) && spec_valid_tag_byte(t.b1) && spec_valid_tag_byte(t.b2)
        && spec_valid_tag_byte(t.b3)
}

impl Tag {
    pub fn new(b0: u8, b1: u8, b2: u8, b3: u8) -> (t: Tag)
        ensures
            t == (Tag { b0, b1, b2, b3 }),
    {
        Tag { b0, b1, b2, b3 }
    }

    /// The heuristic tag validator: a pure function of the four bytes.
    pub fn is_valid(&self) -> (r: bool)
        ensures
            r == spec_valid_tag(*self),
    {
        0x20 <= self.b0 && self.b0 <= 0x7e && 0x20 <= self.b1 && self.b1 <= 0x7e && 0x20 <= self.b2
            && self.b2 <= 0x7e && 0x20 <= self.b3 && self.b3 <= 0x7e
    }
}

} // verus!
