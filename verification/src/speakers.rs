//! Speaker roles and speaker sets.
//!
//! A physical output channel is identified by a speaker role (front-left,
//! front-right, and so on); the role's ordinal doubles as its bit index.
//! A `Speakers` value is a bitset of roles: one input channel may feed zero,
//! one, or many speakers at once. No bit at or above `Speakers::MAX_COUNT`
//! is ever set in a well-formed set.

use vstd::prelude::*;

verus! {

/// Ordinal of the front-left speaker.
pub const FRONT_LEFT: u16 = 0;
/// Ordinal of the front-right speaker.
pub const FRONT_RIGHT: u16 = 1;
/// Ordinal of the center speaker.
pub const CENTER: u16 = 2;
/// Ordinal of the subwoofer.
pub const SUBWOOFER: u16 = 3;
/// Ordinal of the left side speaker.
pub const SIDE_LEFT: u16 = 4;
/// Ordinal of the right side speaker.
pub const SIDE_RIGHT: u16 = 5;
/// Ordinal of the left rear speaker.
pub const REAR_LEFT: u16 = 6;
/// Ordinal of the right rear speaker.
pub const REAR_RIGHT: u16 = 7;
/// Ordinal of the first left height speaker.
pub const HEIGHT_LEFT_1: u16 = 8;
/// Ordinal of the first right height speaker.
pub const HEIGHT_RIGHT_1: u16 = 9;
/// Ordinal of the second left height speaker.
pub const HEIGHT_LEFT_2: u16 = 10;

/// True when bit `i` of `bits` is set. Meaningful for `i < 16`.
pub open spec fn spk_has(bits: u16, i: u16) -> bool {
    bits & (1u16 << i) != 0
}

/// The mask with the low `min(channel, MAX_COUNT)` bits set.
pub open spec fn low_mask(channel: u16) -> u16 {
    if channel >= 11 {
        0x7ffu16
    } else {
        ((1u16 << channel) - 1) as u16
    }
}

/// The smallest speaker ordinal at or after `i` whose bit is set in `bits`,
/// or 0 when no bit in `i .. MAX_COUNT` is set.
pub open spec fn lowest_from(bits: u16, i: u16) -> u16
    decreases 11 - i,
{
    if i >= 11 {
        0u16
    } else if spk_has(bits, i) {
        i
    } else {
        lowest_from(bits, (i + 1) as u16)
    }
}

/// Represents physical speakers. An input channel can be routed to several
/// speakers at once, which is why a set is kept as a bitfield.
#[derive(Clone, Copy, Debug, PartialEq, Eq, Structural)]
pub struct Speakers {
    /// Bit `i` is set exactly when the speaker with ordinal `i` is in the set.
    pub bits: u16,
}

/// The speaker set with exactly the given bits.
pub open spec fn spk(bits: u16) -> Speakers {
    Speakers { bits }
}

impl Speakers {
    /// The number of speaker roles; valid ordinals are `0 .. MAX_COUNT`.
    pub const MAX_COUNT: usize = 11;

    /// Well-formed sets only use bits below `MAX_COUNT`.
    pub open spec fn wf(self) -> bool {
        self.bits < 0x800
    }

    /// True when the speaker with ordinal `i` is in the set.
    pub open spec fn has(self, i: u16) -> bool {
        spk_has(self.bits, i)
    }

    /// The ordinal of the lowest speaker in the set (0 for the empty set).
    pub open spec fn ord(self) -> u16 {
        lowest_from(self.bits, 0)
    }

    /// The set containing no speakers.
    pub fn empty() -> (r: Speakers)
        ensures
            r.bits == 0,
            r.wf(),
            forall|i: u16| i < 16 ==> !r.has(i),
    {
        proof {
            assert(forall|i: u16| i < 16 ==> 0u16 & (1u16 << i) == 0) by (bit_vector);
        }
        Speakers { bits: 0 }
    }

    /// The singleton set of the speaker with ordinal `value`.
    pub fn from_index(value: u16) -> (r: Speakers)
        requires
            value < 11,
        ensures
            r == spk(1u16 << value),
            r.wf(),
            forall|i: u16| i < 16 ==> ((#[trigger] r.has(i)) <==> i == value),
    {
        let bits: u16 = 1u16 << value;
        proof {
            assert(bits < 0x800 && forall|i: u16|
                i < 16 ==> ((bits & (1u16 << i) != 0) <==> i == value)) by (bit_vector)
                requires
                    value < 11,
                    bits == 1u16 << value,
            ;
        }
        Speakers { bits }
    }

    /// The set of all speakers whose ordinal is below `channel`
    /// (capped at `MAX_COUNT`).
    pub fn all_to(channel: u16) -> (r: Speakers)
        ensures
            r.bits == low_mask(channel),
            r.wf(),
            forall|i: u16| i < 16 ==> ((#[trigger] r.has(i)) <==> i < channel && i < 11),
    {
        let c: u16 = if channel > 11 {
            11
        } else {
            channel
        };
        proof {
            assert(1u16 << c >= 1) by (bit_vector)
                requires
                    c <= 11,
            ;
        }
        let bits: u16 = (1u16 << c) - 1;
        proof {
            assert(bits < 0x800 && forall|i: u16|
                i < 16 ==> ((bits & (1u16 << i) != 0) <==> i < c)) by (bit_vector)
                requires
                    c <= 11,
                    bits == (1u16 << c) - 1,
            ;
            assert((1u16 << 11u16) - 1 == 0x7ffu16) by (bit_vector);
        }
        Speakers { bits }
    }

    /// True when the speaker with ordinal `i` is in the set.
    pub fn contains(&self, i: u16) -> (r: bool)
        requires
            i < 16,
        ensures
            r == self.has(i),
    {
        self.bits & (1u16 << i) != 0
    }

    /// True when the set holds no speaker.
    pub fn is_empty(&self) -> (r: bool)
        ensures
            r == (self.bits == 0),
    {
        self.bits == 0
    }

    /// The ordinal of the lowest speaker in the set, or 0 for the empty set.
    pub fn as_u16(&self) -> (r: u16)
        requires
            self.wf(),
        ensures
            r == self.ord(),
            r < 11,
            self.bits == 0 ==> r == 0,
            self.bits != 0 ==> self.has(r) && forall|j: u16| j < r ==> !self.has(j),
    {
        let mut i: u16 = 0;
        while i < 11
            invariant
                i <= 11,
                self.wf(),
                forall|j: u16| j < i ==> !self.has(j),
                self.ord() == lowest_from(self.bits, i),
            decreases 11 - i,
        {
            if self.contains(i) {
                proof {
                    let b = self.bits;
                    assert(b != 0) by (bit_vector)
                        requires
                            b & (1u16 << i) != 0,
                    ;
                }
                return i;
            }
            i = i + 1;
        }
        proof {
            assert(!self.has(0) && !self.has(1) && !self.has(2) && !self.has(3) && !self.has(4)
                && !self.has(5) && !self.has(6) && !self.has(7) && !self.has(8) && !self.has(9)
                && !self.has(10));
            let b = self.bits;
            assert(b == 0) by (bit_vector)
                requires
                    b < 0x800,
                    b & (1u16 << 0u16) == 0,
                    b & (1u16 << 1u16) == 0,
                    b & (1u16 << 2u16) == 0,
                    b & (1u16 << 3u16) == 0,
                    b & (1u16 << 4u16) == 0,
                    b & (1u16 << 5u16) == 0,
                    b & (1u16 << 6u16) == 0,
                    b & (1u16 << 7u16) == 0,
                    b & (1u16 << 8u16) == 0,
                    b & (1u16 << 9u16) == 0,
                    b & (1u16 << 10u16) == 0,
            ;
        }
        0
    }

    /// The speakers present in both sets.
    pub fn intersection(&self, other: Speakers) -> (r: Speakers)
        ensures
            r.bits == (self.bits & other.bits),
            self.wf() || other.wf() ==> r.wf(),
            forall|i: u16| i < 16 ==> ((#[trigger] r.has(i)) <==> self.has(i) && other.has(i)),
    {
        proof {
            let a = self.bits;
            let b = other.bits;
            assert((a < 0x800 || b < 0x800 ==> (a & b) < 0x800) && forall|i: u16|
                i < 16 ==> (((a & b) & (1u16 << i) != 0) <==> (a & (1u16 << i) != 0 && b & (1u16
                << i) != 0))) by (bit_vector);
        }
        Speakers { bits: self.bits & other.bits }
    }

    /// The speakers present in either set.
    pub fn union(&self, other: Speakers) -> (r: Speakers)
        ensures
            r.bits == (self.bits | other.bits),
            self.wf() && other.wf() ==> r.wf(),
            forall|i: u16| i < 16 ==> ((#[trigger] r.has(i)) <==> self.has(i) || other.has(i)),
    {
        proof {
            let a = self.bits;
            let b = other.bits;
            assert((a < 0x800 && b < 0x800 ==> (a | b) < 0x800) && forall|i: u16|
                i < 16 ==> (((a | b) & (1u16 << i) != 0) <==> (a & (1u16 << i) != 0 || b & (1u16
                << i) != 0))) by (bit_vector);
        }
        Speakers { bits: self.bits | other.bits }
    }

    /// The set with the speaker of ordinal `i` removed.
    pub fn without(&self, i: u16) -> (r: Speakers)
        requires
            i < 16,
        ensures
            r.bits == (self.bits & !(1u16 << i)),
            self.wf() ==> r.wf(),
            forall|j: u16| j < 16 ==> ((#[trigger] r.has(j)) <==> self.has(j) && j != i),
    {
        proof {
            let a = self.bits;
            assert((a < 0x800 ==> (a & !(1u16 << i)) < 0x800) && forall|j: u16|
                j < 16 ==> (((a & !(1u16 << i)) & (1u16 << j) != 0) <==> (a & (1u16 << j) != 0 && j
                != i))) by (bit_vector)
                requires
                    i < 16,
            ;
        }
        Speakers { bits: self.bits & !(1u16 << i) }
    }
}

/// A singleton set holds exactly its own ordinal.
pub proof fn lemma_singleton_has(a: u16, b: u16)
    requires
        a < 16,
        b < 16,
    ensures
        spk_has(1u16 << a, b) <==> a == b,
{
    assert(((1u16 << a) & (1u16 << b) != 0) <==> a == b) by (bit_vector)
        requires
            a < 16,
            b < 16,
    ;
}

/// Bit `i` of `low_mask(c)` is set exactly when `i` is a speaker ordinal
/// below `c`.
pub proof fn lemma_low_mask_has(c: u16)
    ensures
        low_mask(c) < 0x800,
        forall|i: u16| i < 16 ==> ((#[trigger] spk_has(low_mask(c), i)) <==> i < c && i < 11),
{
    if c >= 11 {
        assert(0x7ffu16 < 0x800 && forall|i: u16|
            i < 16 ==> (0x7ffu16 & (1u16 << i) != 0 <==> i < 11)) by (bit_vector);
    } else {
        assert(1u16 << c >= 1) by (bit_vector)
            requires
                c < 11,
        ;
        let m = low_mask(c);
        assert(m < 0x800 && forall|i: u16| i < 16 ==> (m & (1u16 << i) != 0 <==> i < c))
            by (bit_vector)
            requires
                c < 11,
                m == (1u16 << c) - 1,
        ;
    }
}

} // verus!
