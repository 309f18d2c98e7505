//! The advertisements that keyboards and the dongle tell each other apart by.
//!
//! An advertising payload is a run of AD structures: a length byte, a type
//! byte, and `length - 1` bytes of content. A keyboard that looks for a dongle
//! carries one manufacturer-specific structure whose content is the company
//! mark `53 52` followed by the role byte `01`.

use vstd::prelude::*;

verus! {

/// AD type of manufacturer-specific data.
pub const AD_MANUFACTURER: u8 = 0xFF;

/// First byte of the company mark.
pub const COMPANY_LOW: u8 = 0x53;

/// Second byte of the company mark.
pub const COMPANY_HIGH: u8 = 0x52;

/// Role byte of a keyboard that seeks a dongle.
pub const ROLE_DONGLE_SEEKING: u8 = 0x01;

/// An advertisement that one of our own devices sent.
#[derive(Clone, Copy, Debug, PartialEq, Eq, Structural)]
#[non_exhaustive]
pub enum Adv {
    /// A keyboard that looks for a dongle to pair with.
    DongleSeeking,
}

/// One AD structure of an advertising payload.
pub struct AdStructure {
    pub kind: u8,
    pub content: Seq<u8>,
}

/// The AD structures of a payload, in order. The run ends with the payload, at
/// a zero length byte, or at a structure that the payload cuts off.
pub open spec fn ad_structures(data: Seq<u8>) -> Seq<AdStructure>
    decreases data.len(),
{
    if data.len() == 0 || data[0] == 0 || data.len() <= data[0] {
        seq![]
    } else {
        seq![AdStructure { kind: data[1], content: data.subrange(2, data[0] + 1) }]
            + ad_structures(data.skip(data[0] + 1))
    }
}

/// The structure is the mark of a keyboard that seeks a dongle.
pub open spec fn is_seeking_mark(structure: AdStructure) -> bool {
    &&& structure.kind == AD_MANUFACTURER
    &&& structure.content == seq![COMPANY_LOW, COMPANY_HIGH, ROLE_DONGLE_SEEKING]
}

/// The payload carries the mark of a keyboard that seeks a dongle.
pub open spec fn seeks_dongle(data: Seq<u8>) -> bool {
    exists|i: int|
        0 <= i < ad_structures(data).len() && is_seeking_mark(#[trigger] ad_structures(data)[i])
}

/// Looking past the first structure: a payload seeks a dongle if that structure
/// is the mark or if what follows it seeks one.
proof fn lemma_seeks_dongle_unfold(data: Seq<u8>)
    ensures
        (data.len() == 0 || data[0] == 0 || data.len() <= data[0]) ==> !seeks_dongle(data),
        !(data.len() == 0 || data[0] == 0 || data.len() <= data[0]) ==> (seeks_dongle(data) <==> {
            ||| is_seeking_mark(
                AdStructure { kind: data[1], content: data.subrange(2, data[0] + 1) },
            )
            ||| seeks_dongle(data.skip(data[0] + 1))
        }),
{
    let all = ad_structures(data);
    if !(data.len() == 0 || data[0] == 0 || data.len() <= data[0]) {
        let first = AdStructure { kind: data[1], content: data.subrange(2, data[0] + 1) };
        let rest = ad_structures(data.skip(data[0] + 1));
        assert(all == seq![first] + rest);
        if is_seeking_mark(first) {
            assert(is_seeking_mark(all[0]));
        }
        if seeks_dongle(data.skip(data[0] + 1)) {
            let i = choose|i: int| 0 <= i < rest.len() && is_seeking_mark(#[trigger] rest[i]);
            assert(is_seeking_mark(all[i + 1]));
        }
        if seeks_dongle(data) {
            let i = choose|i: int| 0 <= i < all.len() && is_seeking_mark(#[trigger] all[i]);
            if i > 0 {
                assert(is_seeking_mark(rest[i - 1]));
            }
        }
    }
}

impl Adv {
    /// What the advertising payload says of its sender; `None` if it carries no
    /// mark of ours.
    pub fn decode(data: &[u8]) -> (adv: Option<Adv>)
        ensures
            seeks_dongle(data@) ==> adv == Some(Adv::DongleSeeking),
            !seeks_dongle(data@) ==> adv is None,
    {
        let mut at: usize = 0;
        assert(data@.skip(0) =~= data@);
        while at < data.len() && data[at] != 0 && data.len() - at > data[at] as usize
            invariant
                at <= data.len(),
                seeks_dongle(data@) == seeks_dongle(data@.skip(at as int)),
            decreases data.len() - at,
        {
            let length: usize = data[at] as usize;
            let ghost rest = data@.skip(at as int);
            let ghost content = rest.subrange(2, rest[0] + 1);
            let mark = length == 4 && data[at + 1] == AD_MANUFACTURER && data[at + 2] == COMPANY_LOW
                && data[at + 3] == COMPANY_HIGH && data[at + 4] == ROLE_DONGLE_SEEKING;
            proof {
                lemma_seeks_dongle_unfold(rest);
                let wanted = seq![COMPANY_LOW, COMPANY_HIGH, ROLE_DONGLE_SEEKING];
                if mark {
                    assert(content =~= wanted);
                } else if content == wanted {
                    assert(content.len() == 3);
                    assert(content[0] == data[at + 2] && content[1] == data[at + 3] && content[2]
                        == data[at + 4]);
                }
                assert(rest.skip(rest[0] + 1) =~= data@.skip(at + length + 1));
            }
            if mark {
                return Some(Adv::DongleSeeking);
            }
            at = at + length + 1;
        }
        proof {
            lemma_seeks_dongle_unfold(data@.skip(at as int));
        }
        None
    }
}

/// The bytes of a run of AD structures, each given by its type byte and its
/// content: a length byte before each.
pub open spec fn encoded(structures: Seq<Seq<u8>>) -> Seq<u8>
    decreases structures.len(),
{
    if structures.len() == 0 {
        seq![]
    } else {
        seq![structures[0].len() as u8] + structures[0] + encoded(structures.drop_first())
    }
}

/// Nothing more can be read here: the payload is at its end, at a zero length
/// byte, or at a structure that it cuts off.
pub open spec fn ends_the_run(tail: Seq<u8>) -> bool {
    tail.len() == 0 || tail[0] == 0 || tail.len() <= tail[0]
}

/// A payload seeks a dongle exactly if one of its structures, wherever it stands
/// and whatever follows the run, is manufacturer-specific data with the mark and
/// the role: the bytes FF 53 52 01 and no others.
pub proof fn law_seeking_is_one_structure(structures: Seq<Seq<u8>>, tail: Seq<u8>)
    requires
        forall|i: int|
            0 <= i < structures.len() ==> 1 <= (#[trigger] structures[i]).len() <= 255,
        ends_the_run(tail),
    ensures
        seeks_dongle(encoded(structures) + tail) <==> exists|i: int|
            0 <= i < structures.len() && #[trigger] structures[i] == seq![
                0xFFu8,
                0x53u8,
                0x52u8,
                0x01u8,
            ],
    decreases structures.len(),
{
    let data = encoded(structures) + tail;
    let mark = seq![0xFFu8, 0x53u8, 0x52u8, 0x01u8];
    lemma_seeks_dongle_unfold(data);
    if structures.len() == 0 {
        assert(data =~= tail);
    } else {
        let first = structures[0];
        let later = structures.drop_first();
        assert forall|i: int| 0 <= i < later.len() implies 1 <= (#[trigger] later[i]).len()
            <= 255 by {
            assert(later[i] == structures[i + 1]);
        }
        law_seeking_is_one_structure(later, tail);
        assert(data =~= seq![first.len() as u8] + first + (encoded(later) + tail));
        assert(data[0] == first.len() && data[1] == first[0]);
        assert(data.skip(data[0] + 1) =~= encoded(later) + tail);
        let content = data.subrange(2, data[0] + 1);
        assert(content =~= first.skip(1));
        let wanted = seq![COMPANY_LOW, COMPANY_HIGH, ROLE_DONGLE_SEEKING];
        if first == mark {
            assert(content =~= wanted);
        }
        if first[0] == AD_MANUFACTURER && content == wanted {
            assert(first =~= mark) by {
                assert(first.len() == 4);
                assert(first[1] == content[0] && first[2] == content[1] && first[3] == content[2]);
            }
        }
        if seeks_dongle(encoded(later) + tail) {
            let i = choose|i: int| 0 <= i < later.len() && #[trigger] later[i] == mark;
            assert(structures[i + 1] == mark);
        }
        if exists|i: int| 0 <= i < structures.len() && #[trigger] structures[i] == mark {
            let i = choose|i: int| 0 <= i < structures.len() && #[trigger] structures[i] == mark;
            if i > 0 {
                assert(later[i - 1] == mark);
            }
        }
    }
}

/// Every payload is a run of structures and what ends it, so the law above says of
/// every payload whether it seeks a dongle.
pub proof fn law_every_payload_is_a_run(data: Seq<u8>) -> (parts: (Seq<Seq<u8>>, Seq<u8>))
    ensures
        data == encoded(parts.0) + parts.1,
        ends_the_run(parts.1),
        forall|i: int| 0 <= i < parts.0.len() ==> 1 <= (#[trigger] parts.0[i]).len() <= 255,
    decreases data.len(),
{
    if ends_the_run(data) {
        let none: Seq<Seq<u8>> = seq![];
        assert(encoded(none) + data =~= data);
        (none, data)
    } else {
        let first = data.subrange(1, data[0] + 1);
        let rest = law_every_payload_is_a_run(data.skip(data[0] + 1));
        let structures = seq![first] + rest.0;
        assert(structures.drop_first() =~= rest.0);
        let after = data.skip(data[0] + 1);
        assert(first.len() as u8 == data[0]);
        assert(data =~= seq![data[0]] + first + after);
        assert(encoded(structures) == seq![data[0]] + first + encoded(rest.0));
        assert(data =~= encoded(structures) + rest.1);
        assert forall|i: int| 0 <= i < structures.len() implies 1 <= (
        #[trigger] structures[i]).len() <= 255 by {
            if i > 0 {
                assert(structures[i] == rest.0[i - 1]);
            }
        }
        (structures, rest.1)
    }
}

} // verus!
