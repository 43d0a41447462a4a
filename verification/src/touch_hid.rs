//! The maimai touch HID stream: each touch frame arrives as two report parts
//! that carry the 34 touch-sensor bits; complete frames are repacked into the
//! game's seven-byte layout (five sensors per byte).
use vstd::prelude::*;

verus! {

/// Report id of the touch stream.
pub const MAI2_TOUCH_HID_REPORT_ID: u8 = 0x31;
/// Length of a touch report, its report id included.
pub const MAI2_TOUCH_HID_REPORT_LEN: usize = 64;
/// Number of parts in a touch frame.
pub const MAI2_TOUCH_HID_PART_COUNT: u8 = 2;
/// Number of touch sensors.
pub const TOUCH_SENSOR_COUNT: usize = 34;

/// One part of a touch frame.
#[derive(Clone, Copy)]
pub struct TouchHidPart {
    pub stream_seq: u8,
    pub part_index: u8,
    pub part_count: u8,
    pub touch_bits: [u8; 5],
}

/// Where the report proper starts in what the HID read gave: at byte 0 when
/// that is the report id, at byte 1 when the id follows a leading byte.
pub open spec fn touch_report_start(r: Seq<u8>) -> Option<int> {
    if r.len() >= 1 && r[0] == MAI2_TOUCH_HID_REPORT_ID {
        Some(0)
    } else if r.len() > 1 && r[1] == MAI2_TOUCH_HID_REPORT_ID {
        Some(1)
    } else {
        None
    }
}

/// The touch part that report `r` carries: the report must be whole, of
/// format 1/1, a part of a two-part frame, with a contact count from 1 to 17
/// and the touch-valid flag (bit 2 of byte 12) set.
pub open spec fn touch_part_of(r: Seq<u8>) -> Option<TouchHidPart> {
    match touch_report_start(r) {
        None => None,
        Some(start) => if r.len() - start < MAI2_TOUCH_HID_REPORT_LEN {
            None
        } else {
            let d = r.subrange(start, start + MAI2_TOUCH_HID_REPORT_LEN);
            if d[1] != 1 || d[2] != 1 || d[5] != MAI2_TOUCH_HID_PART_COUNT || d[4] >= d[5] || d[7] == 0
                || d[7] > 17 || (d[12] & 0x04) == 0 {
                None
            } else {
                Some(TouchHidPart {
                    stream_seq: d[3],
                    part_index: d[4],
                    part_count: d[5],
                    touch_bits: [d[50], d[51], d[52], d[53], d[54]],
                })
            }
        },
    }
}

/// Reads a touch part out of a touch report; see `touch_part_of`.
pub fn parse_touch_hid_part(report: &[u8]) -> (part: Option<TouchHidPart>)
    ensures
        part == touch_part_of(report@),
{
    let start: usize = if report.len() >= 1 && report[0] == MAI2_TOUCH_HID_REPORT_ID {
        0
    } else if report.len() > 1 && report[1] == MAI2_TOUCH_HID_REPORT_ID {
        1
    } else {
        return None;
    };
    if report.len().saturating_sub(start) < MAI2_TOUCH_HID_REPORT_LEN {
        return None;
    }
    let ghost d = report@.subrange(start as int, start + MAI2_TOUCH_HID_REPORT_LEN);
    assert(forall|i: int| 0 <= i < MAI2_TOUCH_HID_REPORT_LEN ==> d[i] == report@[start + i]);
    let part_index = report[start + 4];
    let part_count = report[start + 5];
    if report[start + 1] != 1 || report[start + 2] != 1 || part_count != MAI2_TOUCH_HID_PART_COUNT
        || part_index >= part_count || report[start + 7] == 0 || report[start + 7] > 17
        || (report[start + 12] & 0x04) == 0 {
        return None;
    }
    Some(TouchHidPart {
        stream_seq: report[start + 3],
        part_index,
        part_count,
        touch_bits: [report[start + 50], report[start + 51], report[start + 52], report[start + 53], report[start + 54]],
    })
}

/// Whether sensor `i` is touched in the stream's bit layout (bit `i % 8` of
/// byte `i / 8`).
pub open spec fn touch_bit(bits: [u8; 5], i: int) -> bool {
    bits[i / 8] & (1u8 << (i % 8) as u8) != 0
}

/// Byte `g` of the game's layout: bit `b` is sensor `5 * g + b`, for the
/// sensors that exist.
pub open spec fn legacy_group(bits: [u8; 5], g: int) -> u8 {
    ((if 5 * g < 34 && touch_bit(bits, 5 * g) { 1int } else { 0 })
        + (if 5 * g + 1 < 34 && touch_bit(bits, 5 * g + 1) { 2int } else { 0 })
        + (if 5 * g + 2 < 34 && touch_bit(bits, 5 * g + 2) { 4int } else { 0 })
        + (if 5 * g + 3 < 34 && touch_bit(bits, 5 * g + 3) { 8int } else { 0 })
        + (if 5 * g + 4 < 34 && touch_bit(bits, 5 * g + 4) { 16int } else { 0 })) as u8
}

/// The game's layout of touch bits.
pub open spec fn legacy_touch(bits: [u8; 5]) -> [u8; 7] {
    [
        legacy_group(bits, 0),
        legacy_group(bits, 1),
        legacy_group(bits, 2),
        legacy_group(bits, 3),
        legacy_group(bits, 4),
        legacy_group(bits, 5),
        legacy_group(bits, 6),
    ]
}

proof fn lemma_or_bit(x: u8, b: u8)
    requires
        b < 5,
        x < (1u8 << b),
    ensures
        x | (1u8 << b) == x + (1u8 << b),
        x + (1u8 << b) < (1u8 << (b + 1) as u8),
{
    assert(x < (1u8 << b) && b < 5 ==> x | (1u8 << b) == x + (1u8 << b)) by (bit_vector);
    assert(x < (1u8 << b) && b < 5 ==> x + (1u8 << b) < (1u8 << (b + 1) as u8)) by (bit_vector);
}

proof fn lemma_shift_values()
    ensures
        (1u8 << 0u8) == 1,
        (1u8 << 1u8) == 2,
        (1u8 << 2u8) == 4,
        (1u8 << 3u8) == 8,
        (1u8 << 4u8) == 16,
        (1u8 << 5u8) == 32,
{
    assert((1u8 << 0u8) == 1) by (bit_vector);
    assert((1u8 << 1u8) == 2) by (bit_vector);
    assert((1u8 << 2u8) == 4) by (bit_vector);
    assert((1u8 << 3u8) == 8) by (bit_vector);
    assert((1u8 << 4u8) == 16) by (bit_vector);
    assert((1u8 << 5u8) == 32) by (bit_vector);
}

/// Repacks the stream's 34 touch bits into the game's seven-byte layout.
pub fn pack_legacy_touch_bits(touch_bits: &[u8; 5]) -> (touch: [u8; 7])
    ensures
        touch == legacy_touch(*touch_bits),
{
    proof {
        lemma_shift_values();
    }
    let mut touch = [0u8; 7];
    let mut group: usize = 0;
    while group < 7
        invariant
            group <= 7,
            forall|g: int| 0 <= g < group ==> touch[g] == legacy_group(*touch_bits, g),
            forall|g: int| group <= g < 7 ==> touch[g] == 0,
            (1u8 << 0u8) == 1,
            (1u8 << 1u8) == 2,
            (1u8 << 2u8) == 4,
            (1u8 << 3u8) == 8,
            (1u8 << 4u8) == 16,
            (1u8 << 5u8) == 32,
        decreases 7 - group,
    {
        let mut packed: u8 = 0;
        let mut bit: u8 = 0;
        let ghost mut partial: int = 0;
        while bit < 5
            invariant
                group < 7,
                bit <= 5,
                packed == partial,
                packed < (1u8 << bit),
                partial == (if bit > 0 && 5 * group < 34 && touch_bit(*touch_bits, 5 * group) { 1int } else { 0 })
                    + (if bit > 1 && 5 * group + 1 < 34 && touch_bit(*touch_bits, 5 * group + 1) { 2int } else { 0 })
                    + (if bit > 2 && 5 * group + 2 < 34 && touch_bit(*touch_bits, 5 * group + 2) { 4int } else { 0 })
                    + (if bit > 3 && 5 * group + 3 < 34 && touch_bit(*touch_bits, 5 * group + 3) { 8int } else { 0 })
                    + (if bit > 4 && 5 * group + 4 < 34 && touch_bit(*touch_bits, 5 * group + 4) { 16int } else { 0 }),
                (1u8 << 0u8) == 1,
                (1u8 << 1u8) == 2,
                (1u8 << 2u8) == 4,
                (1u8 << 3u8) == 8,
                (1u8 << 4u8) == 16,
                (1u8 << 5u8) == 32,
            decreases 5 - bit,
        {
            let index = group * 5 + bit as usize;
            if index < TOUCH_SENSOR_COUNT {
                let byte = touch_bits[index / 8];
                let shift: u8 = (index % 8) as u8;
                if byte & (1u8 << shift) != 0 {
                    proof {
                        lemma_or_bit(packed, bit);
                        partial = partial + (1u8 << bit);
                    }
                    packed = packed | (1u8 << bit);
                } else {
                    proof {
                        assert(packed < (1u8 << bit) ==> packed < (1u8 << (bit + 1) as u8)) by (bit_vector)
                            requires bit < 5;
                    }
                }
            } else {
                proof {
                    assert(packed < (1u8 << bit) ==> packed < (1u8 << (bit + 1) as u8)) by (bit_vector)
                        requires bit < 5;
                }
            }
            bit = bit + 1;
        }
        touch[group] = packed;
        group = group + 1;
    }
    assert(touch =~= legacy_touch(*touch_bits));
    touch
}


/// Joins the parts of touch frames: a frame is complete when both of its
/// parts have arrived from the same stream sequence number.
pub struct TouchHidAssembler {
    pub stream_seq: u8,
    pub part_mask: u8,
    pub touch_bits: [u8; 5],
}

/// What the assembler does with one part: the next assembler and the
/// complete frame in the game's layout, if the part completes one. A part of
/// a frame that does not have two parts is ignored. A part of another stream
/// sequence number, or the first part after a complete frame, starts a new
/// frame. The frame's touch bits are those of its last part.
pub open spec fn assemble_step(a: TouchHidAssembler, part: TouchHidPart) -> (TouchHidAssembler, Option<[u8; 7]>) {
    if part.part_count != MAI2_TOUCH_HID_PART_COUNT || part.part_index >= part.part_count {
        (a, None)
    } else {
        let mask = if a.part_mask == 0 || a.stream_seq != part.stream_seq { 0u8 } else { a.part_mask };
        let mask = mask | (1u8 << part.part_index);
        if mask == 3 {
            (TouchHidAssembler { stream_seq: part.stream_seq, part_mask: 0, touch_bits: part.touch_bits },
                Some(legacy_touch(part.touch_bits)))
        } else {
            (TouchHidAssembler { stream_seq: part.stream_seq, part_mask: mask, touch_bits: part.touch_bits },
                None)
        }
    }
}

impl TouchHidAssembler {
    /// An assembler waiting for the first part of a frame.
    pub fn new() -> (a: Self)
        ensures
            a.part_mask == 0 && a.stream_seq == 0 && a.touch_bits == [0u8, 0, 0, 0, 0],
    {
        TouchHidAssembler { stream_seq: 0, part_mask: 0, touch_bits: [0u8; 5] }
    }

    /// Takes one part; returns the complete frame that it finishes, if any.
    pub fn push(&mut self, part: TouchHidPart) -> (touch: Option<[u8; 7]>)
        ensures
            (*final(self), touch) == assemble_step(*old(self), part),
    {
        if part.part_count != MAI2_TOUCH_HID_PART_COUNT || part.part_index >= part.part_count {
            return None;
        }
        if self.part_mask == 0 || self.stream_seq != part.stream_seq {
            self.stream_seq = part.stream_seq;
            self.part_mask = 0;
            self.touch_bits = [0u8; 5];
        }
        self.touch_bits = part.touch_bits;
        self.part_mask = self.part_mask | (1u8 << part.part_index);
        assert(part.part_count == 2);
        assert((1u8 << 2u8) == 4) by (bit_vector);
        if self.part_mask == (1u8 << part.part_count) - 1 {
            assert((1u8 << 2u8) - 1 == 3) by (bit_vector);
            self.part_mask = 0;
            Some(pack_legacy_touch_bits(&self.touch_bits))
        } else {
            assert((1u8 << 2u8) - 1 == 3) by (bit_vector);
            None
        }
    }
}

/// A frame whose two parts arrive one after the other, in either order, at
/// an assembler that is waiting for a new frame, is delivered exactly once,
/// when its second part arrives, with the second part's touch bits.
pub proof fn touch_frame_delivered_once(a: TouchHidAssembler, first: TouchHidPart, second: TouchHidPart)
    requires
        a.part_mask == 0,
        first.part_count == 2,
        second.part_count == 2,
        first.stream_seq == second.stream_seq,
        first.part_index < 2,
        second.part_index == 1 - first.part_index,
    ensures
        assemble_step(a, first).1 is None,
        assemble_step(assemble_step(a, first).0, second).1 == Some(legacy_touch(second.touch_bits)),
        assemble_step(assemble_step(a, first).0, second).0.part_mask == 0,
{
    let i = first.part_index;
    let j = second.part_index;
    assert(i < 2 ==> (0u8 | (1u8 << i)) != 3) by (bit_vector);
    assert(i < 2 && j == 1 - i ==> (0u8 | (1u8 << i)) != 0 && ((0u8 | (1u8 << i)) | (1u8 << j)) == 3) by (bit_vector);
}

} // verus!
