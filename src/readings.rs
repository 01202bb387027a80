use vstd::prelude::*;

verus! {

/// Shortest embedded response frame that holds every reading.
pub const READINGS_FRAME_MIN_LEN: usize = 111;

/// The embedded request that the monitor sends: unit 1, read holding
/// registers, 54 registers from address 0x003B, with its CRC.
pub fn read_registers_frame() -> (r: Vec<u8>)
    ensures
        r@ == seq![0x01u8, 0x03u8, 0x00u8, 0x3bu8, 0x00u8, 0x36u8, 0xb4u8, 0x11u8],
{
    let mut r: Vec<u8> = Vec::new();
    r.push(0x01);
    r.push(0x03);
    r.push(0x00);
    r.push(0x3b);
    r.push(0x00);
    r.push(0x36);
    r.push(0xb4);
    r.push(0x11);
    proof {
        assert(r@ =~= seq![0x01u8, 0x03u8, 0x00u8, 0x3bu8, 0x00u8, 0x36u8, 0xb4u8, 0x11u8]);
    }
    r
}

/// Big-endian 16-bit word at `at` in `frame`.
pub open spec fn be_word(frame: Seq<u8>, at: int) -> u16 {
    (frame[at] * 256 + frame[at + 1]) as u16
}

/// Raw readings of the two inputs, in tenths of a volt and tenths of an
/// ampere.
#[derive(Debug, Clone, Copy, PartialEq, Eq, Structural)]
pub struct RawReadings {
    pub voltage_a: u16,
    pub current_a: u16,
    pub voltage_b: u16,
    pub current_b: u16,
}

impl RawReadings {
    /// Reads the four words from an embedded response frame; `None` when the
    /// frame is too short to hold them.
    pub fn from_frame(frame: &[u8]) -> (r: Option<RawReadings>)
        ensures
            match r {
                Some(v) => frame@.len() >= READINGS_FRAME_MIN_LEN && v.voltage_a == be_word(
                    frame@,
                    103,
                ) && v.current_a == be_word(frame@, 105) && v.voltage_b == be_word(frame@, 107)
                    && v.current_b == be_word(frame@, 109),
                None => frame@.len() < READINGS_FRAME_MIN_LEN,
            },
    {
        if frame.len() < READINGS_FRAME_MIN_LEN {
            return None;
        }
        Some(
            RawReadings {
                voltage_a: word_at(frame, 103),
                current_a: word_at(frame, 105),
                voltage_b: word_at(frame, 107),
                current_b: word_at(frame, 109),
            },
        )
    }
}

fn word_at(frame: &[u8], at: usize) -> (r: u16)
    requires
        at + 1 < frame@.len(),
    ensures
        r == be_word(frame@, at as int),
{
    (frame[at] as u16) * 256 + frame[at + 1] as u16
}

} // verus!
