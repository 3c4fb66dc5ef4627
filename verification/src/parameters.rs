//! The three runtime controls of the effect and their persisted form.

use vstd::prelude::*;

verus! {

/// How many runtime controls the effect exposes.
pub const CONTROL_COUNT: i32 = 3;

/// Identifies one of the three runtime controls of the effect.
#[derive(Clone, Copy, PartialEq, Eq, Structural, Debug)]
pub enum Control {
    Gain,
    Filter,
    Volume,
}

impl Control {
    /// The control that a host-side parameter index denotes.
    pub open spec fn spec_from(i: int) -> Control {
        if i == 0 {
            Control::Gain
        } else if i == 1 {
            Control::Filter
        } else {
            Control::Volume
        }
    }

    /// Maps a parameter index to its control; indices run 0 (gain),
    /// 1 (filter), 2 (volume).
    pub fn from(i: i32) -> (r: Control)
        requires
            0 <= i < CONTROL_COUNT,
        ensures
            r == Control::spec_from(i as int),
    {
        if i == 0 {
            Control::Gain
        } else if i == 1 {
            Control::Filter
        } else {
            Control::Volume
        }
    }
}

/// The little-endian byte rendering of a 32-bit word, least significant
/// byte first.
pub open spec fn u32_le_bytes(w: u32) -> Seq<u8> {
    seq![
        (w & 0xff) as u8,
        ((w >> 8) & 0xff) as u8,
        ((w >> 16) & 0xff) as u8,
        ((w >> 24) & 0xff) as u8,
    ]
}

/// The 32-bit word read little-endian from four bytes of `b` starting at
/// `off`.
pub open spec fn u32_of_le_bytes(b: Seq<u8>, off: int) -> u32 {
    (b[off] as u32) | ((b[off + 1] as u32) << 8) | ((b[off + 2] as u32) << 16) | ((b[off + 3]
        as u32) << 24)
}

/// The persisted form of a control state: gain, filter and volume in
/// order, each as four little-endian bytes.
pub open spec fn preset_bytes(s: ControlState) -> Seq<u8> {
    u32_le_bytes(s.gain) + u32_le_bytes(s.filter) + u32_le_bytes(s.volume)
}

/// The three physical control values of the effect — gain, filter cutoff
/// and output volume — each held as the raw bit pattern of a 32-bit
/// IEEE-754 float.
#[derive(Clone, Copy, PartialEq, Eq, Structural, Debug)]
pub struct ControlState {
    pub gain: u32,
    pub filter: u32,
    pub volume: u32,
}

impl ControlState {
    /// Builds a control state from the three raw float bit patterns.
    pub fn new(gain: u32, filter: u32, volume: u32) -> (r: ControlState)
        ensures
            r == (ControlState { gain, filter, volume }),
    {
        ControlState { gain, filter, volume }
    }

    /// Serializes the three control values as twelve consecutive
    /// little-endian bytes: gain first, then filter, then volume.
    pub fn get_preset_data(&self) -> (r: Vec<u8>)
        ensures
            r@ == preset_bytes(*self),
            r@.len() == 12,
    {
        let mut out: Vec<u8> = Vec::new();
        push_u32_le(&mut out, self.gain);
        push_u32_le(&mut out, self.filter);
        push_u32_le(&mut out, self.volume);
        proof {
            assert(out@ =~= preset_bytes(*self));
        }
        out
    }

    /// The bank form of the persisted state is the preset form.
    pub fn get_bank_data(&self) -> (r: Vec<u8>)
        ensures
            r@ == preset_bytes(*self),
            r@.len() == 12,
    {
        self.get_preset_data()
    }

    /// Restores the three control values from exactly twelve bytes, the
    /// inverse of `get_preset_data`: gain from bytes 0..4, filter from
    /// 4..8, volume from 8..12, each read little-endian.
    pub fn load_preset_data(&mut self, data: &[u8])
        requires
            data@.len() == 12,
        ensures
            *final(self) == (ControlState {
                gain: u32_of_le_bytes(data@, 0),
                filter: u32_of_le_bytes(data@, 4),
                volume: u32_of_le_bytes(data@, 8),
            }),
    {
        self.gain = read_u32_le(data, 0);
        self.filter = read_u32_le(data, 4);
        self.volume = read_u32_le(data, 8);
    }

    /// Restores the state from a bank, which has the preset layout.
    pub fn load_bank_data(&mut self, data: &[u8])
        requires
            data@.len() == 12,
        ensures
            *final(self) == (ControlState {
                gain: u32_of_le_bytes(data@, 0),
                filter: u32_of_le_bytes(data@, 4),
                volume: u32_of_le_bytes(data@, 8),
            }),
    {
        self.load_preset_data(data)
    }

    /// Every index below the control count may be automated.
    pub fn can_be_automated(&self, index: i32) -> (r: bool)
        ensures
            r == (index < CONTROL_COUNT),
    {
        index < CONTROL_COUNT
    }

    /// The display name of the control at `index`.
    pub fn get_parameter_name(&self, index: i32) -> (r: String)
        requires
            0 <= index < CONTROL_COUNT,
        ensures
            index == 0 ==> r@ == "Gain"@,
            index == 1 ==> r@ == "Filter"@,
            index == 2 ==> r@ == "Volume"@,
    {
        match Control::from(index) {
            Control::Gain => String::from_str("Gain"),
            Control::Filter => String::from_str("Filter"),
            Control::Volume => String::from_str("Volume"),
        }
    }

    /// The unit label shown beside any control's value.
    pub fn get_parameter_label(&self, index: i32) -> (r: String)
        requires
            0 <= index < CONTROL_COUNT,
        ensures
            r@ == "%"@,
    {
        match Control::from(index) {
            Control::Gain => String::from_str("%"),
            Control::Filter => String::from_str("%"),
            Control::Volume => String::from_str("%"),
        }
    }
}

/// Appends the four little-endian bytes of `w` to `out`.
fn push_u32_le(out: &mut Vec<u8>, w: u32)
    ensures
        final(out)@ == old(out)@ + u32_le_bytes(w),
{
    out.push((w & 0xff) as u8);
    out.push(((w >> 8) & 0xff) as u8);
    out.push(((w >> 16) & 0xff) as u8);
    out.push(((w >> 24) & 0xff) as u8);
    proof {
        assert(out@ =~= old(out)@ + u32_le_bytes(w));
    }
}

/// Reads the 32-bit word stored little-endian at `data[off..off + 4]`.
fn read_u32_le(data: &[u8], off: usize) -> (w: u32)
    requires
        off + 4 <= data@.len(),
    ensures
        w == u32_of_le_bytes(data@, off as int),
{
    (data[off] as u32) | ((data[off + 1] as u32) << 8) | ((data[off + 2] as u32) << 16) | ((
    data[off + 3] as u32) << 24)
}

/// Law: reading a word back out of its little-endian rendering returns
/// the word, so loading a serialized control state restores it exactly.
pub proof fn lemma_u32_le_roundtrip(w: u32)
    ensures
        u32_of_le_bytes(u32_le_bytes(w), 0) == w,
{
    assert((((w & 0xff) as u8 as u32) | ((((w >> 8) & 0xff) as u8 as u32) << 8) | ((((w >> 16)
        & 0xff) as u8 as u32) << 16) | ((((w >> 24) & 0xff) as u8 as u32) << 24)) == w)
        by (bit_vector);
}

/// Law: a control state survives the persisted round trip — loading the
/// twelve bytes that `get_preset_data` produces yields the same three
/// bit patterns, and hence bit-for-bit the same three floats.
pub proof fn lemma_preset_roundtrip(s: ControlState)
    ensures
        u32_of_le_bytes(preset_bytes(s), 0) == s.gain,
        u32_of_le_bytes(preset_bytes(s), 4) == s.filter,
        u32_of_le_bytes(preset_bytes(s), 8) == s.volume,
{
    lemma_u32_le_roundtrip(s.gain);
    lemma_u32_le_roundtrip(s.filter);
    lemma_u32_le_roundtrip(s.volume);
    assert(preset_bytes(s).subrange(0, 4) =~= u32_le_bytes(s.gain));
    assert(preset_bytes(s).subrange(4, 8) =~= u32_le_bytes(s.filter));
    assert(preset_bytes(s).subrange(8, 12) =~= u32_le_bytes(s.volume));
}

/// Law: serialization is also the inverse of loading — the bytes written
/// for a state loaded from twelve bytes are those twelve bytes, so a
/// persisted blob is reconstructed byte for byte.
pub proof fn lemma_bytes_roundtrip(b: Seq<u8>)
    requires
        b.len() == 12,
    ensures
        preset_bytes(ControlState {
            gain: u32_of_le_bytes(b, 0),
            filter: u32_of_le_bytes(b, 4),
            volume: u32_of_le_bytes(b, 8),
        }) == b,
{
    lemma_u32_le_decompose(b, 0);
    lemma_u32_le_decompose(b, 4);
    lemma_u32_le_decompose(b, 8);
    assert(preset_bytes(ControlState {
        gain: u32_of_le_bytes(b, 0),
        filter: u32_of_le_bytes(b, 4),
        volume: u32_of_le_bytes(b, 8),
    }) =~= b);
}

/// Rendering the word read at `off` reproduces the four source bytes.
proof fn lemma_u32_le_decompose(b: Seq<u8>, off: int)
    requires
        0 <= off,
        off + 4 <= b.len(),
    ensures
        u32_le_bytes(u32_of_le_bytes(b, off)) =~= b.subrange(off, off + 4),
{
    let b0 = b[off];
    let b1 = b[off + 1];
    let b2 = b[off + 2];
    let b3 = b[off + 3];
    let w = u32_of_le_bytes(b, off);
    assert(w == (b0 as u32) | ((b1 as u32) << 8) | ((b2 as u32) << 16) | ((b3 as u32) << 24));
    assert({
        let w = (b0 as u32) | ((b1 as u32) << 8) | ((b2 as u32) << 16) | ((b3 as u32) << 24);
        (w & 0xff) as u8 == b0 && ((w >> 8) & 0xff) as u8 == b1 && ((w >> 16) & 0xff) as u8 == b2
            && ((w >> 24) & 0xff) as u8 == b3
    }) by (bit_vector);
}

} // verus!
