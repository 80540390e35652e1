//! The waveform of a voice note.

use vstd::prelude::*;
use vstd::string::*;

verus! {

/// The width of a bar together with the space behind it.
pub const BAR_TOTAL_WIDTH: i32 = 5;

/// The greatest value that a sample can have.
pub const MAX_SAMPLE: u8 = 31;

/// The power of two with the given exponent, for exponents of a byte.
pub open spec fn power(exponent: int) -> int {
    if exponent <= 0 {
        1
    } else if exponent == 1 {
        2
    } else if exponent == 2 {
        4
    } else if exponent == 3 {
        8
    } else if exponent == 4 {
        16
    } else if exponent == 5 {
        32
    } else if exponent == 6 {
        64
    } else {
        128
    }
}

/// The byte at the given index. The bytes behind the last one are zero.
pub open spec fn byte_at(bytes: Seq<u8>, index: int) -> int {
    if 0 <= index < bytes.len() {
        bytes[index] as int
    } else {
        0
    }
}

/// The sample at the given index. Each sample is 5 bits wide, packed in
/// little-endian bit order, so it can span up to two bytes.
pub open spec fn sample_at(bytes: Seq<u8>, index: int) -> int {
    let start_bit = index * 5;
    let both = byte_at(bytes, start_bit / 8) + 256 * byte_at(bytes, start_bit / 8 + 1);
    (both / power(start_bit % 8)) % 32
}

/// The samples that are packed in the bytes.
pub open spec fn samples_of(bytes: Seq<u8>) -> Seq<u8> {
    Seq::new((bytes.len() * 8 / 5) as nat, |i: int| sample_at(bytes, i) as u8)
}

proof fn lemma_shifted(buffer: u16, offset: u16)
    requires
        offset < 8,
    ensures
        (buffer >> offset) & 0x1f == (buffer as int / power(offset as int)) % 32,
{
    assert(offset < 8 ==> (buffer >> offset) & 0x1f == (if offset == 0 {
        buffer % 32
    } else if offset == 1 {
        (buffer / 2) % 32
    } else if offset == 2 {
        (buffer / 4) % 32
    } else if offset == 3 {
        (buffer / 8) % 32
    } else if offset == 4 {
        (buffer / 16) % 32
    } else if offset == 5 {
        (buffer / 32) % 32
    } else if offset == 6 {
        (buffer / 64) % 32
    } else {
        (buffer / 128) % 32
    })) by (bit_vector);
}

/// Takes the five bits from the given offset on.
fn take_bits(low: u8, high: u8, offset: u16) -> (value: u8)
    requires
        offset < 8,
    ensures
        value == ((low + 256 * high) / power(offset as int)) % 32,
        value <= MAX_SAMPLE,
{
    let buffer: u16 = (low as u16) | ((high as u16) << 8);
    assert(buffer == low + 256 * high) by {
        assert(((low as u16) | ((high as u16) << 8)) == low + 256 * high) by (bit_vector);
    }
    let value: u16 = (buffer >> offset) & 0x1f;
    assert(value <= 31) by {
        assert((buffer >> offset) & 0x1f <= 31) by (bit_vector);
    }
    proof {
        lemma_shifted(buffer, offset);
    }
    value as u8
}

/// Decodes the waveform of a voice note. TDLib provides it as a string where
/// each sample is 5 bits wide, packed in little-endian bit order.
pub fn decode_waveform(waveform: &str) -> (samples: Vec<u8>)
    requires
        waveform.spec_bytes().len() * 8 <= usize::MAX,
    ensures
        samples@ == samples_of(waveform.spec_bytes()),
        forall|i: int| 0 <= i < samples@.len() ==> #[trigger] samples@[i] <= MAX_SAMPLE,
{
    let bytes = waveform.as_bytes();
    let sample_count: usize = bytes.len() * 8 / 5;
    let mut samples: Vec<u8> = Vec::with_capacity(sample_count);
    let mut i: usize = 0;
    while i < sample_count
        invariant
            bytes@ == waveform.spec_bytes(),
            bytes@.len() * 8 <= usize::MAX,
            sample_count == bytes@.len() * 8 / 5,
            i <= sample_count,
            samples@ == samples_of(bytes@).take(i as int),
            forall|k: int| 0 <= k < i ==> #[trigger] samples@[k] <= MAX_SAMPLE,
        decreases sample_count - i,
    {
        let start_bit: usize = i * 5;
        let byte_index: usize = start_bit / 8;
        let bit_offset: usize = start_bit % 8;

        // The sample can span up to two bytes.
        let low: u8 = bytes[byte_index];
        let high: u8 = if byte_index + 1 < bytes.len() {
            bytes[byte_index + 1]
        } else {
            0
        };
        samples.push(take_bits(low, high, bit_offset as u16));
        assert(samples@ =~= samples_of(bytes@).take(i + 1));
        i = i + 1;
    }
    assert(samples_of(bytes@).take(sample_count as int) =~= samples_of(bytes@));
    samples
}

/// The number of bars that fit in the width. There is always at least one.
pub fn bar_count(width: i32) -> (count: usize)
    ensures
        count == if width < BAR_TOTAL_WIDTH {
            1
        } else {
            width as int / BAR_TOTAL_WIDTH as int
        },
{
    if width < BAR_TOTAL_WIDTH {
        1
    } else {
        (width / BAR_TOTAL_WIDTH) as usize
    }
}

/// The greatest of the samples, or 0 if there are none.
pub open spec fn peak_of(samples: Seq<u8>) -> u8
    decreases samples.len(),
{
    if samples.len() == 0 {
        0
    } else {
        let rest = peak_of(samples.drop_last());
        if samples.last() > rest {
            samples.last()
        } else {
            rest
        }
    }
}

/// The waveform of a voice note.
#[derive(Debug)]
pub struct Waveform {
    waveform: String,
    samples: Vec<u8>,
}

/// The waveform of a voice note.
#[verifier::ext_equal]
pub struct WaveformView {
    pub waveform: Seq<char>,
    pub samples: Seq<u8>,
}

impl View for Waveform {
    type V = WaveformView;

    closed spec fn view(&self) -> WaveformView {
        WaveformView { waveform: self.waveform@, samples: self.samples@ }
    }
}

impl Waveform {
    pub fn new() -> (waveform: Waveform)
        ensures
            waveform@ == (WaveformView { waveform: Seq::empty(), samples: Seq::empty() }),
    {
        Waveform { waveform: String::new(), samples: Vec::new() }
    }

    /// Shows another waveform. Returns whether it changed, so that it must be
    /// drawn again.
    pub fn set_waveform(&mut self, waveform: &str) -> (changed: bool)
        requires
            waveform.spec_bytes().len() * 8 <= usize::MAX,
        ensures
            changed == (waveform@ != old(self)@.waveform),
            final(self)@ == if waveform@ == old(self)@.waveform {
                old(self)@
            } else {
                (WaveformView {
                    waveform: waveform@,
                    samples: samples_of(waveform.spec_bytes()),
                })
            },
    {
        let waveform_ = waveform.to_owned();
        if self.waveform == waveform_ {
            return false;
        }
        self.waveform = waveform_;
        self.samples = decode_waveform(waveform);
        true
    }

    /// The number of samples.
    pub fn len(&self) -> (len: usize)
        ensures
            len == self@.samples.len(),
    {
        self.samples.len()
    }

    /// The sample that a bar shows if there are not more samples than bars.
    pub fn sample(&self, index: usize) -> (sample: u8)
        ensures
            sample == if index < self@.samples.len() {
                self@.samples[index as int]
            } else {
                0
            },
    {
        if index < self.samples.len() {
            self.samples[index]
        } else {
            0
        }
    }

    /// The maximum of the samples that share a bar, so the shape is preserved.
    pub fn peak(&self, start: usize, end: usize) -> (peak: u8)
        requires
            start <= end <= self@.samples.len(),
        ensures
            peak == peak_of(self@.samples.subrange(start as int, end as int)),
    {
        let ghost bucket = self.samples@.subrange(start as int, end as int);
        let mut peak: u8 = 0;
        let mut i: usize = start;
        assert(bucket.take(0) =~= Seq::empty());
        while i < end
            invariant
                start <= i <= end <= self.samples@.len(),
                bucket == self.samples@.subrange(start as int, end as int),
                peak == peak_of(bucket.take(i - start)),
            decreases end - i,
        {
            let ghost at = i - start;
            assert(bucket.take(at + 1).drop_last() =~= bucket.take(at));
            assert(bucket.take(at + 1).last() == self.samples@[i as int]);
            if self.samples[i] > peak {
                peak = self.samples[i];
            }
            i = i + 1;
        }
        assert(bucket.take(end - start) =~= bucket);
        peak
    }
}

proof fn lemma_taken_bits(low: u8, high: u8, offset: u16, k: u8)
    requires
        offset < 8,
        k < 5,
    ensures
        ({
            let value = (((low + 256 * high) / power(offset as int)) % 32) as u8;
            let bit = offset + k;
            if bit < 8 {
                (value >> k) & 1 == (low >> (bit as u8)) & 1
            } else {
                (value >> k) & 1 == (high >> ((bit - 8) as u8)) & 1
            }
        }),
{
    let buffer: u16 = (low as u16) | ((high as u16) << 8);
    let shifted: u16 = (buffer >> offset) & 0x1f;
    let value: u8 = shifted as u8;
    let bit: u8 = (offset + k) as u8;
    assert(buffer == low + 256 * high) by (bit_vector)
        requires
            buffer == (low as u16) | ((high as u16) << 8),
    ;
    assert(shifted == (buffer as int / power(offset as int)) % 32 && shifted < 32) by {
        lemma_shifted(buffer, offset);
    }
    assert(bit < 8 ==> (value >> k) & 1 == (low >> bit) & 1) by (bit_vector)
        requires
            buffer == (low as u16) | ((high as u16) << 8),
            shifted == (buffer >> offset) & 0x1f,
            value == shifted as u8,
            bit == offset + k,
            offset < 8,
            k < 5,
    ;
    if bit >= 8 {
        let above: u8 = (bit - 8) as u8;
        assert((value >> k) & 1 == (high >> above) & 1) by (bit_vector)
            requires
                buffer == (low as u16) | ((high as u16) << 8),
                shifted == (buffer >> offset) & 0x1f,
                value == shifted as u8,
                bit == offset + k,
                above + 8 == bit,
                offset < 8,
                k < 5,
        ;
    }
}

/// The samples take up all the bits, but for those that don't make up a whole
/// sample.
pub proof fn law_samples_take_up_all_bits(bytes: Seq<u8>)
    ensures
        5 * samples_of(bytes).len() <= 8 * bytes.len() < 5 * samples_of(bytes).len() + 5,
{
}

/// The samples are the consecutive groups of five bits of all the bytes, the
/// least significant bits first: a bit of a sample is the bit of the bytes at
/// the same place.
pub proof fn law_samples_are_groups_of_bits(bytes: Seq<u8>, i: int, k: u8)
    requires
        0 <= i < samples_of(bytes).len(),
        k < 5,
    ensures
        0 <= (5 * i + k) / 8 < bytes.len(),
        (samples_of(bytes)[i] >> k) & 1 == (bytes[(5 * i + k) / 8] >> (((5 * i + k) % 8) as u8))
            & 1,
        samples_of(bytes)[i] < 32,
{
    let start = 5 * i;
    let low = bytes[start / 8];
    let high: u8 = byte_at(bytes, start / 8 + 1) as u8;
    lemma_taken_bits(low, high, (start % 8) as u16, k);
    let bit = start % 8 + k;
    assert(start + k < 8 * bytes.len());
    if bit < 8 {
        assert((start + k) / 8 == start / 8 && (start + k) % 8 == bit);
    } else {
        assert((start + k) / 8 == start / 8 + 1 && (start + k) % 8 == bit - 8);
        assert(start / 8 + 1 < bytes.len());
    }
}

/// The peak is one of the samples, and none is greater.
pub proof fn law_peak_is_greatest(samples: Seq<u8>)
    ensures
        forall|i: int| 0 <= i < samples.len() ==> #[trigger] samples[i] <= peak_of(samples),
        samples.len() > 0 ==> samples.contains(peak_of(samples)),
    decreases samples.len(),
{
    if samples.len() > 0 {
        let rest = samples.drop_last();
        law_peak_is_greatest(rest);
        assert forall|i: int| 0 <= i < samples.len() implies #[trigger] samples[i] <= peak_of(
            samples,
        ) by {
            if i < rest.len() {
                assert(rest[i] == samples[i]);
            }
        }
        if samples.last() > peak_of(rest) || rest.len() == 0 {
            assert(samples[samples.len() - 1] == peak_of(samples));
        } else {
            let k = choose|k: int| 0 <= k < rest.len() && rest[k] == peak_of(rest);
            assert(samples[k] == peak_of(samples));
        }
    }
}

} // verus!
