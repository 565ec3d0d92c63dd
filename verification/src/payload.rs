//! The probe's status payload: 21 bytes holding two 32-bit log bounds and
//! eight 13-bit sensor fields, and the calibration of a field into
//! hundredths of a degree Celsius.

use vstd::prelude::*;

verus! {

/// Number of bytes of one status payload.
pub const PAYLOAD_LEN: usize = 21;

/// Offset of the first byte of the packed sensor fields.
pub const FIELDS_OFFSET: usize = 8;

/// Number of packed sensor fields.
pub const FIELD_COUNT: usize = 8;

/// Width of one packed sensor field, in bits.
pub const FIELD_BITS: usize = 13;

/// Largest value a sensor field can hold.
pub const FIELD_MAX: u16 = 8191;

/// Why a byte buffer is no status payload.
#[derive(Clone, Copy, Debug, PartialEq, Eq, Structural)]
pub enum DecodeError {
    /// The buffer holds fewer than [`PAYLOAD_LEN`] bytes.
    InvalidPayloadLength,
}

/// The little-endian 32-bit number in the four bytes from `at` on.
pub open spec fn le_u32(bytes: Seq<u8>, at: int) -> int {
    bytes[at] as int + 0x100 * (bytes[at + 1] as int) + 0x1_0000 * (bytes[at + 2] as int)
        + 0x100_0000 * (bytes[at + 3] as int)
}

/// Bit `n` of the packed area, counted from the least significant bit of its
/// first byte.
pub open spec fn packed_bit(payload: Seq<u8>, n: int) -> int {
    ((payload[FIELDS_OFFSET as int + n / 8] >> ((n % 8) as u8)) & 1u8) as int
}

/// The number whose binary digits are the `width` bits from `first` on, least
/// significant digit first.
pub open spec fn bits_value(payload: Seq<u8>, first: int, width: nat) -> int
    decreases width,
{
    if width == 0 {
        0
    } else {
        packed_bit(payload, first) + 2 * bits_value(payload, first + 1, (width - 1) as nat)
    }
}

/// Sensor field `i` of a payload, as the probe sent it.
pub open spec fn raw_field(payload: Seq<u8>, i: int) -> int {
    bits_value(payload, FIELD_BITS as int * i, FIELD_BITS as nat)
}

/// Calibration: a raw field value in hundredths of a degree Celsius.
pub open spec fn centi_celsius(raw: int) -> int {
    raw * 5 - 2000
}

/// The temperature a payload reports, in hundredths of a degree Celsius.
pub open spec fn decoded_temp(payload: Seq<u8>) -> int {
    centi_celsius(raw_field(payload, 0))
}

/// One status payload as read from the probe: exactly [`PAYLOAD_LEN`] bytes.
#[derive(Debug)]
pub struct RawPayload {
    bytes: Vec<u8>,
}

impl View for RawPayload {
    type V = Seq<u8>;

    closed spec fn view(&self) -> Seq<u8> {
        self.bytes@
    }
}

/// Everything one payload carries: the two log bounds and all eight raw
/// sensor fields. Only field 0 is calibrated today; the others are kept for
/// probes with more sensors.
#[derive(Clone, Copy, Debug)]
pub struct ProbeStatus {
    /// Lowest log sequence number the probe still holds.
    pub min: u32,
    /// Highest log sequence number the probe holds.
    pub max: u32,
    /// The raw sensor fields, in payload order.
    pub raw: [u16; 8],
}

/// Bit `t` of the 24-bit window made of three consecutive bytes.
spec fn window_bit(b0: u8, b1: u8, b2: u8, t: u32) -> u32 {
    if t < 8 {
        ((b0 >> (t as u8)) & 1u8) as u32
    } else if t < 16 {
        ((b1 >> ((t - 8) as u8)) & 1u8) as u32
    } else {
        ((b2 >> ((t - 16) as u8)) & 1u8) as u32
    }
}

/// The number whose binary digits are the `width` bits of the window from
/// `t` on, least significant digit first.
spec fn window_value(b0: u8, b1: u8, b2: u8, t: u32, width: u32) -> int
    decreases width,
{
    if width == 0 {
        0
    } else {
        window_bit(b0, b1, b2, t) + 2 * window_value(
            b0,
            b1,
            b2,
            (t + 1) as u32,
            (width - 1) as u32,
        )
    }
}

/// Shifting and masking a 24-bit window cuts out thirteen of its bits.
proof fn lemma_window_field(b0: u8, b1: u8, b2: u8, s: u32)
    by (bit_vector)
    requires
        s < 8,
    ensures
        ((((b0 as u32) | ((b1 as u32) << 8) | ((b2 as u32) << 16)) >> s) & 0x1fffu32)
            == window_value(b0, b1, b2, s, 13),
        ((((b0 as u32) | ((b1 as u32) << 8) | ((b2 as u32) << 16)) >> s) & 0x1fffu32) <= 0x1fffu32,
{
}

/// The bits of a window over the bytes `k`, `k + 1`, `k + 2` of the packed
/// area are the packed bits from `8 * k` on. The third byte counts only where
/// the run of bits reaches it.
proof fn lemma_window_matches(payload: Seq<u8>, k: int, b0: u8, b1: u8, b2: u8, t: u32, width: u32)
    requires
        0 <= k,
        t + width <= 24,
        b0 == payload[FIELDS_OFFSET as int + k],
        b1 == payload[FIELDS_OFFSET as int + k + 1],
        t + width > 16 ==> b2 == payload[FIELDS_OFFSET as int + k + 2],
    ensures
        window_value(b0, b1, b2, t, width) == bits_value(payload, 8 * k + t, width as nat),
    decreases width,
{
    if width > 0 {
        lemma_window_matches(payload, k, b0, b1, b2, (t + 1) as u32, (width - 1) as u32);
        assert(window_bit(b0, b1, b2, t) == packed_bit(payload, 8 * k + t));
    }
}

/// A run of `width` packed bits is a number below `2^width`.
pub proof fn lemma_bits_value_range(payload: Seq<u8>, first: int, width: nat)
    ensures
        0 <= bits_value(payload, first, width) < vstd::arithmetic::power2::pow2(width),
    decreases width,
{
    vstd::arithmetic::power2::lemma2_to64();
    if width > 0 {
        lemma_bits_value_range(payload, first + 1, (width - 1) as nat);
        vstd::arithmetic::power2::lemma_pow2_unfold(width);
        let byte = payload[FIELDS_OFFSET as int + first / 8];
        let shift = (first % 8) as u8;
        assert((byte >> shift) & 1u8 <= 1u8) by (bit_vector);
    }
}

/// Every sensor field lies in the probe's native range, whatever the bytes.
pub proof fn lemma_raw_field_range(payload: Seq<u8>, i: int)
    ensures
        0 <= raw_field(payload, i) <= FIELD_MAX,
{
    lemma_bits_value_range(payload, FIELD_BITS as int * i, FIELD_BITS as nat);
    vstd::arithmetic::power2::lemma2_to64();
}

/// Calibration maps the native range onto -20.00 to 389.55 degrees Celsius,
/// end to end and in steps of 0.05 degrees.
pub proof fn lemma_calibration(raw: int)
    requires
        0 <= raw <= FIELD_MAX,
    ensures
        centi_celsius(0) == -2000,
        centi_celsius(FIELD_MAX as int) == 38955,
        -2000 <= centi_celsius(raw) <= 38955,
        raw < FIELD_MAX ==> centi_celsius(raw + 1) == centi_celsius(raw) + 5,
{
}

/// The first sensor field is the first payload byte behind the log bounds
/// and the low five bits of the next one; nothing else feeds the
/// temperature.
pub proof fn lemma_decoded_temp_bytes(payload: Seq<u8>)
    ensures
        raw_field(payload, 0) == payload[8] as int + 0x100 * (payload[9] as int % 0x20),
        decoded_temp(payload) == 5 * (payload[8] as int + 0x100 * (payload[9] as int % 0x20))
            - 2000,
{
    let b0 = payload[8];
    let b1 = payload[9];
    lemma_window_matches(payload, 0, b0, b1, 0u8, 0, 13);
    lemma_window_field(b0, b1, 0u8, 0);
    assert(((((b0 as u32) | ((b1 as u32) << 8) | ((0u8 as u32) << 16)) >> 0u32) & 0x1fffu32)
        == b0 as u32 + 0x100u32 * (b1 as u32 % 0x20u32)) by (bit_vector);
}

/// Decoding is a function of the payload's bytes alone: payloads with equal
/// bytes report equal temperatures.
pub proof fn lemma_decode_deterministic(a: RawPayload, b: RawPayload)
    requires
        a@ == b@,
    ensures
        decoded_temp(a@) == decoded_temp(b@),
{
}

impl RawPayload {
    #[verifier::type_invariant]
    spec fn well_formed(&self) -> bool {
        self.bytes@.len() == PAYLOAD_LEN
    }

    /// Takes the first [`PAYLOAD_LEN`] bytes of a characteristic read. A
    /// shorter buffer is refused; bytes beyond the payload are ignored.
    pub fn from_bytes(bytes: &[u8]) -> (res: Result<RawPayload, DecodeError>)
        ensures
            bytes@.len() < PAYLOAD_LEN ==> res == Err::<RawPayload, DecodeError>(
                DecodeError::InvalidPayloadLength,
            ),
            bytes@.len() >= PAYLOAD_LEN ==> res is Ok && res->Ok_0@ == bytes@.subrange(
                0,
                PAYLOAD_LEN as int,
            ),
    {
        if bytes.len() < PAYLOAD_LEN {
            return Err(DecodeError::InvalidPayloadLength);
        }
        let mut copy: Vec<u8> = Vec::new();
        let mut i: usize = 0;
        while i < PAYLOAD_LEN
            invariant
                i <= PAYLOAD_LEN <= bytes@.len(),
                copy@ == bytes@.subrange(0, i as int),
            decreases PAYLOAD_LEN - i,
        {
            copy.push(bytes[i]);
            i += 1;
        }
        Ok(RawPayload { bytes: copy })
    }

    /// The payload's bytes.
    pub fn as_bytes(&self) -> (bytes: &[u8])
        ensures
            bytes@ == self@,
            bytes@.len() == PAYLOAD_LEN,
    {
        proof {
            use_type_invariant(self);
        }
        self.bytes.as_slice()
    }

    /// Reads the little-endian 32-bit number at byte `at`.
    fn word(&self, at: usize) -> (word: u32)
        requires
            at + 4 <= FIELDS_OFFSET,
        ensures
            word == le_u32(self@, at as int),
    {
        proof {
            use_type_invariant(self);
        }
        let b0: u32 = self.bytes[at] as u32;
        let b1: u32 = self.bytes[at + 1] as u32;
        let b2: u32 = self.bytes[at + 2] as u32;
        let b3: u32 = self.bytes[at + 3] as u32;
        b0 + 0x100 * b1 + 0x1_0000 * b2 + 0x100_0000 * b3
    }

    /// Cuts sensor field `i` out of the packed area.
    pub fn field(&self, i: usize) -> (raw: u16)
        requires
            i < FIELD_COUNT,
        ensures
            raw == raw_field(self@, i as int),
            raw <= FIELD_MAX,
    {
        proof {
            use_type_invariant(self);
        }
        let first: usize = FIELD_BITS * i;
        let k: usize = first / 8;
        let s: u32 = (first % 8) as u32;
        let b0: u8 = self.bytes[FIELDS_OFFSET + k];
        let b1: u8 = self.bytes[FIELDS_OFFSET + k + 1];
        let b2: u8 = if FIELDS_OFFSET + k + 2 < PAYLOAD_LEN {
            self.bytes[FIELDS_OFFSET + k + 2]
        } else {
            0
        };
        let window: u32 = (b0 as u32) | ((b1 as u32) << 8) | ((b2 as u32) << 16);
        let raw: u32 = (window >> s) & 0x1fff;
        proof {
            lemma_window_field(b0, b1, b2, s);
            lemma_window_matches(self@, k as int, b0, b1, b2, s, 13);
        }
        raw as u16
    }

    /// Unpacks the whole payload.
    pub fn unpack(&self) -> (status: ProbeStatus)
        ensures
            status.min == le_u32(self@, 0),
            status.max == le_u32(self@, 4),
            forall|i: int| 0 <= i < FIELD_COUNT ==> status.raw[i] == raw_field(self@, i),
    {
        ProbeStatus {
            min: self.word(0),
            max: self.word(4),
            raw: [
                self.field(0),
                self.field(1),
                self.field(2),
                self.field(3),
                self.field(4),
                self.field(5),
                self.field(6),
                self.field(7),
            ],
        }
    }
}

/// Calibrates a raw field value into hundredths of a degree Celsius.
pub fn calibrate(raw: u16) -> (centi: i32)
    ensures
        centi == centi_celsius(raw as int),
{
    raw as i32 * 5 - 2000
}

/// Decodes a payload into the temperature it reports, in hundredths of a
/// degree Celsius. Only the first sensor field feeds the result.
pub fn decode(payload: &RawPayload) -> (centi: i32)
    ensures
        centi == decoded_temp(payload@),
        -2000 <= centi <= 38955,
{
    calibrate(payload.field(0))
}

} // verus!
