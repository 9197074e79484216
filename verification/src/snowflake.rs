use crate::constants::INSTANCE_LIMIT;
use crate::constants::SEQUENCE_LIMIT;
use crate::constants::TIMESTAMP_LIMIT;
use crate::constants::TWITTER_EPOCH;
use crate::numeral::binary_field;
use crate::numeral::binary_string;
use crate::numeral::binary_text;
use crate::numeral::decimal_string;
use crate::numeral::decimal_text;
use crate::numeral::lemma_binary_field_concat;
use crate::numeral::lemma_binary_text_padded;
use crate::numeral::lemma_decimal_round_trip;
use crate::numeral::parse_i64;
use crate::numeral::parsed_i64;
use crate::numeral::zero_padded;
use crate::utils::elapsed_between;
use crate::utils::millis_between;
use crate::utils::sys_time_millis;
use vstd::arithmetic::power2::lemma2_to64;
use vstd::arithmetic::power2::lemma2_to64_rest;
use vstd::prelude::*;

verus! {

/// An identifier as its three fields. The fields are kept as given; whether
/// they fit the packed form is decided when the packed form is asked for.
/// Two identifiers are equal where their fields are.
#[derive(Debug, Clone, Copy, PartialEq, Eq, Structural)]
pub struct Snowflake {
    /// Milliseconds since the chosen epoch.
    pub timestamp: u64,
    /// Number of the node or process that made the identifier.
    pub instance: u16,
    /// Counter that tells apart identifiers of one instance and millisecond.
    pub sequence: u16,
}

/// The field that is too wide for its place in the packed form.
#[derive(Debug, Clone, Copy, PartialEq, Eq, Structural)]
pub enum FieldOverflow {
    /// The timestamp needs more than 41 bits.
    Timestamp,
    /// The instance number needs more than 10 bits.
    Instance,
    /// The sequence number needs more than 12 bits.
    Sequence,
}

/// The text is not the decimal form of a signed 64-bit integer.
#[derive(Debug, Clone, Copy, PartialEq, Eq, Structural)]
pub struct SnowflakeParseError;

impl Snowflake {
    /// The first field, in the order timestamp, instance, sequence, that is
    /// too wide for the packed form; `None` where all three fit.
    pub open spec fn overflow(&self) -> Option<FieldOverflow> {
        if self.timestamp >= TIMESTAMP_LIMIT {
            Some(FieldOverflow::Timestamp)
        } else if self.instance >= INSTANCE_LIMIT {
            Some(FieldOverflow::Instance)
        } else if self.sequence >= SEQUENCE_LIMIT {
            Some(FieldOverflow::Sequence)
        } else {
            None
        }
    }

    /// All three fields fit the packed form.
    pub open spec fn is_valid(&self) -> bool {
        self.overflow() is None
    }

    /// The packed form as a number: the timestamp above 22 bits, the
    /// instance above 12 bits, the sequence in the lowest 12 bits.
    pub open spec fn packed(&self) -> int {
        self.timestamp * 0x40_0000 + self.instance * 0x1000 + self.sequence
    }

    /// An identifier stamped with the wall clock's reading, counted from the
    /// default epoch.
    pub fn new(instance: u16, sequence: u16) -> (r: Self)
        ensures
            r.instance == instance,
            r.sequence == sequence,
    {
        Self::with_epoch(TWITTER_EPOCH, instance, sequence)
    }

    /// An identifier stamped with the wall clock's reading, counted from
    /// `epoch_millis`, itself in milliseconds since the Unix epoch.
    pub fn with_epoch(epoch_millis: u64, instance: u16, sequence: u16) -> (r: Self)
        ensures
            r.instance == instance,
            r.sequence == sequence,
    {
        Self::with_epoch_and_timestamp(epoch_millis, sys_time_millis(), instance, sequence)
    }

    /// An identifier stamped with `timestamp`, given in milliseconds since the
    /// Unix epoch and counted here from `epoch_millis`. The difference is
    /// taken as 64-bit subtraction gives it: modulo 2^64 where the epoch lies
    /// after `timestamp`.
    pub fn with_epoch_and_timestamp(
        epoch_millis: u64,
        timestamp: u64,
        instance: u16,
        sequence: u16,
    ) -> (r: Self)
        ensures
            r == (Snowflake {
                timestamp: millis_between(epoch_millis, timestamp),
                instance,
                sequence,
            }),
            epoch_millis <= timestamp ==> r.timestamp == timestamp - epoch_millis,
    {
        Snowflake { timestamp: elapsed_between(epoch_millis, timestamp), instance, sequence }
    }

    /// An identifier with the given timestamp, already relative to its epoch.
    pub fn from_timestamp(timestamp: u64, instance: u16, sequence: u16) -> (r: Self)
        ensures
            r == (Snowflake { timestamp, instance, sequence }),
    {
        Snowflake { timestamp, instance, sequence }
    }

    /// The sum of a clock reading, the default epoch and the timestamp, as
    /// 64-bit addition gives it: modulo 2^64.
    pub open spec fn unix_timestamp(&self, now: u64) -> u64 {
        ((now + TWITTER_EPOCH + self.timestamp) % 0x1_0000_0000_0000_0000) as u64
    }

    /// The sum of the clock reading `now`, the default epoch and the
    /// timestamp.
    pub fn unix_timestamp_at(&self, now: u64) -> (r: u64)
        ensures
            r == self.unix_timestamp(now),
            now + TWITTER_EPOCH + self.timestamp <= u64::MAX ==> r == now + TWITTER_EPOCH
                + self.timestamp,
    {
        now.wrapping_add(TWITTER_EPOCH).wrapping_add(self.timestamp)
    }

    /// The sum of the wall clock's reading, the default epoch and the
    /// timestamp. The reading is added to a timestamp that already counts
    /// from the epoch, so the result is no time of day.
    pub fn get_unix_timestamp(&self) -> u64 {
        self.unix_timestamp_at(sys_time_millis())
    }

    /// The packed form: a non-negative signed 64-bit integer, or the first
    /// field that is too wide for it. A timestamp of more than 41 bits is
    /// refused like the other two fields, never shifted into the sign bit.
    pub fn to_decimal(&self) -> (r: Result<i64, FieldOverflow>)
        ensures
            match r {
                Ok(v) => self.is_valid() && v == self.packed(),
                Err(e) => self.overflow() == Some(e),
            },
    {
        if self.timestamp >= TIMESTAMP_LIMIT {
            return Err(FieldOverflow::Timestamp);
        }
        if self.instance >= INSTANCE_LIMIT {
            return Err(FieldOverflow::Instance);
        }
        if self.sequence >= SEQUENCE_LIMIT {
            return Err(FieldOverflow::Sequence);
        }
        let t: u64 = self.timestamp;
        let i: u64 = self.instance as u64;
        let s: u64 = self.sequence as u64;
        let bits: u64 = (t << 22) | (i << 12) | s;
        assert(bits == t * 0x40_0000 + i * 0x1000 + s && bits < 0x8000_0000_0000_0000) by (bit_vector)
            requires
                t < 0x200_0000_0000,
                i < 0x400,
                s < 0x1000,
                bits == (t << 22) | (i << 12) | s,
        ;
        Ok(bits as i64)
    }

    /// The packed form in decimal digits.
    pub open spec fn decimal_form(&self) -> Seq<char> {
        decimal_text(self.packed() as nat)
    }

    /// The packed form in binary digits, from its highest set bit down.
    pub open spec fn binary_form(&self) -> Seq<char> {
        binary_text(self.packed() as nat)
    }

    /// The packed form as binary text without leading zeros, or the first
    /// field that is too wide for it.
    pub fn to_bin(&self) -> (r: Result<String, FieldOverflow>)
        ensures
            match r {
                Ok(text) => self.is_valid() && text@ == self.binary_form(),
                Err(e) => self.overflow() == Some(e),
            },
    {
        match self.to_decimal() {
            Ok(v) => Ok(binary_string(v as u64)),
            Err(e) => Err(e),
        }
    }

    /// The packed form as decimal text, or the first field that is too wide
    /// for it.
    pub fn to_string(&self) -> (r: Result<String, FieldOverflow>)
        ensures
            match r {
                Ok(text) => self.is_valid() && text@ == self.decimal_form(),
                Err(e) => self.overflow() == Some(e),
            },
    {
        match self.to_decimal() {
            Ok(v) => Ok(decimal_string(v as u64)),
            Err(e) => Err(e),
        }
    }

    /// The fields that a signed 64-bit integer holds when it is read as a
    /// packed form: the sequence is its lowest 12 bits, the instance the 10
    /// bits above them, and the timestamp what an arithmetic shift by 22
    /// bits leaves, read as unsigned.
    pub open spec fn unpacked(value: i64) -> Snowflake {
        Snowflake {
            timestamp: if value >= 0 {
                (value / 0x40_0000) as u64
            } else {
                (value / 0x40_0000 + 0x1_0000_0000_0000_0000) as u64
            },
            instance: (value / 0x1000 % 0x400) as u16,
            sequence: (value % 0x1000) as u16,
        }
    }

    /// Takes a packed form apart.
    pub fn from_decimal(value: i64) -> (r: Self)
        ensures
            r == Self::unpacked(value),
    {
        let sequence: i64 = value & 0xFFF;
        let rest: i64 = value >> 12;
        let instance: i64 = rest & 0x3FF;
        let timestamp: i64 = rest >> 10;
        assert(sequence == value % 0x1000 && instance == value / 0x1000 % 0x400
            && timestamp == value / 0x40_0000) by (bit_vector)
            requires
                sequence == value & 0xFFF,
                rest == value >> 12,
                instance == rest & 0x3FF,
                timestamp == rest >> 10,
        ;
        let unsigned: u64 = #[verifier::truncate] (timestamp as u64);
        assert(timestamp >= 0 ==> unsigned == timestamp) by (bit_vector)
            requires
                unsigned == timestamp as u64,
        ;
        assert(timestamp < 0 ==> unsigned == timestamp + 0x1_0000_0000_0000_0000) by (bit_vector)
            requires
                unsigned == timestamp as u64,
        ;
        Snowflake {
            timestamp: unsigned,
            instance: instance as u16,
            sequence: sequence as u16,
        }
    }

    /// The identifier that a text denotes: the fields held by the signed
    /// 64-bit integer that the text is the decimal form of; `None` where it
    /// is the decimal form of no such integer.
    pub open spec fn parsed(text: Seq<char>) -> Option<Snowflake> {
        match parsed_i64(text) {
            Some(value) => Some(Self::unpacked(value)),
            None => None,
        }
    }

    /// Taking apart undoes packing: the packed form of a valid identifier
    /// holds the identifier's own fields.
    pub proof fn lemma_unpack_packed(self)
        requires
            self.is_valid(),
        ensures
            0 <= self.packed() <= i64::MAX,
            Self::unpacked(self.packed() as i64) == self,
    {
    }

    /// Packing undoes taking apart: a non-negative signed 64-bit integer
    /// holds a valid identifier, whose packed form it is.
    pub proof fn lemma_pack_unpacked(value: i64)
        requires
            value >= 0,
        ensures
            Self::unpacked(value).is_valid(),
            Self::unpacked(value).packed() == value,
    {
    }

    /// Round trip: the decimal text of a valid identifier is read back as
    /// that identifier.
    pub proof fn lemma_round_trip(self)
        requires
            self.is_valid(),
        ensures
            Self::parsed(self.decimal_form()) == Some(self),
    {
        self.lemma_unpack_packed();
        lemma_decimal_round_trip(self.packed() as nat);
    }

    /// Packed forms are ordered by time: of two valid identifiers, the one
    /// with the smaller timestamp has the smaller packed form, whatever
    /// their instance and sequence numbers.
    pub proof fn lemma_packed_ordered_by_timestamp(self, later: Snowflake)
        requires
            self.is_valid(),
            later.is_valid(),
            self.timestamp < later.timestamp,
        ensures
            self.packed() < later.packed(),
    {
    }

    /// Field layout: written in 64 binary digits, the packed form of a valid
    /// identifier is a zero for the sign, then the timestamp in 41 digits,
    /// the instance in 10 and the sequence in 12.
    pub proof fn lemma_binary_layout(self)
        requires
            self.is_valid(),
        ensures
            self.binary_form().len() <= 63,
            zero_padded(self.binary_form(), 64) == seq!['0'] + binary_field(
                self.timestamp as nat,
                41,
            ) + binary_field(self.instance as nat, 10) + binary_field(self.sequence as nat, 12),
    {
        lemma2_to64();
        lemma2_to64_rest();
        let timestamp: nat = self.timestamp as nat;
        let instance: nat = self.instance as nat;
        let sequence: nat = self.sequence as nat;
        let upper: nat = timestamp * 0x400 + instance;
        let packed: nat = self.packed() as nat;
        lemma_binary_text_padded(packed, 63);
        lemma_binary_field_concat(upper, 51, sequence, 12);
        lemma_binary_field_concat(timestamp, 41, instance, 10);
        assert(zero_padded(self.binary_form(), 64) =~= seq!['0'] + zero_padded(
            self.binary_form(),
            63,
        ));
    }

    /// Packing is one to one: valid identifiers with the same packed form
    /// are the same.
    pub proof fn lemma_packed_injective(self, other: Snowflake)
        requires
            self.is_valid(),
            other.is_valid(),
            self.packed() == other.packed(),
        ensures
            self == other,
    {
        self.lemma_unpack_packed();
        other.lemma_unpack_packed();
    }
}

impl Default for Snowflake {
    /// The identifier with all three fields 0.
    fn default() -> (r: Self)
        ensures
            r == (Snowflake { timestamp: 0, instance: 0, sequence: 0 }),
    {
        Snowflake { timestamp: 0, instance: 0, sequence: 0 }
    }
}

impl core::str::FromStr for Snowflake {
    type Err = SnowflakeParseError;

    /// Reads an identifier from the decimal text of its packed form: the text
    /// must be the decimal form of a signed 64-bit integer, whose bits are
    /// then taken apart into the three fields.
    fn from_str(s: &str) -> (r: Result<Self, Self::Err>)
        ensures
            match r {
                Ok(id) => Snowflake::parsed(s@) == Some(id),
                Err(_) => Snowflake::parsed(s@) is None,
            },
    {
        match parse_i64(s) {
            Some(value) => Ok(Snowflake::from_decimal(value)),
            None => Err(SnowflakeParseError),
        }
    }
}

} // verus!
