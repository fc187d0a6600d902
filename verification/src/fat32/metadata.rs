//! Dates, times, attributes and metadata as stored in FAT32 directory entries.
use vstd::prelude::*;

verus! {

/// A date as represented in FAT32 on-disk structures: bits 15..9 hold the
/// year since 1980, bits 8..5 the month, bits 4..0 the day.
#[derive(Debug, Copy, Clone, PartialEq, Eq, Structural)]
pub struct Date(u16);

/// Time as represented in FAT32 on-disk structures: bits 15..11 hold the
/// hour, bits 10..5 the minute, bits 4..0 the second divided by two.
#[derive(Debug, Copy, Clone, PartialEq, Eq, Structural)]
pub struct Time(u16);

/// File attributes as represented in FAT32 on-disk structures.
#[derive(Debug, Copy, Clone, PartialEq, Eq, Structural)]
pub struct Attributes(u8);

/// A structure containing a date and time.
#[derive(Debug, Copy, Clone, PartialEq, Eq, Structural)]
pub struct Timestamp {
    pub date: Date,
    pub time: Time,
}

/// Metadata for a directory entry.
#[derive(Debug, Copy, Clone, PartialEq, Eq, Structural)]
pub struct Metadata {
    pub created: Timestamp,
    pub accessed: Timestamp,
    pub modified: Timestamp,
    pub attributes: Attributes,
}

/// Attribute bits.
pub const ATTR_READ_ONLY: u8 = 0x01;
pub const ATTR_HIDDEN: u8 = 0x02;
pub const ATTR_SYSTEM: u8 = 0x04;
pub const ATTR_VOLUME_ID: u8 = 0x08;
pub const ATTR_DIRECTORY: u8 = 0x10;
pub const ATTR_ARCHIVE: u8 = 0x20;

impl Date {
    /// The raw on-disk value.
    pub closed spec fn raw(self) -> u16 {
        self.0
    }

    /// The calendar year: 1980 plus bits 15..9.
    pub open spec fn year_spec(self) -> int {
        self.raw() as int / 512 + 1980
    }

    /// The calendar month: bits 8..5.
    pub open spec fn month_spec(self) -> int {
        (self.raw() as int / 32) % 16
    }

    /// The calendar day: bits 4..0.
    pub open spec fn day_spec(self) -> int {
        self.raw() as int % 32
    }

    /// Whether the raw date `num` names a month in [1, 12] and a day in
    /// [1, 31].
    pub open spec fn valid_raw(num: u16) -> bool {
        &&& 1 <= (num as int / 32) % 16 <= 12
        &&& 1 <= num as int % 32 <= 31
    }

    /// Wraps a raw on-disk date. `None` unless its month is in [1, 12] and
    /// its day in [1, 31].
    pub fn new(num: u16) -> (r: Option<Date>)
        ensures
            r is Some <==> Date::valid_raw(num),
            r matches Some(d) ==> d.raw() == num && 1 <= d.month_spec() <= 12 && 1 <= d.day_spec()
                <= 31,
    {
        let month = (num >> 5) & 0b1111;
        let day = num & 0x1F;
        assert(month == (num / 32) % 16) by (bit_vector)
            requires
                month == (num >> 5u16) & 15u16,
        ;
        assert(day == num % 32) by (bit_vector)
            requires
                day == num & 31u16,
        ;
        if 1 <= month && month <= 12 && 1 <= day {
            Some(Date(num))
        } else {
            None
        }
    }

    /// The calendar year.
    pub fn year(&self) -> (r: usize)
        ensures
            r == self.year_spec(),
    {
        let x = self.0;
        assert(x >> 9u16 == x / 512) by (bit_vector);
        (x >> 9) as usize + 1980
    }

    /// The calendar month, January being 1.
    pub fn month(&self) -> (r: u8)
        ensures
            r == self.month_spec(),
    {
        let x = self.0;
        assert((x >> 5u16) & 15u16 == (x / 32) % 16) by (bit_vector);
        ((x >> 5) & 0b1111) as u8
    }

    /// The calendar day, starting at 1.
    pub fn day(&self) -> (r: u8)
        ensures
            r == self.day_spec(),
    {
        let x = self.0;
        let b = x as u8;
        assert(b == x % 256) by (bit_vector)
            requires
                b == x as u8,
        ;
        assert(b & 31u8 == b % 32) by (bit_vector);
        assert((x % 256) % 32 == x % 32) by (nonlinear_arith);
        b & 0x1F
    }
}

impl Time {
    /// The raw on-disk value.
    pub closed spec fn raw(self) -> u16 {
        self.0
    }

    /// The 24-hour hour: bits 15..11.
    pub open spec fn hour_spec(self) -> int {
        self.raw() as int / 2048
    }

    /// The minute: bits 10..5.
    pub open spec fn minute_spec(self) -> int {
        (self.raw() as int / 32) % 64
    }

    /// The second: twice bits 4..0.
    pub open spec fn second_spec(self) -> int {
        (self.raw() as int % 32) * 2
    }

    /// Whether the raw time `num` names an hour below 24, a minute below 60
    /// and a second below 60.
    pub open spec fn valid_raw(num: u16) -> bool {
        &&& num as int / 2048 < 24
        &&& (num as int / 32) % 64 < 60
        &&& (num as int % 32) * 2 < 60
    }

    /// Wraps a raw on-disk time. `None` unless its hour is below 24, its
    /// minute below 60 and its second below 60.
    pub fn new(num: u16) -> (r: Option<Time>)
        ensures
            r is Some <==> Time::valid_raw(num),
            r matches Some(t) ==> t.raw() == num && t.hour_spec() < 24 && t.minute_spec() < 60
                && t.second_spec() < 60,
    {
        let hour = num >> 11;
        let minute = (num >> 5) & 0b111111;
        let half_second = num & 0x1F;
        assert(hour == num / 2048) by (bit_vector)
            requires
                hour == num >> 11u16,
        ;
        assert(minute == (num / 32) % 64) by (bit_vector)
            requires
                minute == (num >> 5u16) & 63u16,
        ;
        assert(half_second == num % 32) by (bit_vector)
            requires
                half_second == num & 31u16,
        ;
        if hour < 24 && minute < 60 && half_second < 30 {
            Some(Time(num))
        } else {
            None
        }
    }

    /// The 24-hour hour.
    pub fn hour(&self) -> (r: u8)
        ensures
            r == self.hour_spec(),
    {
        let x = self.0;
        assert(x >> 11u16 == x / 2048) by (bit_vector);
        (x >> 11) as u8
    }

    /// The minute.
    pub fn minute(&self) -> (r: u8)
        ensures
            r == self.minute_spec(),
    {
        let x = self.0;
        assert((x >> 5u16) & 63u16 == (x / 32) % 64) by (bit_vector);
        ((x >> 5) & 0b111111) as u8
    }

    /// The second (always even).
    pub fn second(&self) -> (r: u8)
        ensures
            r == self.second_spec(),
    {
        let x = self.0;
        let b = x as u8;
        assert(b == x % 256) by (bit_vector)
            requires
                b == x as u8,
        ;
        assert(b & 31u8 == b % 32) by (bit_vector);
        assert((x % 256) % 32 == x % 32) by (nonlinear_arith);
        (b & 0x1F) * 2
    }
}

/// Whether `flag` is set in the attribute byte `raw`.
pub open spec fn has_attribute(raw: u8, flag: u8) -> bool {
    raw & flag == flag
}

impl Attributes {
    /// The raw on-disk attribute byte.
    pub closed spec fn raw(self) -> u8 {
        self.0
    }

    /// Wraps a raw attribute byte.
    pub fn new(num: u8) -> (r: Attributes)
        ensures
            r.raw() == num,
    {
        Attributes(num)
    }

    pub fn read_only(&self) -> (r: bool)
        ensures
            r == has_attribute(self.raw(), ATTR_READ_ONLY),
    {
        self.0 & ATTR_READ_ONLY == ATTR_READ_ONLY
    }

    pub fn hidden(&self) -> (r: bool)
        ensures
            r == has_attribute(self.raw(), ATTR_HIDDEN),
    {
        self.0 & ATTR_HIDDEN == ATTR_HIDDEN
    }

    pub fn system(&self) -> (r: bool)
        ensures
            r == has_attribute(self.raw(), ATTR_SYSTEM),
    {
        self.0 & ATTR_SYSTEM == ATTR_SYSTEM
    }

    pub fn volume_id(&self) -> (r: bool)
        ensures
            r == has_attribute(self.raw(), ATTR_VOLUME_ID),
    {
        self.0 & ATTR_VOLUME_ID == ATTR_VOLUME_ID
    }

    pub fn directory(&self) -> (r: bool)
        ensures
            r == has_attribute(self.raw(), ATTR_DIRECTORY),
    {
        self.0 & ATTR_DIRECTORY == ATTR_DIRECTORY
    }

    pub fn archive(&self) -> (r: bool)
        ensures
            r == has_attribute(self.raw(), ATTR_ARCHIVE),
    {
        self.0 & ATTR_ARCHIVE == ATTR_ARCHIVE
    }
}

impl Timestamp {
    /// The calendar year.
    pub fn year(&self) -> (r: usize)
        ensures
            r == self.date.year_spec(),
    {
        self.date.year()
    }

    /// The calendar month, January being 1.
    pub fn month(&self) -> (r: u8)
        ensures
            r == self.date.month_spec(),
    {
        self.date.month()
    }

    /// The calendar day, starting at 1.
    pub fn day(&self) -> (r: u8)
        ensures
            r == self.date.day_spec(),
    {
        self.date.day()
    }

    /// The 24-hour hour.
    pub fn hour(&self) -> (r: u8)
        ensures
            r == self.time.hour_spec(),
    {
        self.time.hour()
    }

    /// The minute.
    pub fn minute(&self) -> (r: u8)
        ensures
            r == self.time.minute_spec(),
    {
        self.time.minute()
    }

    /// The second.
    pub fn second(&self) -> (r: u8)
        ensures
            r == self.time.second_spec(),
    {
        self.time.second()
    }
}

impl Metadata {
    /// Metadata with all timestamps zero (raw zero, as a derived default
    /// gives) and only the system attribute set.
    pub fn default() -> (m: Metadata)
        ensures
            m.created.date.raw() == 0 && m.created.time.raw() == 0,
            m.accessed.date.raw() == 0 && m.accessed.time.raw() == 0,
            m.modified.date.raw() == 0 && m.modified.time.raw() == 0,
            m.attributes.raw() == ATTR_SYSTEM,
    {
        let zero = Timestamp { date: Date(0), time: Time(0) };
        Metadata { created: zero, accessed: zero, modified: zero, attributes: Attributes::new(0x4) }
    }

    /// Metadata from its parts.
    pub fn new(
        created: Timestamp,
        accessed: Timestamp,
        modified: Timestamp,
        attributes: Attributes,
    ) -> (m: Metadata)
        ensures
            m.created == created,
            m.accessed == accessed,
            m.modified == modified,
            m.attributes == attributes,
    {
        Metadata { created, accessed, modified, attributes }
    }

    /// Whether the associated entry is read only.
    pub fn read_only(&self) -> (r: bool)
        ensures
            r == has_attribute(self.attributes.raw(), ATTR_READ_ONLY),
    {
        self.attributes.read_only()
    }

    /// Whether the entry should be hidden from directory traversals.
    pub fn hidden(&self) -> (r: bool)
        ensures
            r == has_attribute(self.attributes.raw(), ATTR_HIDDEN),
    {
        self.attributes.hidden()
    }

    /// The timestamp when the entry was created.
    pub fn created(&self) -> (r: Timestamp)
        ensures
            r == self.created,
    {
        self.created
    }

    /// The timestamp of the entry's last access.
    pub fn accessed(&self) -> (r: Timestamp)
        ensures
            r == self.accessed,
    {
        self.accessed
    }

    /// The timestamp of the entry's last modification.
    pub fn modified(&self) -> (r: Timestamp)
        ensures
            r == self.modified,
    {
        self.modified
    }
}

/// The fields decoded from any raw date and time stay within what their bit
/// widths allow; the year lies in 1980..=2107 and the second is even.
pub proof fn law_timestamp_field_ranges(t: Timestamp)
    ensures
        1980 <= t.date.year_spec() <= 2107,
        0 <= t.date.month_spec() <= 15,
        0 <= t.date.day_spec() <= 31,
        0 <= t.time.hour_spec() <= 31,
        0 <= t.time.minute_spec() <= 63,
        0 <= t.time.second_spec() <= 62,
        t.time.second_spec() % 2 == 0,
{
}

/// A date packs the year since 1980 in bits 15..9, the month in bits 8..5
/// and the day in bits 4..0; a time packs the hour in bits 15..11, the
/// minute in bits 10..5 and half the second in bits 4..0. Each field reads
/// back what was packed.
pub proof fn law_date_time_fields(y: u16, mo: u16, d: u16, h: u16, mi: u16, s2: u16)
    requires
        y < 128,
        mo < 16,
        d < 32,
        h < 32,
        mi < 64,
        s2 < 32,
    ensures
        ({
            let dr = (y * 512 + mo * 32 + d) as u16;
            let tr = (h * 2048 + mi * 32 + s2) as u16;
            &&& Date::valid_raw(dr) <==> (1 <= mo <= 12 && 1 <= d)
            &&& Time::valid_raw(tr) <==> (h < 24 && mi < 60 && s2 < 30)
            &&& forall|dt: Date| #[trigger] dt.raw() == dr ==> dt.year_spec() == 1980 + y
                && dt.month_spec() == mo && dt.day_spec() == d
            &&& forall|t: Time| #[trigger] t.raw() == tr ==> t.hour_spec() == h && t.minute_spec()
                == mi && t.second_spec() == 2 * s2
        }),
{
    let dr = y * 512 + mo * 32 + d;
    let tr = h * 2048 + mi * 32 + s2;
    assert(dr / 512 == y && (dr / 32) % 16 == mo && dr % 32 == d) by (nonlinear_arith)
        requires
            dr == y * 512 + mo * 32 + d,
            0 <= y < 128,
            0 <= mo < 16,
            0 <= d < 32,
    ;
    assert(tr / 2048 == h && (tr / 32) % 64 == mi && tr % 32 == s2) by (nonlinear_arith)
        requires
            tr == h * 2048 + mi * 32 + s2,
            0 <= h < 32,
            0 <= mi < 64,
            0 <= s2 < 32,
    ;
}

/// The attribute flags are the bits of the attribute byte: read-only bit
/// 0, hidden bit 1, system bit 2, volume id bit 3, directory bit 4, archive
/// bit 5.
pub proof fn law_attribute_bits(raw: u8)
    ensures
        has_attribute(raw, ATTR_READ_ONLY) <==> raw % 2 == 1,
        has_attribute(raw, ATTR_HIDDEN) <==> (raw / 2) % 2 == 1,
        has_attribute(raw, ATTR_SYSTEM) <==> (raw / 4) % 2 == 1,
        has_attribute(raw, ATTR_VOLUME_ID) <==> (raw / 8) % 2 == 1,
        has_attribute(raw, ATTR_DIRECTORY) <==> (raw / 16) % 2 == 1,
        has_attribute(raw, ATTR_ARCHIVE) <==> (raw / 32) % 2 == 1,
{
    assert(((raw & 1u8) == 1u8) <==> raw % 2 == 1) by (bit_vector);
    assert(((raw & 2u8) == 2u8) <==> (raw / 2) % 2 == 1) by (bit_vector);
    assert(((raw & 4u8) == 4u8) <==> (raw / 4) % 2 == 1) by (bit_vector);
    assert(((raw & 8u8) == 8u8) <==> (raw / 8) % 2 == 1) by (bit_vector);
    assert(((raw & 16u8) == 16u8) <==> (raw / 16) % 2 == 1) by (bit_vector);
    assert(((raw & 32u8) == 32u8) <==> (raw / 32) % 2 == 1) by (bit_vector);
}

} // verus!
