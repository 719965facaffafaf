//! What a directory record says of a file or directory besides its name and
//! place: attributes and timestamps.

use vstd::prelude::*;

verus! {

/// The attribute byte of a directory record.
#[derive(Clone, Copy, Debug, PartialEq, Eq, Structural)]
pub struct Attributes(pub u8);

/// Attribute bit of a file that may not be written.
pub const READ_ONLY: u8 = 0x01;

/// Attribute bit of an entry that listings leave out.
pub const HIDDEN: u8 = 0x02;

/// Attribute bit of a file of the operating system.
pub const SYSTEM: u8 = 0x04;

/// Attribute bit of the record that holds the label of the volume.
pub const VOLUME_ID: u8 = 0x08;

/// Attribute bit of a directory.
pub const DIRECTORY: u8 = 0x10;

/// Attribute bit of a file changed since it was last archived.
pub const ARCHIVE: u8 = 0x20;

/// The attribute byte of a record that holds a part of a long file name.
pub const LONG_NAME: u8 = 0x0F;

impl Attributes {
    /// Whether the read-only bit is set.
    #[verifier::when_used_as_spec(spec_read_only)]
    pub fn read_only(&self) -> (r: bool)
        ensures
            r == self.spec_read_only(),
    {
        self.0 & READ_ONLY != 0
    }

    pub open spec fn spec_read_only(&self) -> bool {
        self.0 & READ_ONLY != 0
    }

    /// Whether the hidden bit is set.
    #[verifier::when_used_as_spec(spec_hidden)]
    pub fn hidden(&self) -> (r: bool)
        ensures
            r == self.spec_hidden(),
    {
        self.0 & HIDDEN != 0
    }

    pub open spec fn spec_hidden(&self) -> bool {
        self.0 & HIDDEN != 0
    }

    /// Whether the system bit is set.
    #[verifier::when_used_as_spec(spec_system)]
    pub fn system(&self) -> (r: bool)
        ensures
            r == self.spec_system(),
    {
        self.0 & SYSTEM != 0
    }

    pub open spec fn spec_system(&self) -> bool {
        self.0 & SYSTEM != 0
    }

    /// Whether the volume-label bit is set.
    #[verifier::when_used_as_spec(spec_volume_id)]
    pub fn volume_id(&self) -> (r: bool)
        ensures
            r == self.spec_volume_id(),
    {
        self.0 & VOLUME_ID != 0
    }

    pub open spec fn spec_volume_id(&self) -> bool {
        self.0 & VOLUME_ID != 0
    }

    /// Whether the directory bit is set.
    #[verifier::when_used_as_spec(spec_directory)]
    pub fn directory(&self) -> (r: bool)
        ensures
            r == self.spec_directory(),
    {
        self.0 & DIRECTORY != 0
    }

    pub open spec fn spec_directory(&self) -> bool {
        self.0 & DIRECTORY != 0
    }

    /// Whether the archive bit is set.
    #[verifier::when_used_as_spec(spec_archive)]
    pub fn archive(&self) -> (r: bool)
        ensures
            r == self.spec_archive(),
    {
        self.0 & ARCHIVE != 0
    }

    pub open spec fn spec_archive(&self) -> bool {
        self.0 & ARCHIVE != 0
    }
}

/// A point in time, to two seconds, in calendar values.
#[derive(Clone, Copy, Debug, PartialEq, Eq, Structural)]
pub struct Timestamp {
    pub year: u16,
    pub month: u8,
    pub day: u8,
    pub hour: u8,
    pub minute: u8,
    pub second: u8,
}

/// Whether `year` has a 29th of February.
pub open spec fn is_leap_year(year: int) -> bool {
    year % 4 == 0 && (year % 100 != 0 || year % 400 == 0)
}

/// Number of days of month `month` (1 to 12) of `year`.
pub open spec fn days_in_month(year: int, month: int) -> int {
    if month == 2 {
        if is_leap_year(year) {
            29
        } else {
            28
        }
    } else if month == 4 || month == 6 || month == 9 || month == 11 {
        30
    } else {
        31
    }
}

/// The timestamp that the packed fields `date` and `time` of a directory
/// record hold, or `None` if a field is out of calendar range.
///
/// `date` holds the day in bits 0 to 4, the month in bits 5 to 8 and the
/// years since 1980 in bits 9 to 15; `time` holds half the seconds in bits 0
/// to 4, the minutes in bits 5 to 10 and the hours in bits 11 to 15.
pub open spec fn spec_timestamp(date: u16, time: u16) -> Option<Timestamp> {
    let day = date as int % 32;
    let month = (date as int / 32) % 16;
    let year = 1980 + date as int / 512;
    let second = (time as int % 32) * 2;
    let minute = (time as int / 32) % 64;
    let hour = time as int / 2048;
    if 1 <= month <= 12 && 1 <= day <= days_in_month(year, month) && hour <= 23 && minute <= 59
        && second <= 59 {
        Some(
            Timestamp {
                year: year as u16,
                month: month as u8,
                day: day as u8,
                hour: hour as u8,
                minute: minute as u8,
                second: second as u8,
            },
        )
    } else {
        None
    }
}

impl Timestamp {
    /// Whether the fields name a day of the calendar and a time of day that
    /// the packed fields of a directory record can hold.
    pub open spec fn wf(&self) -> bool {
        &&& 1980 <= self.year <= 2107
        &&& 1 <= self.month <= 12
        &&& 1 <= self.day <= days_in_month(self.year as int, self.month as int)
        &&& self.hour <= 23
        &&& self.minute <= 59
        &&& self.second <= 58
        &&& self.second % 2 == 0
    }

    /// Decodes the packed `date` and `time` of a directory record. Returns
    /// `None` where the month is not 1 to 12, the day is not a day of that
    /// month, the hour is above 23, the minute above 59 or the second above
    /// 59: nothing is clamped.
    pub fn new(date: u16, time: u16) -> (r: Option<Timestamp>)
        ensures
            r == spec_timestamp(date, time),
            r matches Some(timestamp) ==> timestamp.wf(),
    {
        let day: u16 = date % 32;
        let month: u16 = (date / 32) % 16;
        let year: u16 = 1980 + date / 512;
        let second: u16 = (time % 32) * 2;
        let minute: u16 = (time / 32) % 64;
        let hour: u16 = time / 2048;
        if month < 1 || month > 12 || hour > 23 || minute > 59 || second > 59 {
            return None;
        }
        let leap = year % 4 == 0 && (year % 100 != 0 || year % 400 == 0);
        let days: u16 = if month == 2 {
            if leap {
                29
            } else {
                28
            }
        } else if month == 4 || month == 6 || month == 9 || month == 11 {
            30
        } else {
            31
        };
        if day < 1 || day > days {
            return None;
        }
        Some(
            Timestamp {
                year,
                month: month as u8,
                day: day as u8,
                hour: hour as u8,
                minute: minute as u8,
                second: second as u8,
            },
        )
    }

    /// The calendar year, from 1980.
    pub fn year(&self) -> (r: usize)
        ensures
            r == self.year,
    {
        self.year as usize
    }

    /// The month of the year, from 1.
    pub fn month(&self) -> (r: u8)
        ensures
            r == self.month,
    {
        self.month
    }

    /// The day of the month, from 1.
    pub fn day(&self) -> (r: u8)
        ensures
            r == self.day,
    {
        self.day
    }

    /// The hour of the day, from 0.
    pub fn hour(&self) -> (r: u8)
        ensures
            r == self.hour,
    {
        self.hour
    }

    /// The minute of the hour.
    pub fn minute(&self) -> (r: u8)
        ensures
            r == self.minute,
    {
        self.minute
    }

    /// The second of the minute, always even.
    pub fn second(&self) -> (r: u8)
        ensures
            r == self.second,
    {
        self.second
    }
}

/// What a directory record says of the file or directory that it stands for.
#[derive(Debug)]
pub struct Metadata {
    /// The long name where the record has a consistent one, the 8.3 name
    /// otherwise.
    pub name: String,
    pub attributes: Attributes,
    /// Time of creation, where the record holds one in calendar range.
    pub created: Option<Timestamp>,
    /// Day of the last access, where the record holds one in calendar range.
    pub accessed: Option<Timestamp>,
    /// Time of the last change, where the record holds one in calendar range.
    pub modified: Option<Timestamp>,
    /// Number of the first cluster of the contents.
    pub first_cluster: u32,
    /// Size of the contents in bytes.
    pub size: u32,
}

/// The mathematical value of a `Metadata`: the same fields, with the name as
/// a sequence of characters.
pub ghost struct MetadataView {
    pub name: Seq<char>,
    pub attributes: Attributes,
    pub created: Option<Timestamp>,
    pub accessed: Option<Timestamp>,
    pub modified: Option<Timestamp>,
    pub first_cluster: u32,
    pub size: u32,
}

impl View for Metadata {
    type V = MetadataView;

    open spec fn view(&self) -> MetadataView {
        MetadataView {
            name: self.name@,
            attributes: self.attributes,
            created: self.created,
            accessed: self.accessed,
            modified: self.modified,
            first_cluster: self.first_cluster,
            size: self.size,
        }
    }
}

impl Metadata {
    /// The name of the entry.
    pub fn name(&self) -> (r: &str)
        ensures
            r@ == self@.name,
    {
        self.name.as_str()
    }

    /// The size of the contents in bytes.
    pub fn size(&self) -> (r: u64)
        ensures
            r == self@.size,
    {
        self.size as u64
    }

    /// Whether the entry may not be written.
    pub fn read_only(&self) -> (r: bool)
        ensures
            r == self@.attributes.read_only(),
    {
        self.attributes.read_only()
    }

    /// Whether listings leave the entry out.
    pub fn hidden(&self) -> (r: bool)
        ensures
            r == self@.attributes.hidden(),
    {
        self.attributes.hidden()
    }

    /// Time of creation.
    pub fn created(&self) -> (r: Option<Timestamp>)
        ensures
            r == self@.created,
    {
        self.created
    }

    /// Day of the last access.
    pub fn accessed(&self) -> (r: Option<Timestamp>)
        ensures
            r == self@.accessed,
    {
        self.accessed
    }

    /// Time of the last change.
    pub fn modified(&self) -> (r: Option<Timestamp>)
        ensures
            r == self@.modified,
    {
        self.modified
    }
}

} // verus!
