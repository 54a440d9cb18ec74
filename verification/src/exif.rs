//! Reading EXIF fields: the values the library takes from a photo's EXIF
//! block.
//!
//! A field is given as its value and its displayed text, as the EXIF
//! reader hands them out.
use vstd::prelude::*;

use crate::text::{chars_of, string_of, trim_seq, trim_vec};
use crate::trusted::{exif_datetime_utc, format_exif_datetime, utf8_text, utf8_text_of};

verus! {

/// The value of an EXIF field, in the types the library reads; a rational
/// is (numerator, denominator).
#[derive(Clone, Debug)]
pub enum ExifValue {
    Ascii(Vec<Vec<u8>>),
    Short(Vec<u16>),
    Long(Vec<u32>),
    Rational(Vec<(u32, u32)>),
    Other,
}

/// An EXIF field: its value and the text the reader displays for it.
#[derive(Clone, Debug)]
pub struct ExifField {
    pub value: ExifValue,
    pub display: String,
}

/// The displayed text of a field.
pub fn get_string(field: Option<&ExifField>) -> (r: Option<String>)
    ensures
        match field {
            Some(f) => r matches Some(s) && s@ == f.display@,
            None => r is None,
        },
{
    match field {
        Some(f) => Some(f.display.clone()),
        None => None,
    }
}

/// A rational converted to an integer as `(num as f64 / denom as f64) as
/// i64` does: the quotient rounded toward zero; a zero denominator gives 0
/// for 0/0 and `i64::MAX` otherwise (the saturated infinity).
pub open spec fn rational_as_int(num: u32, denom: u32) -> i64 {
    if denom == 0 {
        if num == 0 {
            0
        } else {
            i64::MAX
        }
    } else {
        (num / denom) as i64
    }
}

/// The integer a field holds: the first of its shorts or longs, or the
/// first rational (see `rational_as_int`).
pub open spec fn field_int(v: ExifValue) -> Option<i64> {
    match v {
        ExifValue::Short(s) => if s@.len() > 0 {
            Some(s@[0] as i64)
        } else {
            None
        },
        ExifValue::Long(l) => if l@.len() > 0 {
            Some(l@[0] as i64)
        } else {
            None
        },
        ExifValue::Rational(r) => if r@.len() > 0 {
            Some(rational_as_int(r@[0].0, r@[0].1))
        } else {
            None
        },
        _ => None,
    }
}

/// The integer of a field (see `field_int`).
pub fn get_int(field: Option<&ExifField>) -> (r: Option<i64>)
    ensures
        r == match field {
            Some(f) => field_int(f.value),
            None => None,
        },
{
    match field {
        None => None,
        Some(f) => match &f.value {
            ExifValue::Short(s) => if s.len() > 0 {
                Some(s[0] as i64)
            } else {
                None
            },
            ExifValue::Long(l) => if l.len() > 0 {
                Some(l[0] as i64)
            } else {
                None
            },
            ExifValue::Rational(r) => if r.len() > 0 {
                let (num, denom) = r[0];
                if denom == 0 {
                    if num == 0 {
                        Some(0)
                    } else {
                        Some(i64::MAX)
                    }
                } else {
                    Some((num / denom) as i64)
                }
            } else {
                None
            },
            _ => None,
        },
    }
}

/// Whether the flash fired: bit 0 of the Flash field.
pub fn flash_fired(flash: Option<i64>) -> (r: Option<bool>)
    ensures
        r == match flash {
            Some(v) => Some(v & 1 == 1),
            None => None,
        },
{
    match flash {
        Some(v) => {
            Some(v & 1 == 1)
        },
        None => None,
    }
}

/// The date of an EXIF date field (`YYYY:MM:DD HH:MM:SS` in its first
/// text) as an RFC 3339 UTC timestamp.
pub open spec fn field_datetime(v: ExifValue) -> Option<Seq<char>> {
    match v {
        ExifValue::Ascii(texts) => if texts@.len() > 0 {
            match utf8_text_of(texts@[0]@) {
                Some(t) => exif_datetime_utc(t),
                None => None,
            }
        } else {
            None
        },
        _ => None,
    }
}

/// The date of an EXIF date field (see `field_datetime`).
pub fn get_datetime(field: Option<&ExifField>) -> (r: Option<String>)
    ensures
        match field {
            Some(f) => match field_datetime(f.value) {
                Some(t) => r matches Some(s) && s@ == t,
                None => r is None,
            },
            None => r is None,
        },
{
    match field {
        None => None,
        Some(f) => match &f.value {
            ExifValue::Ascii(texts) => if texts.len() > 0 {
                match utf8_text(texts[0].as_slice()) {
                    Some(t) => format_exif_datetime(t.as_str()),
                    None => None,
                }
            } else {
                None
            },
            _ => None,
        },
    }
}

/// The shutter speed as displayed, without surrounding whitespace.
pub fn format_shutter(raw: String) -> (r: String)
    ensures
        r@ == trim_seq(raw@),
{
    let v = chars_of(raw.as_str());
    string_of(&trim_vec(&v))
}

} // verus!
