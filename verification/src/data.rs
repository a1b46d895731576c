//! Core value types: a byte count tagged with a display unit ([`Size`]), the
//! build ecosystem a directory belongs to ([`Language`]), a discovered
//! [`Project`], and the library's error type.

use vstd::prelude::*;

use crate::text::{digit_str, spec_dec, spec_digit_char, u64_to_string};

verus! {

/// A size unit, binary (1024-based).
/// B = Bytes, KB = Kilobytes, MB = Megabytes, GB = Gigabytes.
#[derive(Clone, Copy, PartialEq, Eq, Structural, PartialOrd, Debug)]
pub enum SizeUnit {
    B,
    GB,
    KB,
    MB,
}

/// How many bytes one unit stands for.
pub open spec fn spec_multiplier(unit: SizeUnit) -> u64 {
    match unit {
        SizeUnit::B => 1,
        SizeUnit::KB => 1024,
        SizeUnit::MB => 1048576,
        SizeUnit::GB => 1073741824,
    }
}

/// A byte count together with the unit it is displayed in.
///
/// The displayed value is the exact rational `bytes / multiplier(unit)`;
/// keeping the raw byte count rather than the scaled value makes the
/// conversion back to bytes lossless.
#[derive(Clone, Copy, PartialEq, Eq, Structural, PartialOrd, Debug)]
pub struct Size {
    pub bytes: u64,
    pub unit: SizeUnit,
}

/// The unit `to_size` picks: the largest unit whose multiplier the byte
/// count reaches, falling back to bytes.
pub open spec fn spec_unit_for(bytes: u64) -> SizeUnit {
    if bytes >= 1073741824 {
        SizeUnit::GB
    } else if bytes >= 1048576 {
        SizeUnit::MB
    } else if bytes >= 1024 {
        SizeUnit::KB
    } else {
        SizeUnit::B
    }
}

pub open spec fn spec_to_size(bytes: u64) -> Size {
    Size { bytes, unit: spec_unit_for(bytes) }
}

/// A size is normalized when its unit is the largest one for which the
/// displayed value is at least 1 (bytes fall back to `B`).
pub open spec fn is_normalized(s: Size) -> bool {
    s.unit == spec_unit_for(s.bytes)
}

/// What converting a size back to a raw count yields: the displayed value
/// multiplied by the unit's multiplier, which is the byte count itself.
pub open spec fn spec_size_in_bytes(s: Size) -> u64 {
    s.bytes
}

impl Size {
    /// Makes a size with the given byte count, displayed in the given unit.
    pub fn new(bytes: u64, unit: SizeUnit) -> (r: Self)
        ensures
            r == (Size { bytes, unit }),
    {
        Size { bytes, unit }
    }

    /// The exact byte count: the displayed value multiplied by the unit's
    /// multiplier, with nothing lost.
    pub fn size_in_bytes(&self) -> (r: u64)
        ensures
            r == spec_size_in_bytes(*self),
    {
        self.bytes
    }

    /// Converts a raw byte count into a normalized `Size`.
    pub fn to_size(bytes: u64) -> (r: Self)
        ensures
            r == spec_to_size(bytes),
            is_normalized(r),
    {
        let unit = if bytes >= 1024 * 1024 * 1024 {
            SizeUnit::GB
        } else if bytes >= 1024 * 1024 {
            SizeUnit::MB
        } else if bytes >= 1024 {
            SizeUnit::KB
        } else {
            SizeUnit::B
        };
        Size { bytes, unit }
    }
}

/// Converting a byte count to a `Size` and back returns the same count:
/// the round trip is lossless for every `u64`.
pub proof fn lemma_size_round_trip(bytes: u64)
    ensures
        spec_size_in_bytes(spec_to_size(bytes)) == bytes,
{
}

/// The label a unit is displayed with.
pub open spec fn spec_unit_label(unit: SizeUnit) -> Seq<char> {
    match unit {
        SizeUnit::B => seq!['B'],
        SizeUnit::KB => seq!['K', 'B'],
        SizeUnit::MB => seq!['M', 'B'],
        SizeUnit::GB => seq!['G', 'B'],
    }
}

/// The displayed value `bytes / multiplier(unit)` rounded to hundredths,
/// to the nearest, ties to even, as `(whole, hundredths)`.
pub open spec fn spec_rounded_value(s: Size) -> (int, int) {
    let m = spec_multiplier(s.unit) as int;
    let whole = s.bytes as int / m;
    let num = (s.bytes as int % m) * 100;
    let q = num / m;
    let r = num % m;
    let rounded = if 2 * r > m {
        q + 1
    } else if 2 * r == m && q % 2 == 1 {
        q + 1
    } else {
        q
    };
    if rounded == 100 {
        (whole + 1, 0)
    } else {
        (whole, rounded)
    }
}

/// How a size is displayed: the value to two decimal places, a space, and
/// the unit's label.
pub open spec fn spec_display(s: Size) -> Seq<char> {
    let (whole, cents) = spec_rounded_value(s);
    spec_dec(whole) + seq!['.', spec_digit_char(cents / 10), spec_digit_char(cents % 10), ' ']
        + spec_unit_label(s.unit)
}

impl SizeUnit {
    /// The unit's display label.
    pub fn label(&self) -> (r: &'static str)
        ensures
            r@ == spec_unit_label(*self),
    {
        proof {
            reveal_strlit("B");
            reveal_strlit("KB");
            reveal_strlit("MB");
            reveal_strlit("GB");
        }
        let r: &'static str = match self {
            SizeUnit::B => "B",
            SizeUnit::KB => "KB",
            SizeUnit::MB => "MB",
            SizeUnit::GB => "GB",
        };
        proof {
            assert(r@ =~= spec_unit_label(*self));
        }
        r
    }

    /// How many bytes one of this unit stands for.
    pub fn multiplier(&self) -> (r: u64)
        ensures
            r == spec_multiplier(*self),
    {
        match self {
            SizeUnit::B => 1,
            SizeUnit::KB => 1024,
            SizeUnit::MB => 1048576,
            SizeUnit::GB => 1073741824,
        }
    }
}

impl Size {
    /// Renders the size as its value to two decimal places followed by the
    /// unit's label, e.g. `1.23 MB`. The value is rounded to the nearest
    /// hundredth, ties to even.
    pub fn to_display_string(&self) -> (r: String)
        ensures
            r@ == spec_display(*self),
    {
        let m = self.unit.multiplier();
        let whole = self.bytes / m;
        let num = (self.bytes % m) * 100;
        let q = num / m;
        let r = num % m;
        let rounded = if 2 * r > m {
            q + 1
        } else if 2 * r == m && q % 2 == 1 {
            q + 1
        } else {
            q
        };
        let (whole, cents) = if rounded == 100 {
            (whole + 1, 0u64)
        } else {
            (whole, rounded)
        };
        let mut out = u64_to_string(whole);
        out.append(".");
        out.append(digit_str(cents / 10));
        out.append(digit_str(cents % 10));
        out.append(" ");
        out.append(self.unit.label());
        proof {
            reveal_strlit(".");
            reveal_strlit(" ");
            assert(out@ =~= spec_display(*self));
        }
        out
    }
}

/// The build ecosystem a directory belongs to, detected from its marker
/// file: `Cargo.toml` for Rust, `package.json` for NodeJS.
#[derive(Clone, Copy, PartialEq, Eq, Structural, Debug)]
pub enum Language {
    Rust,
    NodeJS,
    Other,
}

/// A discovered project: its name (the directory's final path segment), its
/// path, the measured size of its build artifacts, and its ecosystem.
#[derive(Debug)]
pub struct Project {
    pub name: String,
    pub path: String,
    pub size: Size,
    pub language: Language,
}

impl Project {
    /// Makes a project record; the raw artifact byte count is normalized
    /// into a `Size`.
    pub fn new(name: &str, path: &str, size: u64, language: Language) -> (r: Self)
        ensures
            r.name@ == name@,
            r.path@ == path@,
            r.size == spec_to_size(size),
            r.language == language,
    {
        Project { name: name.to_owned(), path: path.to_owned(), size: Size::to_size(size), language }
    }
}

impl Clone for Project {
    fn clone(&self) -> (r: Self)
        ensures
            r == *self,
    {
        let r = Project {
            name: self.name.clone(),
            path: self.path.clone(),
            size: self.size,
            language: self.language,
        };
        proof {
            assert(r == *self);
        }
        r
    }
}

/// The errors this library reports.
#[derive(Clone, Copy, PartialEq, Eq, Structural, Debug)]
pub enum WashError {
    /// The supplied root path is not a directory.
    NotADirectory,
    /// The current directory has no parent to resolve `..` against.
    NoParentDirectory,
    /// A path has no final segment to derive a project name from.
    NameError,
    /// A bulk operation finished with this many failed projects.
    SomeFailed { failed: u64 },
}

/// The message each error is reported with.
pub open spec fn spec_error_message(e: WashError) -> Seq<char> {
    match e {
        WashError::NotADirectory => "The provided path is not a directory."@,
        WashError::NoParentDirectory => "Failed to get parent directory"@,
        WashError::NameError => "Could not find filename for path"@,
        WashError::SomeFailed { failed } => "Some projects ("@ + spec_dec(failed as int)
            + ") failed"@,
    }
}

impl WashError {
    /// The human-readable message for this error.
    pub fn message(&self) -> (r: String)
        ensures
            r@ == spec_error_message(*self),
    {
        match self {
            WashError::NotADirectory => "The provided path is not a directory.".to_owned(),
            WashError::NoParentDirectory => "Failed to get parent directory".to_owned(),
            WashError::NameError => "Could not find filename for path".to_owned(),
            WashError::SomeFailed { failed } => {
                let mut out = "Some projects (".to_owned();
                out.append(u64_to_string(*failed).as_str());
                out.append(") failed");
                proof {
                    assert(out@ =~= spec_error_message(*self));
                }
                out
            },
        }
    }
}

} // verus!
