//! Canonical AOXC HD paths: `m/44/2626/chain/role/zone/index`, all
//! variable components in the unhardened range.

use vstd::prelude::*;

use crate::text::all_chars;
use crate::text::chars_eq;
use crate::text::chars_of;
use crate::text::dec_digits;
use crate::text::dec_value;
use crate::text::has_no;
use crate::text::has_outer_ws;
use crate::text::is_ascii_digit;
use crate::text::is_blank;
use crate::text::is_ws;
use crate::text::lemma_dec_digits;
use crate::text::lemma_split_append;
use crate::text::lemma_split_single;
use crate::text::lemma_trim_empty;
use crate::text::lemma_trim_fixed;
use crate::text::parse_u32_digits;
use crate::text::push_decimal_u64;
use crate::text::push_str;
use crate::text::split_at_char;
use crate::text::split_on;
use crate::text::str_to_string;
use crate::text::string_from_chars;
use crate::text::trim;

verus! {

/// BIP44 purpose of AOXC paths.
pub const AOXC_HD_BIP44_PURPOSE: u32 = 44;

/// AOXC coin type.
pub const AOXC_HD_PURPOSE: u32 = 2626;

/// Largest canonical (unhardened) component value.
pub const MAX_HD_INDEX: u32 = 0x7FFF_FFFF;

/// Hardened derivation offset.
pub const HARDENED_OFFSET: u32 = 0x8000_0000;

/// Number of `/`-separated components.
pub const HD_PATH_PART_COUNT: usize = 7;

/// Root marker.
pub const HD_PATH_ROOT: &'static str = "m";

/// `m / 44 / 2626 / chain / role / zone / index`.
#[derive(Debug, Clone, Copy, PartialEq, Eq, Structural, Hash)]
pub struct HdPath {
    pub chain: u32,
    pub role: u32,
    pub zone: u32,
    pub index: u32,
}

/// HD path parsing and validation errors.
#[derive(Debug, Clone, PartialEq, Eq, Structural)]
#[non_exhaustive]
pub enum HdPathError {
    EmptyInput,
    InvalidFormat,
    InvalidPurpose,
    InvalidComponent,
    ComponentOverflow,
    IndexOverflow,
}

impl HdPathError {
    pub open spec fn code_text(&self) -> Seq<char> {
        match self {
            HdPathError::EmptyInput => "HD_PATH_EMPTY_INPUT"@,
            HdPathError::InvalidFormat => "HD_PATH_INVALID_FORMAT"@,
            HdPathError::InvalidPurpose => "HD_PATH_INVALID_PURPOSE"@,
            HdPathError::InvalidComponent => "HD_PATH_INVALID_COMPONENT"@,
            HdPathError::ComponentOverflow => "HD_PATH_COMPONENT_OVERFLOW"@,
            HdPathError::IndexOverflow => "HD_PATH_INDEX_OVERFLOW"@,
        }
    }

    /// Stable symbolic error code.
    pub fn code(&self) -> (r: &'static str)
        ensures
            r@ == self.code_text(),
    {
        match self {
            HdPathError::EmptyInput => "HD_PATH_EMPTY_INPUT",
            HdPathError::InvalidFormat => "HD_PATH_INVALID_FORMAT",
            HdPathError::InvalidPurpose => "HD_PATH_INVALID_PURPOSE",
            HdPathError::InvalidComponent => "HD_PATH_INVALID_COMPONENT",
            HdPathError::ComponentOverflow => "HD_PATH_COMPONENT_OVERFLOW",
            HdPathError::IndexOverflow => "HD_PATH_INDEX_OVERFLOW",
        }
    }

    /// Human-readable form of the error: its code.
    pub fn message(&self) -> (r: String)
        ensures
            r@ == self.code_text(),
    {
        str_to_string(self.code())
    }
}

/// The first rule a set of components breaks.
pub open spec fn components_error(chain: u32, role: u32, zone: u32, index: u32) -> Option<HdPathError> {
    if chain > MAX_HD_INDEX || role > MAX_HD_INDEX || zone > MAX_HD_INDEX {
        Some(HdPathError::ComponentOverflow)
    } else if index > MAX_HD_INDEX {
        Some(HdPathError::IndexOverflow)
    } else {
        None
    }
}

/// The canonical text of a path.
pub open spec fn path_text(p: HdPath) -> Seq<char> {
    HD_PATH_ROOT@ + seq!['/'] + dec_digits(AOXC_HD_BIP44_PURPOSE as nat) + seq!['/'] + dec_digits(
        AOXC_HD_PURPOSE as nat,
    ) + seq!['/'] + dec_digits(p.chain as nat) + seq!['/'] + dec_digits(p.role as nat) + seq!['/']
        + dec_digits(p.zone as nat) + seq!['/'] + dec_digits(p.index as nat)
}

/// A decimal component: non-empty ASCII digits whose value fits in `u32`.
pub open spec fn component_value(s: Seq<char>) -> Option<u32> {
    if s.len() == 0 || !all_chars(s, |c: char| is_ascii_digit(c)) || dec_value(s) > u32::MAX {
        None
    } else {
        Some(dec_value(s) as u32)
    }
}

/// A variable component: a decimal component in the unhardened range.
pub open spec fn variable_component(s: Seq<char>) -> Result<u32, HdPathError> {
    match component_value(s) {
        None => Err(HdPathError::InvalidComponent),
        Some(v) => if v > MAX_HD_INDEX {
            Err(HdPathError::ComponentOverflow)
        } else {
            Ok(v)
        },
    }
}

/// What parsing a text yields.
pub open spec fn parsed_path(s: Seq<char>) -> Result<HdPath, HdPathError> {
    let parts = split_on(s, '/');
    if trim(s).len() == 0 {
        Err(HdPathError::EmptyInput)
    } else if trim(s) != s {
        Err(HdPathError::InvalidFormat)
    } else if parts.len() != HD_PATH_PART_COUNT || parts[0] != HD_PATH_ROOT@ {
        Err(HdPathError::InvalidFormat)
    } else if component_value(parts[1]) is None {
        Err(HdPathError::InvalidComponent)
    } else if component_value(parts[1])->0 != AOXC_HD_BIP44_PURPOSE {
        Err(HdPathError::InvalidPurpose)
    } else if component_value(parts[2]) is None {
        Err(HdPathError::InvalidComponent)
    } else if component_value(parts[2])->0 != AOXC_HD_PURPOSE {
        Err(HdPathError::InvalidPurpose)
    } else if variable_component(parts[3]) is Err {
        Err(variable_component(parts[3])->Err_0)
    } else if variable_component(parts[4]) is Err {
        Err(variable_component(parts[4])->Err_0)
    } else if variable_component(parts[5]) is Err {
        Err(variable_component(parts[5])->Err_0)
    } else if component_value(parts[6]) is None {
        Err(HdPathError::InvalidComponent)
    } else if component_value(parts[6])->0 > MAX_HD_INDEX {
        Err(HdPathError::IndexOverflow)
    } else {
        Ok(
            HdPath {
                chain: variable_component(parts[3])->Ok_0,
                role: variable_component(parts[4])->Ok_0,
                zone: variable_component(parts[5])->Ok_0,
                index: component_value(parts[6])->0,
            },
        )
    }
}

fn validate_variable_component(value: u32) -> (r: Result<(), HdPathError>)
    ensures
        r == if value > MAX_HD_INDEX {
            Err(HdPathError::ComponentOverflow)
        } else {
            Ok(())
        },
{
    if value > MAX_HD_INDEX {
        return Err(HdPathError::ComponentOverflow);
    }
    Ok(())
}

fn parse_path_component(value: &[char]) -> (r: Result<u32, HdPathError>)
    ensures
        match component_value(value@) {
            Some(v) => r == Ok::<u32, HdPathError>(v),
            None => r == Err::<u32, HdPathError>(HdPathError::InvalidComponent),
        },
{
    match parse_u32_digits(value) {
        Some(v) => Ok(v),
        None => Err(HdPathError::InvalidComponent),
    }
}

fn parse_variable_component(value: &[char]) -> (r: Result<u32, HdPathError>)
    ensures
        r == variable_component(value@),
{
    let parsed = parse_path_component(value)?;
    validate_variable_component(parsed)?;
    Ok(parsed)
}

fn parse_index_component(value: &[char]) -> (r: Result<u32, HdPathError>)
    ensures
        match component_value(value@) {
            None => r == Err::<u32, HdPathError>(HdPathError::InvalidComponent),
            Some(v) => r == if v > MAX_HD_INDEX {
                Err(HdPathError::IndexOverflow)
            } else {
                Ok(v)
            },
        },
{
    let parsed = parse_path_component(value)?;
    if parsed > MAX_HD_INDEX {
        return Err(HdPathError::IndexOverflow);
    }
    Ok(parsed)
}

impl HdPath {
    /// A path with every variable component in the unhardened range.
    pub fn new(chain: u32, role: u32, zone: u32, index: u32) -> (r: Result<Self, HdPathError>)
        ensures
            match components_error(chain, role, zone, index) {
                Some(e) => r == Err::<Self, HdPathError>(e),
                None => r == Ok::<Self, HdPathError>(HdPath { chain, role, zone, index }),
            },
    {
        validate_variable_component(chain)?;
        validate_variable_component(role)?;
        validate_variable_component(zone)?;
        if index > MAX_HD_INDEX {
            return Err(HdPathError::IndexOverflow);
        }
        Ok(HdPath { chain, role, zone, index })
    }

    /// Validates an existing path.
    pub fn validate(&self) -> (r: Result<(), HdPathError>)
        ensures
            match components_error(self.chain, self.role, self.zone, self.index) {
                Some(e) => r == Err::<(), HdPathError>(e),
                None => r is Ok,
            },
    {
        match HdPath::new(self.chain, self.role, self.zone, self.index) {
            Ok(_) => Ok(()),
            Err(e) => Err(e),
        }
    }

    /// The canonical text `m/44/2626/chain/role/zone/index`.
    pub fn to_string_path(&self) -> (r: String)
        ensures
            r@ == path_text(*self),
    {
        let mut out: Vec<char> = Vec::new();
        push_str(&mut out, HD_PATH_ROOT);
        out.push('/');
        push_decimal_u64(&mut out, AOXC_HD_BIP44_PURPOSE as u64);
        out.push('/');
        push_decimal_u64(&mut out, AOXC_HD_PURPOSE as u64);
        out.push('/');
        push_decimal_u64(&mut out, self.chain as u64);
        out.push('/');
        push_decimal_u64(&mut out, self.role as u64);
        out.push('/');
        push_decimal_u64(&mut out, self.zone as u64);
        out.push('/');
        push_decimal_u64(&mut out, self.index as u64);
        assert(out@ =~= path_text(*self));
        string_from_chars(&out)
    }

    /// The canonical text (what `Display` shows).
    pub fn to_string(&self) -> (r: String)
        ensures
            r@ == path_text(*self),
    {
        self.to_string_path()
    }

    /// The index with the hardened bit set.
    pub fn hardened_index(&self) -> (r: u32)
        ensures
            r == self.index | HARDENED_OFFSET,
    {
        self.index | HARDENED_OFFSET
    }

    /// Whether the stored index carries the hardened bit.
    pub fn is_hardened(&self) -> (r: bool)
        ensures
            r == ((self.index & HARDENED_OFFSET) != 0),
    {
        (self.index & HARDENED_OFFSET) != 0
    }

    /// Whether every component is in the unhardened range.
    pub fn is_canonical_unhardened(&self) -> (r: bool)
        ensures
            r == (self.chain <= MAX_HD_INDEX && self.role <= MAX_HD_INDEX && self.zone
                <= MAX_HD_INDEX && self.index <= MAX_HD_INDEX),
    {
        self.chain <= MAX_HD_INDEX && self.role <= MAX_HD_INDEX && self.zone <= MAX_HD_INDEX
            && self.index <= MAX_HD_INDEX
    }

    /// The next sequential path.
    pub fn next(&self) -> (r: Result<Self, HdPathError>)
        requires
            self.index < u32::MAX,
        ensures
            r == if self.index == MAX_HD_INDEX {
                Err(HdPathError::IndexOverflow)
            } else {
                Ok(HdPath { index: (self.index + 1) as u32, ..*self })
            },
    {
        if self.index == MAX_HD_INDEX {
            return Err(HdPathError::IndexOverflow);
        }
        Ok(HdPath { chain: self.chain, role: self.role, zone: self.zone, index: self.index + 1 })
    }

    /// The path advanced by `step` indexes.
    pub fn next_n(&self, step: u32) -> (r: Result<Self, HdPathError>)
        ensures
            r == if self.index + step > MAX_HD_INDEX {
                Err(HdPathError::IndexOverflow)
            } else {
                Ok(HdPath { index: (self.index + step) as u32, ..*self })
            },
    {
        let next_index = match self.index.checked_add(step) {
            Some(v) => v,
            None => {
                return Err(HdPathError::IndexOverflow);
            },
        };
        if next_index > MAX_HD_INDEX {
            return Err(HdPathError::IndexOverflow);
        }
        Ok(HdPath { chain: self.chain, role: self.role, zone: self.zone, index: next_index })
    }

    /// Parses canonical path text; surrounding whitespace is rejected.
    pub fn parse_path(value: &str) -> (r: Result<Self, HdPathError>)
        ensures
            r == parsed_path(value@),
    {
        let cs = chars_of(value);
        if is_blank(&cs) {
            return Err(HdPathError::EmptyInput);
        }
        if has_outer_ws(&cs) {
            return Err(HdPathError::InvalidFormat);
        }
        let parts = split_at_char(&cs, '/');
        let ghost views = parts@.map_values(|v: Vec<char>| v@);
        if parts.len() != HD_PATH_PART_COUNT {
            return Err(HdPathError::InvalidFormat);
        }
        proof {
            assert(views[0] == parts@[0]@);
            assert(views[1] == parts@[1]@);
            assert(views[2] == parts@[2]@);
            assert(views[3] == parts@[3]@);
            assert(views[4] == parts@[4]@);
            assert(views[5] == parts@[5]@);
            assert(views[6] == parts@[6]@);
        }
        let root = chars_of(HD_PATH_ROOT);
        if !chars_eq(&parts[0], &root) {
            return Err(HdPathError::InvalidFormat);
        }
        let bip44_purpose = parse_path_component(&parts[1])?;
        if bip44_purpose != AOXC_HD_BIP44_PURPOSE {
            return Err(HdPathError::InvalidPurpose);
        }
        let purpose = parse_path_component(&parts[2])?;
        if purpose != AOXC_HD_PURPOSE {
            return Err(HdPathError::InvalidPurpose);
        }
        let chain = parse_variable_component(&parts[3])?;
        let role = parse_variable_component(&parts[4])?;
        let zone = parse_variable_component(&parts[5])?;
        let index = parse_index_component(&parts[6])?;
        HdPath::new(chain, role, zone, index)
    }
}

impl core::str::FromStr for HdPath {
    type Err = HdPathError;

    fn from_str(value: &str) -> (r: Result<Self, HdPathError>)
        ensures
            r == parsed_path(value@),
    {
        HdPath::parse_path(value)
    }
}

// ---------------------------------------------------------------------------
// Laws
// ---------------------------------------------------------------------------

proof fn lemma_digits_component(n: u32)
    ensures
        component_value(dec_digits(n as nat)) == Some(n),
        has_no(dec_digits(n as nat), '/'),
{
    lemma_dec_digits(n as nat);
}

/// Formatting a canonical path and parsing the text gives the path back.
pub proof fn law_path_roundtrip(p: HdPath)
    requires
        components_error(p.chain, p.role, p.zone, p.index) is None,
    ensures
        parsed_path(path_text(p)) == Ok::<HdPath, HdPathError>(p),
{
    reveal_strlit("m");
    let root = HD_PATH_ROOT@;
    assert(root =~= seq!['m']);
    assert(has_no(root, '/'));
    let sep = seq!['/'];
    let d44 = dec_digits(AOXC_HD_BIP44_PURPOSE as nat);
    let d2626 = dec_digits(AOXC_HD_PURPOSE as nat);
    let dc = dec_digits(p.chain as nat);
    let dr = dec_digits(p.role as nat);
    let dz = dec_digits(p.zone as nat);
    let di = dec_digits(p.index as nat);
    lemma_digits_component(AOXC_HD_BIP44_PURPOSE);
    lemma_digits_component(AOXC_HD_PURPOSE);
    lemma_digits_component(p.chain);
    lemma_digits_component(p.role);
    lemma_digits_component(p.zone);
    lemma_digits_component(p.index);
    let a1 = root + sep + d44;
    let a2 = a1 + sep + d2626;
    let a3 = a2 + sep + dc;
    let a4 = a3 + sep + dr;
    let a5 = a4 + sep + dz;
    let t = a5 + sep + di;
    assert(t == path_text(p));
    lemma_split_single(root, '/');
    lemma_split_append(root, d44, '/');
    lemma_split_append(a1, d2626, '/');
    lemma_split_append(a2, dc, '/');
    lemma_split_append(a3, dr, '/');
    lemma_split_append(a4, dz, '/');
    lemma_split_append(a5, di, '/');
    assert(split_on(t, '/') =~= seq![root, d44, d2626, dc, dr, dz, di]);
    lemma_dec_digits(p.index as nat);
    assert(di.len() >= 1);
    assert(all_chars(di, |c: char| is_ascii_digit(c)));
    assert(t.last() == di.last());
    assert(is_ascii_digit(di[di.len() - 1]));
    assert(t[0] == 'm');
    lemma_trim_fixed(t);
    lemma_trim_empty(t);
    assert(!is_ws(t[0]));
}

} // verus!
