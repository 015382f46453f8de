//! Which filament each extrusion role prints with.
//!
//! A role's filament is given as a 1-based filament number, in a JSON number
//! or in text. A number goes through `f64` first: an integer is rounded to
//! the nearest `f64`, a float must be a whole, non-negative value no larger
//! than `2^64`, and the count saturates at `u64::MAX`. The rounding and the
//! float decoding are done here on the integer and the bit pattern, with no
//! float arithmetic.
use vstd::prelude::*;
use vstd::arithmetic::div_mod::{lemma_div_denominator, lemma_fundamental_div_mod};
use crate::error::{SliceError, invalid};
use crate::json::{Json, JsonNumber, JsonValue};
use crate::option_map::OptionMap;
use crate::slice_options::{SliceOptions, agrees};
use crate::text::{parse_u64, parse_u64_text, trim, trim_str};

verus! {

/// Two to the power `n`.
pub open spec fn pow_two(n: nat) -> nat
    decreases n,
{
    if n == 0 {
        1
    } else {
        2 * pow_two((n - 1) as nat)
    }
}

/// Powers of two grow with the exponent.
pub proof fn lemma_pow_two_monotone(a: nat, b: nat)
    requires
        a <= b,
    ensures
        1 <= pow_two(a) <= pow_two(b),
    decreases b,
{
    if a < b {
        lemma_pow_two_monotone(a, (b - 1) as nat);
    } else if b > 0 {
        lemma_pow_two_monotone(0, (b - 1) as nat);
    }
}

/// How many low bits `u64 as f64` cannot keep: none below `2^53`, else as
/// many as it takes to bring the value below `2^53`.
pub open spec fn dropped_bits(n: nat) -> nat
    decreases n,
{
    if n < 0x20_0000_0000_0000 {
        0
    } else {
        1 + dropped_bits(n / 2)
    }
}

/// The `f64` nearest to `n`, ties to the even one: what `u64 as f64` holds.
pub open spec fn nearest_f64(n: nat) -> nat {
    let k = dropped_bits(n);
    if k == 0 {
        n
    } else {
        let unit = pow_two(k);
        let q = n / unit;
        let r = n % unit;
        let half = unit / 2;
        if r > half || (r == half && q % 2 == 1) {
            (q + 1) * unit
        } else {
            q * unit
        }
    }
}

/// Integers below `2^53` go through `f64` unchanged.
pub proof fn lemma_small_integers_exact(n: nat)
    requires
        n < 0x20_0000_0000_0000,
    ensures
        nearest_f64(n) == n,
{
}

/// The value of a float bit pattern when it is finite, whole and not below
/// zero (negative zero counts as zero).
pub open spec fn float_whole_value(bits: u64) -> Option<nat> {
    let exp = (bits / 0x10_0000_0000_0000) % 2048;
    let frac = bits % 0x10_0000_0000_0000;
    if exp == 2047 {
        None
    } else if exp == 0 {
        if frac == 0 {
            Some(0)
        } else {
            None
        }
    } else if bits >= 0x8000_0000_0000_0000 {
        None
    } else {
        let sig = frac as nat + 0x10_0000_0000_0000nat;
        if exp >= 1075 {
            Some(sig * pow_two((exp - 1075) as nat))
        } else if sig % pow_two((1075 - exp) as nat) == 0 {
            Some(sig / pow_two((1075 - exp) as nat))
        } else {
            None
        }
    }
}

/// `f64 as u64` on a whole value: saturating at `u64::MAX`.
pub open spec fn saturate_u64(v: nat) -> u64 {
    if v > u64::MAX {
        u64::MAX
    } else {
        v as u64
    }
}

/// The filament number that a JSON number gives, through `f64`.
pub open spec fn role_filament_number(j: Json) -> Option<u64> {
    match j {
        Json::PosInt(n) => Some(saturate_u64(nearest_f64(n as nat))),
        Json::NegInt(n) => if n >= 0 {
            Some(saturate_u64(nearest_f64(n as nat)))
        } else {
            None
        },
        Json::Float(bits) => match float_whole_value(bits) {
            Some(v) => if v <= pow_two(64) {
                Some(saturate_u64(v))
            } else {
                None
            },
            None => None,
        },
        _ => None,
    }
}

/// The filament number that an option value gives: a JSON number, or text
/// that reads as an unsigned integer once trimmed.
pub open spec fn filament_number(j: Json) -> Option<u64> {
    match j {
        Json::Str(s) => parse_u64_text(trim(s)),
        _ => role_filament_number(j),
    }
}

proof fn lemma_pow_two_values()
    ensures
        pow_two(11) == 2048,
        pow_two(12) == 4096,
        pow_two(13) == 8192,
        pow_two(63) == 0x8000_0000_0000_0000,
        pow_two(64) == 0x1_0000_0000_0000_0000,
{
    reveal_with_fuel(pow_two, 65);
}

/// `2^n` for `n` below 64.
fn power_of_two(n: u64) -> (r: u64)
    requires
        n < 64,
    ensures
        r == pow_two(n as nat),
{
    let mut r: u64 = 1;
    let mut i: u64 = 0;
    while i < n
        invariant
            i <= n < 64,
            r == pow_two(i as nat),
        decreases n - i,
    {
        proof {
            lemma_pow_two_monotone(i as nat, 62);
            lemma_pow_two_values();
        }
        r = r * 2;
        i = i + 1;
    }
    r
}

/// `u64 as f64`, then back to `u64`, saturating.
fn nearest_f64_count(n: u64) -> (r: u64)
    ensures
        r == saturate_u64(nearest_f64(n as nat)),
{
    let mut q: u64 = n;
    let mut unit: u64 = 1;
    let ghost mut k: nat = 0;
    while q >= 0x20_0000_0000_0000
        invariant
            unit == pow_two(k),
            1 <= unit <= 4096,
            q == n as nat / unit as nat,
            dropped_bits(n as nat) == k + dropped_bits(q as nat),
        decreases q,
    {
        proof {
            lemma_div_denominator(n as int, unit as int, 2);
            lemma_fundamental_div_mod(n as int, unit as int);
            assert(unit * q <= n);
            assert(unit < 2048) by (nonlinear_arith)
                requires
                    unit * q <= n,
                    n <= u64::MAX,
                    q >= 0x20_0000_0000_0000,
                    unit >= 1,
            ;
        }
        q = q / 2;
        unit = unit * 2;
        proof {
            k = k + 1;
        }
    }
    assert(dropped_bits(q as nat) == 0);
    if unit == 1 {
        assert(q == n);
        return n;
    }
    let r = n % unit;
    let half = unit / 2;
    if r > half || (r == half && q % 2 == 1) {
        assert((q + 1) * unit <= 0x20_0000_0000_0000 * 4096) by (nonlinear_arith)
            requires
                q < 0x20_0000_0000_0000,
                unit <= 4096,
        ;
        let up: u128 = (q as u128 + 1) * (unit as u128);
        if up > 0xffff_ffff_ffff_ffffu128 {
            u64::MAX
        } else {
            up as u64
        }
    } else {
        proof {
            lemma_fundamental_div_mod(n as int, unit as int);
        }
        assert(q * unit <= n) by (nonlinear_arith)
            requires
                n == unit * q + r,
                r >= 0,
        ;
        q * unit
    }
}

/// The whole value of a float bit pattern, when it is one and at most
/// `2^64`, saturated to `u64`.
fn float_whole_count(bits: u64) -> (r: Option<u64>)
    ensures
        r == match float_whole_value(bits) {
            Some(v) => if v <= pow_two(64) {
                Some(saturate_u64(v))
            } else {
                None::<u64>
            },
            None => None,
        },
{
    proof {
        lemma_pow_two_values();
    }
    let exp = (bits / 0x10_0000_0000_0000) % 2048;
    let frac = bits % 0x10_0000_0000_0000;
    if exp == 2047 {
        return None;
    }
    if exp == 0 {
        return if frac == 0 {
            Some(0)
        } else {
            None
        };
    }
    if bits >= 0x8000_0000_0000_0000 {
        return None;
    }
    let sig = frac + 0x10_0000_0000_0000;
    if exp >= 1075 {
        let shift = exp - 1075;
        if shift > 12 {
            proof {
                lemma_pow_two_monotone(13, shift as nat);
                let p = pow_two(shift as nat);
                assert(sig * p > 0x1_0000_0000_0000_0000) by (nonlinear_arith)
                    requires
                        sig >= 0x10_0000_0000_0000,
                        p >= 8192,
                ;
            }
            None
        } else if shift == 12 {
            if frac == 0 {
                Some(u64::MAX)
            } else {
                assert(sig * 4096 > 0x1_0000_0000_0000_0000);
                None
            }
        } else {
            let unit = power_of_two(shift);
            proof {
                lemma_pow_two_monotone(shift as nat, 11);
            }
            assert(sig * unit < 0x20_0000_0000_0000 * 2048) by (nonlinear_arith)
                requires
                    sig < 0x20_0000_0000_0000,
                    1 <= unit <= 2048,
            ;
            Some(sig * unit)
        }
    } else {
        let shift = 1075 - exp;
        if shift >= 64 {
            proof {
                lemma_pow_two_monotone(64, shift as nat);
                assert((sig as nat) % pow_two(shift as nat) == sig) by {
                    vstd::arithmetic::div_mod::lemma_small_mod(
                        sig as nat,
                        pow_two(shift as nat),
                    );
                }
            }
            None
        } else {
            let unit = power_of_two(shift);
            proof {
                lemma_pow_two_monotone(0, shift as nat);
            }
            if sig % unit == 0 {
                Some(sig / unit)
            } else {
                None
            }
        }
    }
}

/// The filament number that a JSON number gives, through `f64`.
pub fn parse_role_filament_number(number: &JsonNumber) -> (r: Option<u64>)
    ensures
        r == role_filament_number(JsonValue::Number(*number).model()),
{
    match number {
        JsonNumber::PosInt(n) => Some(nearest_f64_count(*n)),
        JsonNumber::NegInt(n) => if *n >= 0 {
            Some(nearest_f64_count(*n as u64))
        } else {
            None
        },
        JsonNumber::Float(bits) => {
            let b = if *bits == 0x8000_0000_0000_0000u64 {
                0u64
            } else {
                *bits
            };
            float_whole_count(b)
        },
    }
}

/// The filament number that an option value gives, if any.
fn filament_number_of(value: &JsonValue) -> (r: Option<u64>)
    ensures
        r == filament_number(value.model()),
{
    match value {
        JsonValue::Number(number) => parse_role_filament_number(number),
        JsonValue::String(text) => {
            let t = trim_str(text.as_str());
            parse_u64(t.as_str())
        },
        _ => None,
    }
}

/// What `parse_role_filament_selector` gives: the 0-based filament index of
/// a role, the first filament when unset.
pub open spec fn role_filament_selector_spec(values: Map<Seq<char>, Json>, key: Seq<char>) -> Result<
    u64,
    Seq<char>,
> {
    if !values.contains_key(key) {
        Ok(0)
    } else {
        match filament_number(values[key]) {
            None => Err(key + " must be a positive integer"@),
            Some(n) => if n == 0 {
                Err(key + " must be positive"@)
            } else {
                Ok((n - 1) as u64)
            },
        }
    }
}

/// The 0-based filament index of a role; the first filament when unset.
pub fn parse_role_filament_selector(values: &OptionMap, key: &str) -> (r: Result<u64, SliceError>)
    ensures
        agrees(r, role_filament_selector_spec(values@, key@)),
{
    proof {
        reveal_strlit(" must be a positive integer");
        reveal_strlit(" must be positive");
    }
    let value = match values.get(key) {
        None => return Ok(0),
        Some(value) => value,
    };
    match filament_number_of(value) {
        None => Err(invalid(key, " must be a positive integer")),
        Some(n) => if n == 0 {
            Err(invalid(key, " must be positive"))
        } else {
            Ok(n - 1)
        },
    }
}

/// The filament of the support roles: chosen automatically, or a fixed
/// 0-based index.
#[derive(Clone, Copy, Debug, PartialEq, Eq, Structural)]
pub enum SupportFilamentSelector {
    Auto,
    Fixed(u64),
}

impl SupportFilamentSelector {
    /// The index used for the role itself: the first filament when automatic.
    pub open spec fn index(self) -> u64 {
        match self {
            SupportFilamentSelector::Auto => 0,
            SupportFilamentSelector::Fixed(s) => s,
        }
    }

    /// The index used for the support body.
    pub open spec fn body_index(self, interface: Self, not_for_body: bool, selector_count: nat) -> u64 {
        match self {
            SupportFilamentSelector::Fixed(s) => s,
            SupportFilamentSelector::Auto => if not_for_body && selector_count > 1 && interface
                == SupportFilamentSelector::Fixed(0) {
                1
            } else {
                0
            },
        }
    }

    /// The index used for the role itself: the first filament when automatic.
    pub fn selector(self) -> (r: u64)
        ensures
            r == self.index(),
    {
        match self {
            SupportFilamentSelector::Auto => 0,
            SupportFilamentSelector::Fixed(s) => s,
        }
    }

    /// The index used for the support body: a fixed one as given; when
    /// automatic, the second filament if the interface is kept off the body,
    /// there is more than one filament, and the interface uses the first;
    /// else the first.
    pub fn support_selector(self, interface: Self, not_for_body: bool, selector_count: usize) -> (r:
        u64)
        ensures
            r == self.body_index(interface, not_for_body, selector_count as nat),
    {
        match self {
            SupportFilamentSelector::Fixed(s) => s,
            SupportFilamentSelector::Auto => {
                let first = match interface {
                    SupportFilamentSelector::Fixed(s) => s == 0,
                    SupportFilamentSelector::Auto => false,
                };
                if not_for_body && selector_count > 1 && first {
                    1
                } else {
                    0
                }
            },
        }
    }
}

/// What `parse_support_filament_selector` gives: automatic when unset or
/// zero, else the 0-based index.
pub open spec fn support_filament_selector_spec(values: Map<Seq<char>, Json>, key: Seq<char>) -> Result<
    SupportFilamentSelector,
    Seq<char>,
> {
    if !values.contains_key(key) {
        Ok(SupportFilamentSelector::Auto)
    } else {
        match filament_number(values[key]) {
            None => Err(key + " must be a non-negative integer"@),
            Some(n) => if n == 0 {
                Ok(SupportFilamentSelector::Auto)
            } else {
                Ok(SupportFilamentSelector::Fixed((n - 1) as u64))
            },
        }
    }
}

/// The filament of a support role: automatic when unset or zero.
pub fn parse_support_filament_selector(values: &OptionMap, key: &str) -> (r: Result<
    SupportFilamentSelector,
    SliceError,
>)
    ensures
        agrees(r, support_filament_selector_spec(values@, key@)),
{
    proof {
        reveal_strlit(" must be a non-negative integer");
    }
    let value = match values.get(key) {
        None => return Ok(SupportFilamentSelector::Auto),
        Some(value) => value,
    };
    match filament_number_of(value) {
        None => Err(invalid(key, " must be a non-negative integer")),
        Some(n) => if n == 0 {
            Ok(SupportFilamentSelector::Auto)
        } else {
            Ok(SupportFilamentSelector::Fixed(n - 1))
        },
    }
}

/// What `parse_set_other_flow_ratios` gives: off when unset.
pub open spec fn set_other_flow_ratios_spec(values: Map<Seq<char>, Json>) -> Result<bool, Seq<char>> {
    if !values.contains_key("set_other_flow_ratios"@) {
        Ok(false)
    } else {
        match crate::json::json_as_bool(values["set_other_flow_ratios"@]) {
            Some(b) => Ok(b),
            None => Err("set_other_flow_ratios must be a boolean"@),
        }
    }
}

/// Whether the flow ratios of the other roles are set; off when unset.
pub fn parse_set_other_flow_ratios(values: &OptionMap) -> (r: Result<bool, SliceError>)
    ensures
        agrees(r, set_other_flow_ratios_spec(values@)),
{
    match values.get("set_other_flow_ratios") {
        None => Ok(false),
        Some(value) => match value.as_bool() {
            Some(b) => Ok(b),
            None => Err(crate::error::invalid_message("set_other_flow_ratios must be a boolean")),
        },
    }
}

/// The hardware value of the filament at `index`, or of the first filament
/// when there is none at `index`.
pub fn hardware_value<T: Copy>(values: &[T], index: u64) -> (r: T)
    requires
        values@.len() > 0,
    ensures
        r == (if index < values@.len() {
            values@[index as int]
        } else {
            values@[0]
        }),
{
    let len = values.len() as u64;
    if index < len {
        values[index as usize]
    } else {
        values[0]
    }
}

/// The 0-based filament index that each extrusion role prints with.
#[derive(Clone, Copy, Debug, PartialEq, Eq, Structural)]
pub struct RoleFilamentSelectors {
    pub wall: u64,
    pub sparse_infill: u64,
    pub solid_infill: u64,
    pub support: u64,
    pub support_interface: u64,
    /// The filament of the support body, which may differ from `support`
    /// when the interface is kept off the body.
    pub support_body: u64,
}

/// What `parse_extrusion_options` gives: each role's filament, the first
/// error in the order wall, sparse infill, solid infill, support, support
/// interface.
pub open spec fn extrusion_selectors_spec(
    values: Map<Seq<char>, Json>,
    selector_count: nat,
    support_interface_not_for_body: bool,
) -> Result<RoleFilamentSelectors, Seq<char>> {
    match role_filament_selector_spec(values, "wall_filament"@) {
        Err(m) => Err(m),
        Ok(wall) => match role_filament_selector_spec(values, "sparse_infill_filament"@) {
            Err(m) => Err(m),
            Ok(sparse_infill) => match role_filament_selector_spec(values, "solid_infill_filament"@) {
                Err(m) => Err(m),
                Ok(solid_infill) => match support_filament_selector_spec(values, "support_filament"@) {
                    Err(m) => Err(m),
                    Ok(support) => match support_filament_selector_spec(
                        values,
                        "support_interface_filament"@,
                    ) {
                        Err(m) => Err(m),
                        Ok(interface) => Ok(
                            RoleFilamentSelectors {
                                wall,
                                sparse_infill,
                                solid_infill,
                                support: support.index(),
                                support_interface: interface.index(),
                                support_body: support.body_index(
                                    interface,
                                    support_interface_not_for_body,
                                    selector_count,
                                ),
                            },
                        ),
                    },
                },
            },
        },
    }
}

/// The filament of each extrusion role. `selector_count` is the number of
/// nozzle or filament diameters, whichever list is longer;
/// `support_interface_not_for_body` tells whether the support interface
/// material is kept off the support body.
pub fn parse_extrusion_options(
    options: &SliceOptions,
    selector_count: usize,
    support_interface_not_for_body: bool,
) -> (r: Result<RoleFilamentSelectors, SliceError>)
    ensures
        agrees(
            r,
            extrusion_selectors_spec(options@, selector_count as nat, support_interface_not_for_body),
        ),
{
    let values = options.values();
    let wall = match parse_role_filament_selector(values, "wall_filament") {
        Ok(v) => v,
        Err(e) => return Err(e),
    };
    let sparse_infill = match parse_role_filament_selector(values, "sparse_infill_filament") {
        Ok(v) => v,
        Err(e) => return Err(e),
    };
    let solid_infill = match parse_role_filament_selector(values, "solid_infill_filament") {
        Ok(v) => v,
        Err(e) => return Err(e),
    };
    let support = match parse_support_filament_selector(values, "support_filament") {
        Ok(v) => v,
        Err(e) => return Err(e),
    };
    let interface = match parse_support_filament_selector(values, "support_interface_filament") {
        Ok(v) => v,
        Err(e) => return Err(e),
    };
    Ok(
        RoleFilamentSelectors {
            wall,
            sparse_infill,
            solid_infill,
            support: support.selector(),
            support_interface: interface.selector(),
            support_body: support.support_selector(
                interface,
                support_interface_not_for_body,
                selector_count,
            ),
        },
    )
}

} // verus!
