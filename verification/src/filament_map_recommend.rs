//! The automatic filament map: which extruder prints each filament when the
//! map is not set by hand.
use vstd::prelude::*;
use crate::text::chars_of;

verus! {

/// Whether `s` begins with `prefix`.
pub open spec fn starts_with_text(s: Seq<char>, prefix: Seq<char>) -> bool {
    prefix.len() <= s.len() && s.take(prefix.len() as int) == prefix
}

/// Whether `s` begins with `prefix` (`str::starts_with`).
pub fn starts_with(s: &str, prefix: &str) -> (r: bool)
    ensures
        r == starts_with_text(s@, prefix@),
{
    let cs = chars_of(s);
    let cp = chars_of(prefix);
    if cp.len() > cs.len() {
        return false;
    }
    let mut i: usize = 0;
    while i < cp.len()
        invariant
            cp@ == prefix@,
            cs@ == s@,
            cp@.len() <= cs@.len(),
            i <= cp@.len(),
            forall|j: int| 0 <= j < i ==> cs@[j] == cp@[j],
        decreases cp@.len() - i,
    {
        if cs[i] != cp[i] {
            assert(cs@.take(cp@.len() as int)[i as int] != cp@[i as int]);
            return false;
        }
        i = i + 1;
    }
    assert(cs@.take(cp@.len() as int) =~= cp@);
    true
}

/// Whether the printer model is a Bambu Lab one.
pub fn is_bbl_printer(printer_model: &str) -> (r: bool)
    ensures
        r == starts_with_text(printer_model@, "Bambu Lab"@),
{
    starts_with(printer_model, "Bambu Lab")
}

/// The recommended filament map: every filament on the master extruder for
/// a single nozzle or a dual-nozzle Bambu Lab printer, filament `i` on
/// extruder `i` for other multi-nozzle printers, and no change without
/// nozzles or when the map is set by hand. At least one filament counts.
pub open spec fn recommended_filament_map(
    manual: bool,
    filament_count: nat,
    nozzle_count: nat,
    is_bbl: bool,
    master_extruder_id: i32,
    current: Seq<i32>,
) -> Seq<i32> {
    let count = if filament_count > 1 {
        filament_count
    } else {
        1
    };
    if manual {
        current
    } else if nozzle_count == 1 || (nozzle_count == 2 && is_bbl) {
        Seq::new(count, |i: int| master_extruder_id)
    } else if nozzle_count > 1 {
        Seq::new(count, |i: int| (i + 1) as i32)
    } else {
        current
    }
}

/// Sets the filament map as recommended for the printer; `filament_count`
/// is the number of filament colours.
pub fn apply_recommended_filament_map(
    manual: bool,
    filament_count: usize,
    nozzle_count: usize,
    printer_model: &str,
    master_extruder_id: i32,
    filament_map: &mut Vec<i32>,
)
    requires
        filament_count <= i32::MAX,
    ensures
        final(filament_map)@ == recommended_filament_map(
            manual,
            filament_count as nat,
            nozzle_count as nat,
            starts_with_text(printer_model@, "Bambu Lab"@),
            master_extruder_id,
            old(filament_map)@,
        ),
{
    if manual {
        return;
    }
    let count: usize = if filament_count > 1 {
        filament_count
    } else {
        1
    };
    let is_bbl = is_bbl_printer(printer_model);
    let mut map: Vec<i32> = Vec::new();
    if nozzle_count == 1 || (nozzle_count == 2 && is_bbl) {
        let mut i: usize = 0;
        while i < count
            invariant
                i <= count,
                map@ =~= Seq::new(i as nat, |k: int| master_extruder_id),
            decreases count - i,
        {
            map.push(master_extruder_id);
            i = i + 1;
        }
    } else if nozzle_count > 1 {
        let mut i: usize = 0;
        while i < count
            invariant
                i <= count,
                count <= i32::MAX,
                map@ =~= Seq::new(i as nat, |k: int| (k + 1) as i32),
            decreases count - i,
        {
            map.push((i + 1) as i32);
            i = i + 1;
        }
    } else {
        return;
    }
    *filament_map = map;
}

} // verus!
