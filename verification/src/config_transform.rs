//! The adjustments made to the project settings before their config block
//! is written: per-extruder defaults of multi-extruder printers, the scarf
//! seam flag, the raw prime tower flag of dual-nozzle Bambu Lab printers,
//! and the check of the flush volumes matrix.
use vstd::prelude::*;
use crate::config_types::OrcaBool;
use crate::error::{SliceError, invalid_message, message_of};
use crate::text::{owned, views_of};

verus! {

/// The message for a flush volumes matrix of the wrong size.
pub open spec fn matrix_error_message() -> Seq<char> {
    "Flush volumes matrix do not match to the correct size!"@
}

/// The error for a flush volumes matrix of the wrong size.
pub fn matrix_error() -> (e: SliceError)
    ensures
        message_of(e) == matrix_error_message(),
{
    invalid_message("Flush volumes matrix do not match to the correct size!")
}

/// What is done to the flush volumes matrix.
#[derive(Clone, Copy, Debug, PartialEq, Eq, Structural)]
pub enum FlushMatrixScaling {
    /// Each extruder's segment of `segment_len` values is scaled by that
    /// extruder's flush multiplier.
    Scale { segment_len: usize },
    /// The matrix is left as it is.
    Keep,
}

/// What `flush_matrix_scaling` decides: an error without multipliers;
/// scaling when the matrix holds one square of filaments per extruder;
/// nothing for a single filament; else an error.
pub open spec fn flush_matrix_scaling_spec(head_count: nat, filament_count: nat, matrix_len: nat) -> Result<
    FlushMatrixScaling,
    Seq<char>,
> {
    if head_count == 0 {
        Err(matrix_error_message())
    } else if filament_count * filament_count * head_count == matrix_len {
        Ok(FlushMatrixScaling::Scale { segment_len: (matrix_len / head_count) as usize })
    } else if filament_count == 1 {
        Ok(FlushMatrixScaling::Keep)
    } else {
        Err(matrix_error_message())
    }
}

/// How the flush volumes matrix is scaled, given the number of flush
/// multipliers (one per extruder), of filaments, and of matrix values.
pub fn flush_matrix_scaling(head_count: usize, filament_count: usize, matrix_len: usize) -> (r: Result<
    FlushMatrixScaling,
    SliceError,
>)
    ensures
        match flush_matrix_scaling_spec(head_count as nat, filament_count as nat, matrix_len as nat) {
            Ok(s) => r == Ok::<FlushMatrixScaling, SliceError>(s),
            Err(m) => r matches Err(e) && message_of(e) == m,
        },
{
    if head_count == 0 {
        return Err(matrix_error());
    }
    let expected = match filament_count.checked_mul(filament_count) {
        Some(square) => square.checked_mul(head_count),
        None => None,
    };
    proof {
        if filament_count * filament_count > usize::MAX {
            assert(filament_count * filament_count * head_count >= filament_count * filament_count)
                by (nonlinear_arith)
                requires
                    head_count >= 1,
            ;
        }
    }
    let matches = match expected {
        Some(n) => n == matrix_len,
        None => false,
    };
    if matches {
        Ok(FlushMatrixScaling::Scale { segment_len: matrix_len / head_count })
    } else if filament_count == 1 {
        Ok(FlushMatrixScaling::Keep)
    } else {
        Err(matrix_error())
    }
}

/// When the matrix is scaled, each extruder gets one segment of a square
/// of filaments, and the segments cover the matrix exactly.
pub proof fn lemma_flush_segments_cover_matrix(head_count: nat, filament_count: nat, matrix_len: nat)
    requires
        matrix_len <= usize::MAX,
        flush_matrix_scaling_spec(head_count, filament_count, matrix_len) matches Ok(
            FlushMatrixScaling::Scale { .. },
        ),
    ensures
        ({
            let segment = flush_matrix_scaling_spec(head_count, filament_count, matrix_len)->Ok_0->segment_len;
            &&& segment == filament_count * filament_count
            &&& segment * head_count == matrix_len
        }),
{
    let f2 = filament_count * filament_count;
    assert(f2 * head_count == matrix_len);
    assert(head_count > 0);
    assert((f2 * head_count) / head_count == f2 && f2 <= f2 * head_count) by (nonlinear_arith)
        requires
            head_count > 0,
            f2 >= 0,
    ;
    assert((matrix_len / head_count) as usize == f2);
}

/// The scarf seam flag of the export: set once any seam slope is not
/// `none`, else kept.
pub fn apply_scarf_joint_seam(seam_slope_is_none: bool, has_scarf_joint_seam: OrcaBool) -> (r:
    OrcaBool)
    ensures
        r.0 == (has_scarf_joint_seam.0 || !seam_slope_is_none),
{
    if !seam_slope_is_none {
        OrcaBool(true)
    } else {
        has_scarf_joint_seam
    }
}

/// The prime tower flag of the export: the raw preset value for
/// dual-nozzle Bambu Lab printers when there is one, else the current one.
pub fn apply_cli_oracle_state(
    is_bbl: bool,
    nozzle_count: usize,
    raw_enable_prime_tower: Option<OrcaBool>,
    enable_prime_tower: OrcaBool,
) -> (r: OrcaBool)
    ensures
        r == (match raw_enable_prime_tower {
            Some(raw) => if is_bbl && nozzle_count == 2 {
                raw
            } else {
                enable_prime_tower
            },
            None => enable_prime_tower,
        }),
{
    let dual_nozzle_bbl = is_bbl && nozzle_count == 2;
    match raw_enable_prime_tower {
        Some(raw) => if dual_nozzle_bbl {
            raw
        } else {
            enable_prime_tower
        },
        None => enable_prime_tower,
    }
}

/// Whether every AMS count is empty.
fn all_empty(values: &Vec<String>) -> (r: bool)
    ensures
        r == forall|i: int|
            0 <= i < views_of(values@).len() ==> (#[trigger] views_of(values@)[i]).len() == 0,
{
    let ghost vv = views_of(values@);
    let mut i: usize = 0;
    while i < values.len()
        invariant
            i <= values@.len(),
            vv == views_of(values@),
            forall|j: int| 0 <= j < i ==> (#[trigger] values@[j])@.len() == 0,
        decreases values@.len() - i,
    {
        if values[i].as_str().is_empty() == false {
            assert(vv[i as int] == values@[i as int]@);
            return false;
        }
        i = i + 1;
    }
    assert forall|j: int| 0 <= j < vv.len() implies (#[trigger] vv[j]).len() == 0 by {
        assert(vv[j] == values@[j]@);
    }
    true
}

/// Whether the per-extruder defaults of the command line apply: more than
/// one extruder, no AMS count set, and the filament map not manual.
pub open spec fn multi_extruder_defaults_apply(
    nozzle_count: nat,
    extruder_ams_count: Seq<Seq<char>>,
    filament_map_manual: bool,
) -> bool {
    nozzle_count > 1 && (forall|i: int|
        0 <= i < extruder_ams_count.len() ==> (#[trigger] extruder_ams_count[i]).len() == 0)
        && !filament_map_manual
}

/// `values` brought to `count` entries: cut, or extended with `fill`.
pub open spec fn resized<T>(values: Seq<T>, count: nat, fill: T) -> Seq<T> {
    Seq::new(count, |i: int| if i < values.len() { values[i] } else { fill })
}

/// The AMS counts, flush multipliers and flush volumes matrix after the
/// command line's per-extruder defaults (see
/// [`prepare_multi_extruder_cli_defaults`]).
pub open spec fn cli_defaults_spec<F>(
    nozzle_count: nat,
    filament_map_manual: bool,
    filament_colour_count: nat,
    extruder_ams_count: Seq<Seq<char>>,
    flush_multiplier: Seq<F>,
    one: F,
    flush_volumes_matrix: Seq<F>,
    zero: F,
) -> (Seq<Seq<char>>, Seq<F>, Seq<F>) {
    if multi_extruder_defaults_apply(nozzle_count, extruder_ams_count, filament_map_manual) {
        (
            Seq::new(nozzle_count, |i: int| "1#0|4#1"@),
            resized(flush_multiplier, nozzle_count, one),
            if filament_colour_count == 1 {
                Seq::new(nozzle_count, |i: int| zero)
            } else {
                flush_volumes_matrix
            },
        )
    } else {
        (extruder_ams_count, flush_multiplier, flush_volumes_matrix)
    }
}

/// Filling the command line's per-extruder defaults a second time changes
/// nothing: once filled, the AMS counts are set.
pub proof fn lemma_cli_defaults_settle<F>(
    nozzle_count: nat,
    filament_map_manual: bool,
    filament_colour_count: nat,
    extruder_ams_count: Seq<Seq<char>>,
    flush_multiplier: Seq<F>,
    one: F,
    flush_volumes_matrix: Seq<F>,
    zero: F,
)
    ensures
        ({
            let (ams, multipliers, matrix) = cli_defaults_spec(
                nozzle_count,
                filament_map_manual,
                filament_colour_count,
                extruder_ams_count,
                flush_multiplier,
                one,
                flush_volumes_matrix,
                zero,
            );
            cli_defaults_spec(
                nozzle_count,
                filament_map_manual,
                filament_colour_count,
                ams,
                multipliers,
                one,
                matrix,
                zero,
            ) == (ams, multipliers, matrix)
        }),
{
    if multi_extruder_defaults_apply(nozzle_count, extruder_ams_count, filament_map_manual) {
        let ams = Seq::new(nozzle_count, |i: int| "1#0|4#1"@);
        reveal_strlit("1#0|4#1");
        assert(ams[0].len() > 0);
        assert(!multi_extruder_defaults_apply(nozzle_count, ams, filament_map_manual));
    }
}

/// The per-extruder defaults that the command line fills for
/// multi-extruder printers: every extruder gets the `1#0|4#1` AMS mapping,
/// the flush multipliers are resized to the extruder count (filled with
/// `one`), and for a single filament the flush volumes matrix becomes
/// `zero` once per extruder. Nothing changes unless the defaults apply.
pub fn prepare_multi_extruder_cli_defaults<F: Copy>(
    nozzle_count: usize,
    filament_map_manual: bool,
    filament_colour_count: usize,
    extruder_ams_count: &mut Vec<String>,
    flush_multiplier: &mut Vec<F>,
    one: F,
    flush_volumes_matrix: &mut Vec<F>,
    zero: F,
)
    ensures
        if multi_extruder_defaults_apply(
            nozzle_count as nat,
            views_of(old(extruder_ams_count)@),
            filament_map_manual,
        ) {
            &&& views_of(final(extruder_ams_count)@) == Seq::new(
                nozzle_count as nat,
                |i: int| "1#0|4#1"@,
            )
            &&& final(flush_multiplier)@ == resized(old(flush_multiplier)@, nozzle_count as nat, one)
            &&& final(flush_volumes_matrix)@ == if filament_colour_count == 1 {
                Seq::new(nozzle_count as nat, |i: int| zero)
            } else {
                old(flush_volumes_matrix)@
            }
        } else {
            &&& final(extruder_ams_count)@ == old(extruder_ams_count)@
            &&& final(flush_multiplier)@ == old(flush_multiplier)@
            &&& final(flush_volumes_matrix)@ == old(flush_volumes_matrix)@
        },
        (
            views_of(final(extruder_ams_count)@),
            final(flush_multiplier)@,
            final(flush_volumes_matrix)@,
        ) == cli_defaults_spec(
            nozzle_count as nat,
            filament_map_manual,
            filament_colour_count as nat,
            views_of(old(extruder_ams_count)@),
            old(flush_multiplier)@,
            one,
            old(flush_volumes_matrix)@,
            zero,
        ),
{
    let count = nozzle_count;
    if count <= 1 || !all_empty(extruder_ams_count) || filament_map_manual {
        return;
    }
    let mut ams: Vec<String> = Vec::new();
    let mut i: usize = 0;
    while i < count
        invariant
            i <= count,
            ams@.len() == i,
            forall|j: int| 0 <= j < i ==> (#[trigger] ams@[j])@ == "1#0|4#1"@,
        decreases count - i,
    {
        ams.push(owned("1#0|4#1"));
        i = i + 1;
    }
    assert(views_of(ams@) =~= Seq::new(count as nat, |i: int| "1#0|4#1"@));
    *extruder_ams_count = ams;
    let ghost old_multipliers = flush_multiplier@;
    let mut multipliers: Vec<F> = Vec::new();
    let mut k: usize = 0;
    while k < count
        invariant
            k <= count,
            old_multipliers == old(flush_multiplier)@,
            flush_multiplier@ == old_multipliers,
            multipliers@ =~= resized(old_multipliers, count as nat, one).take(k as int),
        decreases count - k,
    {
        if k < flush_multiplier.len() {
            multipliers.push(flush_multiplier[k]);
        } else {
            multipliers.push(one);
        }
        k = k + 1;
    }
    *flush_multiplier = multipliers;
    if filament_colour_count == 1 {
        let mut matrix: Vec<F> = Vec::new();
        let mut m: usize = 0;
        while m < count
            invariant
                m <= count,
                matrix@ =~= Seq::new(m as nat, |i: int| zero),
            decreases count - m,
        {
            matrix.push(zero);
            m = m + 1;
        }
        *flush_volumes_matrix = matrix;
    }
}

} // verus!
