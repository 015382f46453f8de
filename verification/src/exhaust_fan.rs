//! Exhaust fan control: which speed the exhaust fan runs at during the
//! print and after it.
use vstd::prelude::*;
use crate::error::{SliceError, invalid, message_of};
use crate::json::{Json, JsonValue};
use crate::slice_options::agrees;
use crate::text::str_eq;
use crate::chamber_temperature::{bool_vector_spec, parse_bool_vector};
use crate::filament_override::opt_model;
use crate::slice_options::SliceOptions;
use crate::bed_temperature::parsed_model;
use crate::extruder_index::opt_get;

verus! {

/// The exhaust fan speeds during the print and on completion, when the fan
/// runs.
#[derive(Clone, Copy, Debug)]
pub struct ExhaustFanControl {
    during_print_speed: Option<u8>,
    completion_speed: Option<u8>,
}

impl ExhaustFanControl {
    pub closed spec fn speeds(self) -> (Option<u8>, Option<u8>) {
        (self.during_print_speed, self.completion_speed)
    }

    pub fn new(during_print_speed: Option<u8>, completion_speed: Option<u8>) -> (r: Self)
        ensures
            r.speeds() == (during_print_speed, completion_speed),
    {
        Self { during_print_speed, completion_speed }
    }

    /// The fan off during the print and after it.
    pub fn disabled() -> (r: Self)
        ensures
            r.speeds() == (None::<u8>, None::<u8>),
    {
        Self::new(None, None)
    }

    pub fn during_print_speed(self) -> (r: Option<u8>)
        ensures
            r == self.speeds().0,
    {
        self.during_print_speed
    }

    pub fn completion_speed(self) -> (r: Option<u8>)
        ensures
            r == self.speeds().1,
    {
        self.completion_speed
    }
}

/// What `support_air_filtration` gives.
pub open spec fn support_air_filtration_spec(value: Option<Json>) -> Result<bool, Seq<char>> {
    match value {
        None => Ok(true),
        Some(Json::Bool(b)) => Ok(b),
        Some(Json::Str(s)) => if s == "true"@ {
            Ok(true)
        } else if s == "false"@ {
            Ok(false)
        } else {
            Err("support_air_filtration must be a lowercase boolean"@)
        },
        Some(_) => Err("support_air_filtration must be a boolean"@),
    }
}

/// Whether the printer supports air filtration: a boolean or the words
/// `true` / `false`; supported by default.
pub fn support_air_filtration(value: Option<&JsonValue>) -> (r: Result<bool, SliceError>)
    ensures
        agrees(r, support_air_filtration_spec(opt_model(value))),
{
    proof {
        reveal_strlit("support_air_filtration");
        reveal_strlit(" must be a lowercase boolean");
        reveal_strlit(" must be a boolean");
        reveal_strlit("support_air_filtration must be a lowercase boolean");
        reveal_strlit("support_air_filtration must be a boolean");
    }
    match value {
        None => Ok(true),
        Some(j) => match j {
            JsonValue::Bool(b) => Ok(*b),
            JsonValue::String(text) => if str_eq(text.as_str(), "true") {
                Ok(true)
            } else if str_eq(text.as_str(), "false") {
                Ok(false)
            } else {
                let e = invalid("support_air_filtration", " must be a lowercase boolean");
                assert(message_of(e) =~= "support_air_filtration must be a lowercase boolean"@);
                Err(e)
            },
            _ => {
                let e = invalid("support_air_filtration", " must be a boolean");
                assert(message_of(e) =~= "support_air_filtration must be a boolean"@);
                Err(e)
            },
        },
    }
}

/// A boolean list option, `default` when absent.
pub fn bool_vector(key: &str, value: Option<&JsonValue>, default: &[bool]) -> (r: Result<
    Vec<bool>,
    SliceError,
>)
    ensures
        match value {
            None => r matches Ok(v) && v@ == default@,
            Some(j) => match bool_vector_spec(key@, j.model()) {
                Ok(s) => r matches Ok(v) && v@ == s,
                Err(m) => agrees(r, Err(m)),
            },
        },
        r matches Ok(v) ==> (v@.len() > 0 || default@.len() == 0),
{
    proof {
        if let Some(j) = value {
            crate::chamber_temperature::lemma_bool_vector_nonempty(key@, j.model());
        }
    }
    match value {
        None => {
            let mut v: Vec<bool> = Vec::new();
            let mut i: usize = 0;
            while i < default.len()
                invariant
                    i <= default@.len(),
                    v@ == default@.take(i as int),
                decreases default@.len() - i,
            {
                v.push(default[i]);
                i = i + 1;
                assert(v@ =~= default@.take(i as int));
            }
            assert(default@.take(default@.len() as int) =~= default@);
            Ok(v)
        },
        Some(j) => parse_bool_vector(key, j),
    }
}

/// The entry at `index`, or the last entry past the end.
pub open spec fn value_at_spec<T>(values: Seq<T>, index: int) -> T {
    if index < values.len() - 1 {
        values[index]
    } else {
        values[values.len() - 1]
    }
}

/// The entry at `index`, or the last entry past the end.
pub fn value_at<T: Copy>(values: &[T], index: usize) -> (r: T)
    requires
        values@.len() > 0,
    ensures
        r == value_at_spec(values@, index as int),
{
    let last = values.len() - 1;
    if index < last {
        values[index]
    } else {
        values[last]
    }
}

/// An index whose phase is active.
pub open spec fn speed_slot(active: Seq<bool>, phase_active: Seq<bool>, i: int) -> bool {
    value_at_spec(active, i) && value_at_spec(phase_active, i)
}

/// The number of slots: the longest of the three lists.
pub open spec fn slot_count(a: nat, b: nat, c: nat) -> nat {
    if a >= b && a >= c {
        a
    } else if b >= c {
        b
    } else {
        c
    }
}

/// The highest speed over the active slots below `n`.
pub open spec fn best_speed(active: Seq<bool>, phase_active: Seq<bool>, speed: Seq<u8>, n: int) -> Option<
    u8,
>
    decreases n,
{
    if n <= 0 {
        None
    } else {
        let rest = best_speed(active, phase_active, speed, n - 1);
        if speed_slot(active, phase_active, n - 1) {
            let s = value_at_spec(speed, n - 1);
            match rest {
                Some(b) => if s > b {
                    Some(s)
                } else {
                    Some(b)
                },
                None => Some(s),
            }
        } else {
            rest
        }
    }
}

/// The selected speed is the highest among the active slots: it is the
/// speed of an active slot, no active slot runs faster, and there is a
/// selected speed exactly when some slot is active.
pub proof fn lemma_best_speed_is_highest_active(
    active: Seq<bool>,
    phase_active: Seq<bool>,
    speed: Seq<u8>,
    n: int,
)
    ensures
        best_speed(active, phase_active, speed, n) is Some <==> exists|i: int|
            0 <= i < n && #[trigger] speed_slot(active, phase_active, i),
        best_speed(active, phase_active, speed, n) matches Some(s) ==> (exists|i: int|
            0 <= i < n && #[trigger] speed_slot(active, phase_active, i) && value_at_spec(speed, i)
                == s),
        best_speed(active, phase_active, speed, n) matches Some(s) ==> (forall|i: int|
            0 <= i < n && #[trigger] speed_slot(active, phase_active, i) ==> value_at_spec(speed, i)
                <= s),
    decreases n,
{
    if n > 0 {
        lemma_best_speed_is_highest_active(active, phase_active, speed, n - 1);
        if exists|i: int| 0 <= i < n - 1 && #[trigger] speed_slot(active, phase_active, i) {
            let i = choose|i: int| 0 <= i < n - 1 && #[trigger] speed_slot(active, phase_active, i);
            assert(0 <= i < n);
        }
        if exists|i: int| 0 <= i < n && #[trigger] speed_slot(active, phase_active, i) {
            let i = choose|i: int| 0 <= i < n && #[trigger] speed_slot(active, phase_active, i);
            if i < n - 1 {
                assert(0 <= i < n - 1);
            }
        }
    }
}

/// The highest speed among the slots where the fan and the phase are both
/// active, each list repeating its last entry; `None` when no slot is.
pub fn selected_speed(active: &[bool], phase_active: &[bool], speed: &[u8]) -> (r: Option<u8>)
    requires
        active@.len() > 0,
        phase_active@.len() > 0,
        speed@.len() > 0,
    ensures
        r == best_speed(
            active@,
            phase_active@,
            speed@,
            slot_count(active@.len(), phase_active@.len(), speed@.len()) as int,
        ),
{
    let mut len = active.len();
    if phase_active.len() > len {
        len = phase_active.len();
    }
    if speed.len() > len {
        len = speed.len();
    }
    assert(len == slot_count(active@.len(), phase_active@.len(), speed@.len()));
    let mut best: Option<u8> = None;
    let mut i: usize = 0;
    while i < len
        invariant
            i <= len,
            active@.len() > 0,
            phase_active@.len() > 0,
            speed@.len() > 0,
            best == best_speed(active@, phase_active@, speed@, i as int),
        decreases len - i,
    {
        if value_at(active, i) && value_at(phase_active, i) {
            let s = value_at(speed, i);
            best = match best {
                Some(b) => if s > b {
                    Some(s)
                } else {
                    Some(b)
                },
                None => Some(s),
            };
        }
        i = i + 1;
    }
    best
}


/// What `percent_vector` gives: the default when unset, else the caller's
/// reading of the integer list, each value a percent from 0 to 100.
pub open spec fn percent_vector_spec(
    key: Seq<char>,
    value: Option<Json>,
    default: Seq<u8>,
    parsed: Result<Seq<u32>, Seq<char>>,
) -> Result<Seq<u8>, Seq<char>> {
    match value {
        None => Ok(default),
        Some(_) => match parsed {
            Err(m) => Err(m),
            Ok(v) => if forall|i: int| 0 <= i < v.len() ==> #[trigger] v[i] <= 100 {
                Ok(Seq::new(v.len(), |i: int| v[i] as u8))
            } else {
                Err(key + " must be a percent from 0 to 100"@)
            },
        },
    }
}

/// A list of fan percents; `parsed` is the caller's reading of the
/// integer list, used only when the option is set.
pub fn percent_vector(
    key: &str,
    value: Option<&JsonValue>,
    default: &[u8],
    parsed: Result<Vec<u32>, SliceError>,
) -> (r: Result<Vec<u8>, SliceError>)
    ensures
        match percent_vector_spec(key@, opt_model(value), default@, parsed_model(parsed)) {
            Ok(v) => r matches Ok(w) && w@ == v,
            Err(m) => r matches Err(e) && message_of(e) == m,
        },
{
    match value {
        None => {
            let mut v: Vec<u8> = Vec::new();
            let mut i: usize = 0;
            while i < default.len()
                invariant
                    i <= default@.len(),
                    v@ == default@.take(i as int),
                decreases default@.len() - i,
            {
                v.push(default[i]);
                i = i + 1;
                assert(v@ =~= default@.take(i as int));
            }
            assert(default@.take(default@.len() as int) =~= default@);
            Ok(v)
        },
        Some(_) => {
            let values = match parsed {
                Ok(v) => v,
                Err(e) => return Err(e),
            };
            match percents_of(&values) {
                Some(p) => Ok(p),
                None => {
                    proof {
                        reveal_strlit(" must be a percent from 0 to 100");
                    }
                    Err(invalid(key, " must be a percent from 0 to 100"))
                },
            }
        },
    }
}

/// The values as percents, when all are at most 100.
fn percents_of(values: &Vec<u32>) -> (r: Option<Vec<u8>>)
    ensures
        match r {
            Some(p) => (forall|i: int| 0 <= i < values@.len() ==> #[trigger] values@[i] <= 100)
                && p@ == Seq::new(values@.len(), |i: int| values@[i] as u8),
            None => !(forall|i: int| 0 <= i < values@.len() ==> #[trigger] values@[i] <= 100),
        },
{
    let mut out: Vec<u8> = Vec::new();
    let mut i: usize = 0;
    while i < values.len()
        invariant
            i <= values@.len(),
            out@.len() == i,
            forall|j: int| 0 <= j < i ==> #[trigger] values@[j] <= 100,
            forall|j: int| 0 <= j < i ==> #[trigger] out@[j] == values@[j] as u8,
        decreases values@.len() - i,
    {
        if values[i] > 100 {
            return None;
        }
        out.push(values[i] as u8);
        i = i + 1;
    }
    assert(out@ =~= Seq::new(values@.len(), |i: int| values@[i] as u8));
    Some(out)
}

/// A boolean list option, `default` when unset.
pub open spec fn bool_list_spec(values: Map<Seq<char>, Json>, key: Seq<char>, default: Seq<bool>) -> Result<
    Seq<bool>,
    Seq<char>,
> {
    match opt_get(values, key) {
        None => Ok(default),
        Some(j) => bool_vector_spec(key, j),
    }
}

/// What `exhaust_fan_control` gives: off without air filtration support;
/// else the highest speed among the filaments whose filtration is active in
/// each phase.
pub open spec fn exhaust_fan_spec(
    values: Map<Seq<char>, Json>,
    parsed_during: Result<Seq<u32>, Seq<char>>,
    parsed_completion: Result<Seq<u32>, Seq<char>>,
) -> Result<(Option<u8>, Option<u8>), Seq<char>> {
    match support_air_filtration_spec(opt_get(values, "support_air_filtration"@)) {
        Err(m) => Err(m),
        Ok(false) => Ok((None, None)),
        Ok(true) => match bool_list_spec(values, "activate_air_filtration"@, seq![false]) {
            Err(m) => Err(m),
            Ok(active) => match bool_list_spec(
                values,
                "activate_air_filtration_during_print"@,
                seq![true],
            ) {
                Err(m) => Err(m),
                Ok(during_active) => match bool_list_spec(
                    values,
                    "activate_air_filtration_on_completion"@,
                    seq![true],
                ) {
                    Err(m) => Err(m),
                    Ok(completion_active) => match percent_vector_spec(
                        "during_print_exhaust_fan_speed"@,
                        opt_get(values, "during_print_exhaust_fan_speed"@),
                        seq![60u8],
                        parsed_during,
                    ) {
                        Err(m) => Err(m),
                        Ok(during_speed) => match percent_vector_spec(
                            "complete_print_exhaust_fan_speed"@,
                            opt_get(values, "complete_print_exhaust_fan_speed"@),
                            seq![80u8],
                            parsed_completion,
                        ) {
                            Err(m) => Err(m),
                            Ok(completion_speed) => Ok(
                                (
                                    best_speed(
                                        active,
                                        during_active,
                                        during_speed,
                                        slot_count(
                                            active.len(),
                                            during_active.len(),
                                            during_speed.len(),
                                        ) as int,
                                    ),
                                    best_speed(
                                        active,
                                        completion_active,
                                        completion_speed,
                                        slot_count(
                                            active.len(),
                                            completion_active.len(),
                                            completion_speed.len(),
                                        ) as int,
                                    ),
                                ),
                            ),
                        },
                    },
                },
            },
        },
    }
}

impl SliceOptions {
    /// The exhaust fan control. `parsed_during` and `parsed_completion` are
    /// the caller's readings of the two exhaust fan speed lists, used only
    /// when those options are set; each is non-empty when read.
    pub fn exhaust_fan_control(
        &self,
        parsed_during: Result<Vec<u32>, SliceError>,
        parsed_completion: Result<Vec<u32>, SliceError>,
    ) -> (r: Result<ExhaustFanControl, SliceError>)
        requires
            parsed_during matches Ok(v) ==> v@.len() > 0,
            parsed_completion matches Ok(v) ==> v@.len() > 0,
        ensures
            match exhaust_fan_spec(
                self@,
                parsed_model(parsed_during),
                parsed_model(parsed_completion),
            ) {
                Ok(s) => r matches Ok(c) && c.speeds() == s,
                Err(m) => r matches Err(e) && message_of(e) == m,
            },
    {
        match support_air_filtration(self.values().get("support_air_filtration")) {
            Err(e) => return Err(e),
            Ok(false) => return Ok(ExhaustFanControl::disabled()),
            Ok(true) => {},
        }
        let off: [bool; 1] = [false];
        let on: [bool; 1] = [true];
        let during_default: [u8; 1] = [60];
        let completion_default: [u8; 1] = [80];
        assert(off@ =~= seq![false]);
        assert(on@ =~= seq![true]);
        assert(during_default@ =~= seq![60u8]);
        assert(completion_default@ =~= seq![80u8]);
        let active = match bool_vector(
            "activate_air_filtration",
            self.values().get("activate_air_filtration"),
            &off,
        ) {
            Ok(v) => v,
            Err(e) => return Err(e),
        };
        let during_active = match bool_vector(
            "activate_air_filtration_during_print",
            self.values().get("activate_air_filtration_during_print"),
            &on,
        ) {
            Ok(v) => v,
            Err(e) => return Err(e),
        };
        let completion_active = match bool_vector(
            "activate_air_filtration_on_completion",
            self.values().get("activate_air_filtration_on_completion"),
            &on,
        ) {
            Ok(v) => v,
            Err(e) => return Err(e),
        };
        let during_speed = match percent_vector(
            "during_print_exhaust_fan_speed",
            self.values().get("during_print_exhaust_fan_speed"),
            &during_default,
            parsed_during,
        ) {
            Ok(v) => v,
            Err(e) => return Err(e),
        };
        let completion_speed = match percent_vector(
            "complete_print_exhaust_fan_speed",
            self.values().get("complete_print_exhaust_fan_speed"),
            &completion_default,
            parsed_completion,
        ) {
            Ok(v) => v,
            Err(e) => return Err(e),
        };
        Ok(
            ExhaustFanControl::new(
                selected_speed(active.as_slice(), during_active.as_slice(), during_speed.as_slice()),
                selected_speed(
                    active.as_slice(),
                    completion_active.as_slice(),
                    completion_speed.as_slice(),
                ),
            ),
        )
    }
}


/// The selected speed is one of the speeds, so a bound on every speed
/// bounds it.
proof fn lemma_best_speed_bounded(
    active: Seq<bool>,
    phase_active: Seq<bool>,
    speed: Seq<u8>,
    n: int,
    bound: u8,
)
    requires
        speed.len() > 0,
        forall|i: int| 0 <= i < speed.len() ==> #[trigger] speed[i] <= bound,
    ensures
        best_speed(active, phase_active, speed, n) matches Some(x) ==> x <= bound,
    decreases n,
{
    if n > 0 {
        lemma_best_speed_bounded(active, phase_active, speed, n - 1, bound);
        let i = n - 1;
        if i < speed.len() - 1 {
            assert(speed[i] <= bound);
        } else {
            assert(speed[speed.len() - 1] <= bound);
        }
    }
}

/// Read fan percents are at most 100.
proof fn lemma_percent_vector_bounded(
    key: Seq<char>,
    value: Option<Json>,
    default: Seq<u8>,
    parsed: Result<Seq<u32>, Seq<char>>,
)
    requires
        forall|i: int| 0 <= i < default.len() ==> #[trigger] default[i] <= 100,
    ensures
        percent_vector_spec(key, value, default, parsed) matches Ok(v) ==> forall|i: int|
            0 <= i < v.len() ==> #[trigger] v[i] <= 100,
{
    if let Some(_) = value {
        if let Ok(p) = parsed {
            if forall|j: int| 0 <= j < p.len() ==> #[trigger] p[j] <= 100 {
                let v = Seq::new(p.len(), |i: int| p[i] as u8);
                assert forall|i: int| 0 <= i < v.len() implies #[trigger] v[i] <= 100 by {
                    assert(p[i] <= 100);
                }
            }
        }
    }
}

/// The exhaust fan speeds, when the fan runs, are percents: at most 100.
pub proof fn lemma_exhaust_fan_speeds_are_percents(
    values: Map<Seq<char>, Json>,
    parsed_during: Result<Seq<u32>, Seq<char>>,
    parsed_completion: Result<Seq<u32>, Seq<char>>,
)
    requires
        parsed_during matches Ok(v) ==> v.len() > 0,
        parsed_completion matches Ok(v) ==> v.len() > 0,
    ensures
        exhaust_fan_spec(values, parsed_during, parsed_completion) matches Ok((a, b)) ==> (a matches Some(
            x,
        ) ==> x <= 100) && (b matches Some(y) ==> y <= 100),
{
    let during = percent_vector_spec(
        "during_print_exhaust_fan_speed"@,
        opt_get(values, "during_print_exhaust_fan_speed"@),
        seq![60u8],
        parsed_during,
    );
    let completion = percent_vector_spec(
        "complete_print_exhaust_fan_speed"@,
        opt_get(values, "complete_print_exhaust_fan_speed"@),
        seq![80u8],
        parsed_completion,
    );
    lemma_percent_vector_bounded(
        "during_print_exhaust_fan_speed"@,
        opt_get(values, "during_print_exhaust_fan_speed"@),
        seq![60u8],
        parsed_during,
    );
    lemma_percent_vector_bounded(
        "complete_print_exhaust_fan_speed"@,
        opt_get(values, "complete_print_exhaust_fan_speed"@),
        seq![80u8],
        parsed_completion,
    );
    if let Ok(d) = during {
        assert(d.len() > 0);
        if let Ok(c) = completion {
            assert(c.len() > 0);
            let active = bool_list_spec(values, "activate_air_filtration"@, seq![false]);
            let during_active = bool_list_spec(
                values,
                "activate_air_filtration_during_print"@,
                seq![true],
            );
            let completion_active = bool_list_spec(
                values,
                "activate_air_filtration_on_completion"@,
                seq![true],
            );
            if let (Ok(a), Ok(da), Ok(ca)) = (active, during_active, completion_active) {
                lemma_best_speed_bounded(a, da, d, slot_count(a.len(), da.len(), d.len()) as int, 100);
                lemma_best_speed_bounded(a, ca, c, slot_count(a.len(), ca.len(), c.len()) as int, 100);
            }
        }
    }
}

} // verus!
