//! The lines of a config block: `; key = value`, one per option, sorted by
//! key, then the runtime lines that close the block.
use vstd::prelude::*;
use crate::config_collector::{ConfigEntry, EntryView, entry_view, entry_views, stable_sort_of,
    sort_entries};
use crate::config_value::{ConfigValueError, value_error_message, SerializedConfigValue, serialize_string_vector, tokens_of,
    quoted_elements};
use crate::error::{SliceError, invalid, message_of};
use crate::orca_block_keys::{contains, is_first_half_key, is_second_half_key,
    lemma_contains_is_membership};
use crate::text::{owned, push_str, str_eq, join_with, views_of, i64_text, int_text};
use crate::filament_map_recommend::{is_bbl_printer, starts_with_text};

verus! {

/// A key that is never written: printer and host compatibility lists and
/// print host credentials.
pub open spec fn is_banned_key(k: Seq<char>) -> bool {
    k == "compatible_printers"@ || k == "compatible_prints"@ || k == "print_host"@ || k
        == "print_host_webui"@ || k == "printhost_apikey"@ || k == "printhost_cafile"@ || k
        == "printhost_user"@ || k == "printhost_password"@ || k == "printhost_port"@
}

/// Whether `key` is never written.
pub fn banned_key(key: &str) -> (r: bool)
    ensures
        r == is_banned_key(key@),
{
    str_eq(key, "compatible_printers") || str_eq(key, "compatible_prints") || str_eq(
        key,
        "print_host",
    ) || str_eq(key, "print_host_webui") || str_eq(key, "printhost_apikey") || str_eq(
        key,
        "printhost_cafile",
    ) || str_eq(key, "printhost_user") || str_eq(key, "printhost_password") || str_eq(
        key,
        "printhost_port",
    )
}

/// The lines after one more emitted option: dropped when the key is never
/// written or the value is `nil`.
pub open spec fn emit_line(lines: Seq<EntryView>, key: Seq<char>, token: Seq<char>, is_nil: bool) -> Seq<
    EntryView,
> {
    if is_banned_key(key) || is_nil || token == "nil"@ {
        lines
    } else {
        lines.push((key, token, false))
    }
}

/// Adds the line for an option, unless it is not written.
fn emit(lines: &mut Vec<ConfigEntry>, key: &str, token: &str, is_nil: bool)
    ensures
        entry_views(final(lines)@) == emit_line(entry_views(old(lines)@), key@, token@, is_nil),
{
    if banned_key(key) || is_nil || str_eq(token, "nil") {
        return;
    }
    let ghost before = entry_views(lines@);
    lines.push(ConfigEntry { key: owned(key), token: owned(token), is_nil: false });
    assert(entry_views(lines@) =~= before.push((key@, token@, false)));
}

/// The value for the plate at `plate_index`, or the first one.
pub open spec fn plate_value(values: Seq<Seq<char>>, plate_index: nat) -> Option<Seq<char>> {
    if plate_index < values.len() {
        Some(values[plate_index as int])
    } else if values.len() > 0 {
        Some(values[0])
    } else {
        None
    }
}

/// The value for the plate at `plate_index`, or the first one.
fn plate_token(values: &Vec<String>, plate_index: usize) -> (r: Option<&String>)
    ensures
        match r {
            Some(t) => plate_value(views_of(values@), plate_index as nat) == Some(t@),
            None => plate_value(views_of(values@), plate_index as nat) is None,
        },
{
    if plate_index < values.len() {
        Some(&values[plate_index])
    } else if values.len() > 0 {
        Some(&values[0])
    } else {
        None
    }
}

/// A raw project setting: its key, and its text when it has one.
pub type RawView = (Seq<char>, Option<Seq<char>>);

/// The models of the raw project settings.
pub open spec fn raw_views(raw: Seq<(String, Option<String>)>) -> Seq<RawView> {
    raw.map_values(
        |kv: (String, Option<String>)|
            (
                kv.0@,
                match kv.1 {
                    Some(t) => Some(t@),
                    None => None,
                },
            ),
    )
}

/// Whether the raw project settings hold `k`.
pub open spec fn raw_has_key(raw: Seq<RawView>, k: Seq<char>) -> bool {
    exists|i: int| 0 <= i < raw.len() && (#[trigger] raw[i]).0 == k
}

/// Whether the raw project settings hold `key`.
fn raw_contains_key(raw: &Vec<(String, Option<String>)>, key: &str) -> (r: bool)
    ensures
        r == raw_has_key(raw_views(raw@), key@),
{
    let ghost rv = raw_views(raw@);
    let mut i: usize = 0;
    while i < raw.len()
        invariant
            i <= raw@.len(),
            rv == raw_views(raw@),
            forall|j: int| 0 <= j < i ==> (#[trigger] rv[j]).0 != key@,
        decreases raw@.len() - i,
    {
        if str_eq(raw[i].0.as_str(), key) {
            assert(rv[i as int].0 == key@);
            return true;
        }
        i = i + 1;
    }
    false
}

/// A key of the canonical config block key set.
pub open spec fn is_block_key(k: Seq<char>) -> bool {
    is_first_half_key(k) || is_second_half_key(k)
}

/// The text of a string vector option.
pub open spec fn string_vector_text(values: Seq<Seq<char>>) -> Seq<char> {
    join_with(quoted_elements(values), ";"@)
}

/// The text of a string vector option.
pub fn string_vector_token(values: &Vec<String>) -> (r: String)
    ensures
        r@ == string_vector_text(views_of(values@)),
{
    let mut items: Vec<SerializedConfigValue> = Vec::new();
    let mut i: usize = 0;
    while i < values.len()
        invariant
            i <= values@.len(),
            items@.len() == i,
            forall|j: int| 0 <= j < i ==> (#[trigger] items@[j]).token@ == values@[j]@,
        decreases values@.len() - i,
    {
        items.push(SerializedConfigValue { token: owned(values[i].as_str()), is_nil: false });
        i = i + 1;
    }
    assert(tokens_of(items@) =~= views_of(values@));
    serialize_string_vector(&items)
}

/// The lines after one more collected entry. The wipe tower origin is
/// written first for every printer, from the value of the current plate;
/// then the entry itself when the key is in the canonical set or the
/// project sets it, `extruder_colour` taking the filament colours.
pub open spec fn entry_step(
    lines: Seq<EntryView>,
    e: EntryView,
    xs: Seq<Seq<char>>,
    ys: Seq<Seq<char>>,
    plate_index: nat,
    colour: Seq<char>,
    raw: Seq<RawView>,
) -> Result<Seq<EntryView>, Seq<char>> {
    let is_wipe = e.0 == "wipe_tower_x"@ || e.0 == "wipe_tower_y"@;
    let values = if e.0 == "wipe_tower_x"@ {
        xs
    } else {
        ys
    };
    if is_wipe && plate_value(values, plate_index) is None {
        Err(e.0 + " must not be empty"@)
    } else {
        let first = if is_wipe {
            emit_line(lines, e.0, plate_value(values, plate_index)->0, false)
        } else {
            lines
        };
        if !(is_block_key(e.0) || raw_has_key(raw, e.0)) {
            Ok(first)
        } else if e.0 == "extruder_colour"@ {
            Ok(emit_line(first, e.0, colour, false))
        } else {
            Ok(emit_line(first, e.0, e.1, e.2))
        }
    }
}

/// The lines of the collected entries, or the first error.
pub open spec fn entry_lines(
    entries: Seq<EntryView>,
    xs: Seq<Seq<char>>,
    ys: Seq<Seq<char>>,
    plate_index: nat,
    colour: Seq<char>,
    raw: Seq<RawView>,
) -> Result<Seq<EntryView>, Seq<char>>
    decreases entries.len(),
{
    if entries.len() == 0 {
        Ok(Seq::empty())
    } else {
        match entry_lines(entries.drop_last(), xs, ys, plate_index, colour, raw) {
            Err(m) => Err(m),
            Ok(l) => entry_step(l, entries.last(), xs, ys, plate_index, colour, raw),
        }
    }
}

/// Once the lines of a prefix fail, the lines of any longer run fail the
/// same way.
proof fn lemma_entry_lines_error(
    entries: Seq<EntryView>,
    n: int,
    xs: Seq<Seq<char>>,
    ys: Seq<Seq<char>>,
    plate_index: nat,
    colour: Seq<char>,
    raw: Seq<RawView>,
)
    requires
        0 <= n <= entries.len(),
        entry_lines(entries.take(n), xs, ys, plate_index, colour, raw) is Err,
    ensures
        entry_lines(entries, xs, ys, plate_index, colour, raw) == entry_lines(
            entries.take(n),
            xs,
            ys,
            plate_index,
            colour,
            raw,
        ),
    decreases entries.len() - n,
{
    if n < entries.len() {
        assert(entries.take(n + 1).drop_last() =~= entries.take(n));
        lemma_entry_lines_error(entries, n + 1, xs, ys, plate_index, colour, raw);
    } else {
        assert(entries.take(n) =~= entries);
    }
}

/// The lines after one more raw project setting: the settings `from`,
/// `name` and `version`, keys that already have a line, and settings with
/// no text are skipped.
pub open spec fn raw_step(lines: Seq<EntryView>, kv: RawView) -> Seq<EntryView> {
    if kv.0 == "from"@ || kv.0 == "name"@ || kv.0 == "version"@ {
        lines
    } else if exists|i: int| 0 <= i < lines.len() && (#[trigger] lines[i]).0 == kv.0 {
        lines
    } else {
        match kv.1 {
            None => lines,
            Some(t) => emit_line(lines, kv.0, t, false),
        }
    }
}

/// The lines after all raw project settings, in their order.
pub open spec fn raw_lines(raw: Seq<RawView>, lines: Seq<EntryView>) -> Seq<EntryView>
    decreases raw.len(),
{
    if raw.len() == 0 {
        lines
    } else {
        raw_step(raw_lines(raw.drop_last(), lines), raw.last())
    }
}

/// Whether some line has the key `key`.
fn has_line(lines: &Vec<ConfigEntry>, key: &str) -> (r: bool)
    ensures
        r == exists|i: int|
            0 <= i < lines@.len() && (#[trigger] entry_views(lines@)[i]).0 == key@,
{
    let ghost lv = entry_views(lines@);
    let mut i: usize = 0;
    while i < lines.len()
        invariant
            i <= lines@.len(),
            lv == entry_views(lines@),
            forall|j: int| 0 <= j < i ==> (#[trigger] lv[j]).0 != key@,
        decreases lines@.len() - i,
    {
        if str_eq(lines[i].key.as_str(), key) {
            assert(lv[i as int].0 == key@);
            return true;
        }
        i = i + 1;
    }
    false
}

/// The text of one line: `; key = value` and a line feed.
pub open spec fn line_text(l: EntryView) -> Seq<char> {
    "; "@ + l.0 + " = "@ + l.1 + "\n"@
}

/// The text of all lines, in order.
pub open spec fn block_text(lines: Seq<EntryView>) -> Seq<char>
    decreases lines.len(),
{
    if lines.len() == 0 {
        Seq::empty()
    } else {
        block_text(lines.drop_last()) + line_text(lines.last())
    }
}

/// Appends one line, `; key = value`, to the text.
pub fn append_line(out: &mut String, key: &str, token: &str)
    ensures
        final(out)@ == old(out)@ + "; "@ + key@ + " = "@ + token@ + "\n"@,
{
    push_str(out, "; ");
    push_str(out, key);
    push_str(out, " = ");
    push_str(out, token);
    push_str(out, "\n");
}

/// Appends the bytes of `text` to `output`.
fn append_bytes(output: &mut Vec<u8>, text: &str)
    ensures
        final(output)@ == old(output)@ + vstd::utf8::encode_utf8(text@),
{
    let bytes = text.as_bytes();
    let mut i: usize = 0;
    let ghost start = output@;
    while i < bytes.len()
        invariant
            i <= bytes@.len(),
            bytes@ == vstd::utf8::encode_utf8(text@),
            output@ == start + bytes@.take(i as int),
        decreases bytes@.len() - i,
    {
        output.push(bytes[i]);
        i = i + 1;
        assert(output@ =~= start + bytes@.take(i as int));
    }
    assert(bytes@.take(bytes@.len() as int) =~= bytes@);
}

/// `after` is `before` followed by the text of `lines` sorted by key,
/// lines with equal keys in their order.
pub open spec fn appended_sorted_block(before: Seq<u8>, after: Seq<u8>, lines: Seq<EntryView>) -> bool {
    exists|sorted: Seq<EntryView>|
        stable_sort_of(sorted, lines) && after == before + vstd::utf8::encode_utf8(
            block_text(sorted),
        )
}

/// The sorted lines of the canonical config entries: every collected entry
/// whose key is in the canonical set or set by the project (with the wipe
/// tower origin of the current plate written for every printer), then the
/// project's own settings that have no line yet; the lines are sorted by
/// key, equal keys in the order they were made. On success the text is
/// appended to `output`; on error `output` is left as it was.
pub fn write_canonical_entries(
    entries: &Vec<ConfigEntry>,
    wipe_tower_x: &Vec<String>,
    wipe_tower_y: &Vec<String>,
    plate_index: usize,
    filament_colour: &Vec<String>,
    raw_settings: &Vec<(String, Option<String>)>,
    output: &mut Vec<u8>,
) -> (r: Result<(), SliceError>)
    ensures
        match entry_lines(
            entry_views(entries@),
            views_of(wipe_tower_x@),
            views_of(wipe_tower_y@),
            plate_index as nat,
            string_vector_text(views_of(filament_colour@)),
            raw_views(raw_settings@),
        ) {
            Err(m) => r matches Err(e) && message_of(e) == m && final(output)@ == old(output)@,
            Ok(l) => r is Ok && appended_sorted_block(
                old(output)@,
                final(output)@,
                raw_lines(raw_views(raw_settings@), l),
            ),
        },
{
    let ghost ev = entry_views(entries@);
    let ghost xs = views_of(wipe_tower_x@);
    let ghost ys = views_of(wipe_tower_y@);
    let ghost colour = string_vector_text(views_of(filament_colour@));
    let ghost rv = raw_views(raw_settings@);
    let mut lines: Vec<ConfigEntry> = Vec::new();
    let mut i: usize = 0;
    assert(ev.take(0) =~= Seq::<EntryView>::empty());
    assert(entry_views(lines@) =~= Seq::<EntryView>::empty());
    while i < entries.len()
        invariant
            i <= entries@.len(),
            ev == entry_views(entries@),
            xs == views_of(wipe_tower_x@),
            ys == views_of(wipe_tower_y@),
            colour == string_vector_text(views_of(filament_colour@)),
            rv == raw_views(raw_settings@),
            entry_lines(ev.take(i as int), xs, ys, plate_index as nat, colour, rv) == Ok::<
                Seq<EntryView>,
                Seq<char>,
            >(entry_views(lines@)),
        decreases entries@.len() - i,
    {
        let e = &entries[i];
        let ghost before = entry_views(lines@);
        let ghost e_view = entry_view(*e);
        proof {
            assert(ev.take(i + 1).drop_last() =~= ev.take(i as int));
            assert(ev[i as int] == e_view);
        }
        let is_x = str_eq(e.key.as_str(), "wipe_tower_x");
        let is_y = str_eq(e.key.as_str(), "wipe_tower_y");
        if is_x || is_y {
            let values = if is_x {
                wipe_tower_x
            } else {
                wipe_tower_y
            };
            match plate_token(values, plate_index) {
                Some(v) => emit(&mut lines, e.key.as_str(), v.as_str(), false),
                None => {
                    proof {
                        reveal_strlit(" must not be empty");
                        lemma_entry_lines_error(
                            ev,
                            i + 1,
                            xs,
                            ys,
                            plate_index as nat,
                            colour,
                            rv,
                        );
                    }
                    return Err(invalid(e.key.as_str(), " must not be empty"));
                },
            }
        }
        proof {
            lemma_contains_is_membership(e.key@);
        }
        let known = contains(e.key.as_str()) || raw_contains_key(raw_settings, e.key.as_str());
        if known {
            if str_eq(e.key.as_str(), "extruder_colour") {
                let colour_token = string_vector_token(filament_colour);
                emit(&mut lines, e.key.as_str(), colour_token.as_str(), false);
            } else {
                emit(&mut lines, e.key.as_str(), e.token.as_str(), e.is_nil);
            }
        }
        i = i + 1;
    }
    assert(ev.take(entries@.len() as int) =~= ev);
    let ghost from_entries = entry_views(lines@);
    let mut j: usize = 0;
    assert(rv.take(0) =~= Seq::<RawView>::empty());
    while j < raw_settings.len()
        invariant
            j <= raw_settings@.len(),
            rv == raw_views(raw_settings@),
            entry_views(lines@) == raw_lines(rv.take(j as int), from_entries),
        decreases raw_settings@.len() - j,
    {
        let key = raw_settings[j].0.as_str();
        let ghost kv = rv[j as int];
        proof {
            assert(rv.take(j + 1).drop_last() =~= rv.take(j as int));
            assert(kv.0 == key@);
        }
        if !(str_eq(key, "from") || str_eq(key, "name") || str_eq(key, "version")) {
            if !has_line(&lines, key) {
                match &raw_settings[j].1 {
                    Some(rendered) => {
                        assert(kv.1 == Some(rendered@));
                        emit(&mut lines, key, rendered.as_str(), false);
                    },
                    None => {
                        assert(kv.1 is None);
                    },
                }
            }
        }
        j = j + 1;
    }
    assert(rv.take(raw_settings@.len() as int) =~= rv);
    let sorted = sort_entries(&lines);
    let mut text = String::new();
    let mut k: usize = 0;
    let ghost sv = entry_views(sorted@);
    assert(sv.take(0) =~= Seq::<EntryView>::empty());
    while k < sorted.len()
        invariant
            k <= sorted@.len(),
            sv == entry_views(sorted@),
            text@ == block_text(sv.take(k as int)),
        decreases sorted@.len() - k,
    {
        append_line(&mut text, sorted[k].key.as_str(), sorted[k].token.as_str());
        proof {
            assert(sv.take(k + 1).drop_last() =~= sv.take(k as int));
        }
        k = k + 1;
    }
    assert(sv.take(sorted@.len() as int) =~= sv);
    append_bytes(output, text.as_str());
    assert(entry_lines(ev, xs, ys, plate_index as nat, colour, rv) == Ok::<
        Seq<EntryView>,
        Seq<char>,
    >(from_entries));
    assert(stable_sort_of(sv, raw_lines(rv, from_entries)));
    assert(output@ == old(output)@ + vstd::utf8::encode_utf8(block_text(sv)));
    assert(appended_sorted_block(old(output)@, output@, raw_lines(rv, from_entries)));
    Ok(())
}


/// No line has a key that is never written, a `nil` value, or a `nil`
/// mark.
pub open spec fn clean_lines(lines: Seq<EntryView>) -> bool {
    forall|i: int|
        0 <= i < lines.len() ==> !is_banned_key((#[trigger] lines[i]).0) && lines[i].1 != "nil"@
            && !lines[i].2
}

proof fn lemma_emit_clean(lines: Seq<EntryView>, key: Seq<char>, token: Seq<char>, is_nil: bool)
    requires
        clean_lines(lines),
    ensures
        clean_lines(emit_line(lines, key, token, is_nil)),
{
    let r = emit_line(lines, key, token, is_nil);
    assert forall|i: int| 0 <= i < r.len() implies !is_banned_key((#[trigger] r[i]).0) && r[i].1
        != "nil"@ && !r[i].2 by {
        if i < lines.len() {
            assert(r[i] == lines[i]);
        }
    }
}

proof fn lemma_entry_lines_clean(
    entries: Seq<EntryView>,
    xs: Seq<Seq<char>>,
    ys: Seq<Seq<char>>,
    plate_index: nat,
    colour: Seq<char>,
    raw: Seq<RawView>,
)
    ensures
        entry_lines(entries, xs, ys, plate_index, colour, raw) matches Ok(l) ==> clean_lines(l),
    decreases entries.len(),
{
    if entries.len() > 0 {
        lemma_entry_lines_clean(entries.drop_last(), xs, ys, plate_index, colour, raw);
        match entry_lines(entries.drop_last(), xs, ys, plate_index, colour, raw) {
            Ok(l) => {
                let e = entries.last();
                let values = if e.0 == "wipe_tower_x"@ {
                    xs
                } else {
                    ys
                };
                let is_wipe = e.0 == "wipe_tower_x"@ || e.0 == "wipe_tower_y"@;
                let first = if is_wipe && plate_value(values, plate_index) is Some {
                    lemma_emit_clean(l, e.0, plate_value(values, plate_index)->0, false);
                    emit_line(l, e.0, plate_value(values, plate_index)->0, false)
                } else {
                    l
                };
                lemma_emit_clean(first, e.0, colour, false);
                lemma_emit_clean(first, e.0, e.1, e.2);
            },
            Err(_) => {},
        }
    }
}

proof fn lemma_raw_lines_clean(raw: Seq<RawView>, lines: Seq<EntryView>)
    requires
        clean_lines(lines),
    ensures
        clean_lines(raw_lines(raw, lines)),
    decreases raw.len(),
{
    if raw.len() > 0 {
        lemma_raw_lines_clean(raw.drop_last(), lines);
        let before = raw_lines(raw.drop_last(), lines);
        let kv = raw.last();
        if let Some(t) = kv.1 {
            lemma_emit_clean(before, kv.0, t, false);
        }
    }
}

/// No line of a config block carries a key that is never written (printer
/// compatibility lists, print host settings and credentials), a `nil`
/// value, or a `nil` mark.
pub proof fn lemma_written_lines_clean(
    entries: Seq<EntryView>,
    xs: Seq<Seq<char>>,
    ys: Seq<Seq<char>>,
    plate_index: nat,
    colour: Seq<char>,
    raw: Seq<RawView>,
    sorted: Seq<EntryView>,
)
    requires
        entry_lines(entries, xs, ys, plate_index, colour, raw) is Ok,
        stable_sort_of(
            sorted,
            raw_lines(raw, entry_lines(entries, xs, ys, plate_index, colour, raw)->Ok_0),
        ),
    ensures
        clean_lines(sorted),
{
    let lines = raw_lines(raw, entry_lines(entries, xs, ys, plate_index, colour, raw)->Ok_0);
    lemma_entry_lines_clean(entries, xs, ys, plate_index, colour, raw);
    lemma_raw_lines_clean(raw, entry_lines(entries, xs, ys, plate_index, colour, raw)->Ok_0);
    assert forall|i: int| 0 <= i < sorted.len() implies !is_banned_key((#[trigger] sorted[i]).0)
        && sorted[i].1 != "nil"@ && !sorted[i].2 by {
        vstd::seq_lib::to_multiset_contains(sorted, sorted[i]);
        vstd::seq_lib::to_multiset_contains(lines, sorted[i]);
        assert(sorted.contains(sorted[i]));
        let j = choose|j: int| 0 <= j < lines.len() && lines[j] == sorted[i];
        assert(lines[j] == sorted[i]);
    }
}

/// The bed plate of the project.
#[derive(Clone, Copy, Debug, PartialEq, Eq, Structural)]
pub enum ProjectBedType {
    SupertackPlate,
    CoolPlate,
    TexturedCoolPlate,
    EngineeringPlate,
    HighTempPlate,
    TexturedPeiPlate,
    DefaultPlate,
}

/// The first-layer bed temperatures of each plate, one per filament.
pub struct PlateFirstLayerTemperatures {
    pub supertack_plate: Vec<i32>,
    pub cool_plate: Vec<i32>,
    pub textured_cool_plate: Vec<i32>,
    pub eng_plate: Vec<i32>,
    pub hot_plate: Vec<i32>,
    pub textured_plate: Vec<i32>,
}

/// The option key and the temperatures of a plate's first layer; none for
/// the default plate.
pub open spec fn plate_first_layer(bed_type: ProjectBedType, temps: PlateFirstLayerTemperatures) -> Option<
    (Seq<char>, Seq<i32>),
> {
    match bed_type {
        ProjectBedType::SupertackPlate => Some(
            ("supertack_plate_temp_initial_layer"@, temps.supertack_plate@),
        ),
        ProjectBedType::CoolPlate => Some(("cool_plate_temp_initial_layer"@, temps.cool_plate@)),
        ProjectBedType::TexturedCoolPlate => Some(
            ("textured_cool_plate_temp_initial_layer"@, temps.textured_cool_plate@),
        ),
        ProjectBedType::EngineeringPlate => Some(("eng_plate_temp_initial_layer"@, temps.eng_plate@)),
        ProjectBedType::HighTempPlate => Some(("hot_plate_temp_initial_layer"@, temps.hot_plate@)),
        ProjectBedType::TexturedPeiPlate => Some(
            ("textured_plate_temp_initial_layer"@, temps.textured_plate@),
        ),
        ProjectBedType::DefaultPlate => None,
    }
}

/// The text of the first entry with key `key`, if any.
pub open spec fn entry_token_spec(entries: Seq<EntryView>, key: Seq<char>) -> Option<Seq<char>>
    decreases entries.len(),
{
    if entries.len() == 0 {
        None
    } else if entries[0].0 == key {
        Some(entries[0].1)
    } else {
        entry_token_spec(entries.drop_first(), key)
    }
}

/// The text of the first entry with key `key`, if any.
pub fn entry_token<'a>(entries: &'a Vec<ConfigEntry>, key: &str) -> (r: Option<&'a String>)
    ensures
        match r {
            Some(t) => entry_token_spec(entry_views(entries@), key@) == Some(t@),
            None => entry_token_spec(entry_views(entries@), key@) is None,
        },
{
    let ghost ev = entry_views(entries@);
    let mut i: usize = 0;
    assert(ev.skip(0) =~= ev);
    while i < entries.len()
        invariant
            i <= entries@.len(),
            ev == entry_views(entries@),
            entry_token_spec(ev, key@) == entry_token_spec(ev.skip(i as int), key@),
        decreases entries@.len() - i,
    {
        assert(ev.skip(i as int)[0] == ev[i as int]);
        if str_eq(entries[i].key.as_str(), key) {
            return Some(&entries[i].token);
        }
        assert(ev.skip(i as int).drop_first() =~= ev.skip(i + 1));
        i = i + 1;
    }
    None
}

/// The text of the closing lines, once the temperatures are known.
pub open spec fn tail_text_spec(
    bed: i32,
    nozzle: i32,
    bbl_printer: bool,
    area: Seq<char>,
    first_layer_height: Option<Seq<char>>,
) -> Seq<char> {
    let bed_line = line_text(("first_layer_bed_temperature"@, int_text(bed as int), false));
    let nozzle_line = line_text(("first_layer_temperature"@, int_text(nozzle as int), false));
    if bbl_printer {
        bed_line + nozzle_line
    } else {
        let shape_line = line_text(("bed_shape"@, area, false));
        let height_line = match first_layer_height {
            Some(h) => line_text(("first_layer_height"@, h, false)),
            None => Seq::empty(),
        };
        bed_line + shape_line + nozzle_line + height_line
    }
}

/// The lines that close a config block: the first-layer bed temperature of
/// the current plate and the first-layer nozzle temperature; other than for
/// Bambu Lab printers also the bed shape (the printable area's text, empty
/// when there is none) before the nozzle temperature, and the first layer
/// height when the entries hold `initial_layer_print_height` and a height
/// text is given for it.
pub open spec fn runtime_tail_spec(
    bed_type: ProjectBedType,
    temps: PlateFirstLayerTemperatures,
    nozzle: Seq<i32>,
    bbl_printer: bool,
    entries: Seq<EntryView>,
    first_layer_height: Option<Seq<char>>,
) -> Result<Seq<char>, Seq<char>> {
    match plate_first_layer(bed_type, temps) {
        None => Err("curr_bed_type Default Plate has no first-layer temperature"@),
        Some((bed_key, bed_values)) => if bed_values.len() == 0 {
            Err(bed_key + " must not be empty"@)
        } else if nozzle.len() == 0 {
            Err("nozzle_temperature_initial_layer must not be empty"@)
        } else {
            let area = match entry_token_spec(entries, "printable_area"@) {
                Some(t) => t,
                None => Seq::empty(),
            };
            let height = match entry_token_spec(entries, "initial_layer_print_height"@) {
                Some(_) => first_layer_height,
                None => None,
            };
            Ok(tail_text_spec(bed_values[0], nozzle[0], bbl_printer, area, height))
        },
    }
}

/// The option key and the first-layer temperatures of the current plate.
fn select_plate<'a>(bed_type: ProjectBedType, temps: &'a PlateFirstLayerTemperatures) -> (r: Option<
    (&'static str, &'a Vec<i32>),
>)
    ensures
        match plate_first_layer(bed_type, *temps) {
            None => r is None,
            Some((k, v)) => r matches Some((k2, v2)) && k2@ == k && v2@ == v,
        },
{
    match bed_type {
        ProjectBedType::SupertackPlate => Some(
            ("supertack_plate_temp_initial_layer", &temps.supertack_plate),
        ),
        ProjectBedType::CoolPlate => Some(("cool_plate_temp_initial_layer", &temps.cool_plate)),
        ProjectBedType::TexturedCoolPlate => Some(
            ("textured_cool_plate_temp_initial_layer", &temps.textured_cool_plate),
        ),
        ProjectBedType::EngineeringPlate => Some(("eng_plate_temp_initial_layer", &temps.eng_plate)),
        ProjectBedType::HighTempPlate => Some(("hot_plate_temp_initial_layer", &temps.hot_plate)),
        ProjectBedType::TexturedPeiPlate => Some(
            ("textured_plate_temp_initial_layer", &temps.textured_plate),
        ),
        ProjectBedType::DefaultPlate => None,
    }
}

/// The text of the closing lines.
fn tail_text(
    bed: i32,
    nozzle: i32,
    bbl_printer: bool,
    area: &str,
    first_layer_height: Option<&str>,
) -> (r: String)
    ensures
        r@ == tail_text_spec(
            bed,
            nozzle,
            bbl_printer,
            area@,
            match first_layer_height {
                Some(h) => Some(h@),
                None => None,
            },
        ),
{
    let mut text = String::new();
    let bed_text = i64_text(bed as i64);
    let nozzle_text = i64_text(nozzle as i64);
    append_line(&mut text, "first_layer_bed_temperature", bed_text.as_str());
    let ghost bed_line = text@;
    if bbl_printer {
        append_line(&mut text, "first_layer_temperature", nozzle_text.as_str());
        assert(text@ =~= bed_line + line_text(("first_layer_temperature"@, nozzle_text@, false)));
    } else {
        append_line(&mut text, "bed_shape", area);
        let ghost with_shape = text@;
        assert(with_shape =~= bed_line + line_text(("bed_shape"@, area@, false)));
        append_line(&mut text, "first_layer_temperature", nozzle_text.as_str());
        let ghost with_nozzle = text@;
        assert(with_nozzle =~= with_shape + line_text(
            ("first_layer_temperature"@, nozzle_text@, false),
        ));
        match first_layer_height {
            Some(height) => {
                append_line(&mut text, "first_layer_height", height);
                assert(text@ =~= with_nozzle + line_text(("first_layer_height"@, height@, false)));
            },
            None => {
                assert(text@ =~= with_nozzle + Seq::<char>::empty());
            },
        }
    }
    text
}

/// Appends the lines that close a config block; on error `output` is left
/// as it was. `first_layer_height` is the caller's three-decimal text of the
/// `initial_layer_print_height` entry, when that entry reads as a number; it
/// is written only when the entries hold that key.
pub fn write_runtime_tail(
    bed_type: ProjectBedType,
    temps: &PlateFirstLayerTemperatures,
    nozzle_temperature_initial_layer: &Vec<i32>,
    bbl_printer: bool,
    entries: &Vec<ConfigEntry>,
    first_layer_height: Option<&str>,
    output: &mut Vec<u8>,
) -> (r: Result<(), SliceError>)
    ensures
        match runtime_tail_spec(
            bed_type,
            *temps,
            nozzle_temperature_initial_layer@,
            bbl_printer,
            entry_views(entries@),
            match first_layer_height {
                Some(h) => Some(h@),
                None => None,
            },
        ) {
            Err(m) => r matches Err(e) && message_of(e) == m && final(output)@ == old(output)@,
            Ok(t) => r is Ok && final(output)@ == old(output)@ + vstd::utf8::encode_utf8(t),
        },
{
    let (bed_key, bed_values) = match select_plate(bed_type, temps) {
        Some(selected) => selected,
        None => {
            return Err(
                crate::error::invalid_message(
                    "curr_bed_type Default Plate has no first-layer temperature",
                ),
            );
        },
    };
    if bed_values.len() == 0 {
        proof {
            reveal_strlit(" must not be empty");
        }
        return Err(invalid(bed_key, " must not be empty"));
    }
    if nozzle_temperature_initial_layer.len() == 0 {
        return Err(crate::error::invalid_message("nozzle_temperature_initial_layer must not be empty"));
    }
    let height = match entry_token(entries, "initial_layer_print_height") {
        Some(_) => first_layer_height,
        None => None,
    };
    let text = match entry_token(entries, "printable_area") {
        Some(area) => tail_text(
            bed_values[0],
            nozzle_temperature_initial_layer[0],
            bbl_printer,
            area.as_str(),
            height,
        ),
        None => {
            proof {
                reveal_strlit("");
            }
            tail_text(
                bed_values[0],
                nozzle_temperature_initial_layer[0],
                bbl_printer,
                "",
                height,
            )
        },
    };
    append_bytes(output, text.as_str());
    Ok(())
}


/// The slice error that reports a config value error, with its message.
pub fn config_error(error: ConfigValueError) -> (e: SliceError)
    ensures
        message_of(e) == value_error_message(error),
{
    SliceError::InvalidInput(error.0)
}

/// The line that opens a config block.
pub open spec fn block_start() -> Seq<char> {
    "; CONFIG_BLOCK_START\n"@
}

/// The line that closes a config block, and the blank line after it.
pub open spec fn block_end() -> Seq<char> {
    "; CONFIG_BLOCK_END\n\n"@
}

/// `after` is `before` followed by a whole config block: the opening line,
/// the text of `lines` sorted by key (equal keys in their order), the
/// closing lines `tail`, and the closing line.
pub open spec fn appended_config_block(
    before: Seq<u8>,
    after: Seq<u8>,
    lines: Seq<EntryView>,
    tail: Seq<char>,
) -> bool {
    exists|sorted: Seq<EntryView>|
        stable_sort_of(sorted, lines) && after == before + vstd::utf8::encode_utf8(block_start())
            + vstd::utf8::encode_utf8(block_text(sorted)) + vstd::utf8::encode_utf8(tail)
            + vstd::utf8::encode_utf8(block_end())
}

/// Writes a whole config block: the opening line, the canonical entries
/// (see [`write_canonical_entries`]), the closing lines (see
/// [`write_runtime_tail`], for a Bambu Lab printer when the printer model
/// starts with `Bambu Lab`), and the closing line. `entries` is what
/// collecting the option groups gave. The block is appended to `output`
/// only when all of it could be written; on error `output` is left as it
/// was.
#[verifier::rlimit(50)]
#[verifier::spinoff_prover]
pub fn write_config_block(
    entries: Result<Vec<ConfigEntry>, ConfigValueError>,
    wipe_tower_x: &Vec<String>,
    wipe_tower_y: &Vec<String>,
    plate_index: usize,
    filament_colour: &Vec<String>,
    raw_settings: &Vec<(String, Option<String>)>,
    printer_model: &str,
    bed_type: ProjectBedType,
    temps: &PlateFirstLayerTemperatures,
    nozzle_temperature_initial_layer: &Vec<i32>,
    first_layer_height: Option<&str>,
    output: &mut Vec<u8>,
) -> (r: Result<(), SliceError>)
    ensures
        match entries {
            Err(e) => r matches Err(x) && message_of(x) == value_error_message(e) && final(output)@ == old(output)@,
            Ok(v) => match entry_lines(
                entry_views(v@),
                views_of(wipe_tower_x@),
                views_of(wipe_tower_y@),
                plate_index as nat,
                string_vector_text(views_of(filament_colour@)),
                raw_views(raw_settings@),
            ) {
                Err(m) => r matches Err(x) && message_of(x) == m && final(output)@ == old(output)@,
                Ok(l) => match runtime_tail_spec(
                    bed_type,
                    *temps,
                    nozzle_temperature_initial_layer@,
                    starts_with_text(printer_model@, "Bambu Lab"@),
                    entry_views(v@),
                    match first_layer_height {
                        Some(h) => Some(h@),
                        None => None,
                    },
                ) {
                    Err(m) => r matches Err(x) && message_of(x) == m && final(output)@ == old(output)@,
                    Ok(t) => r is Ok && appended_config_block(
                        old(output)@,
                        final(output)@,
                        raw_lines(raw_views(raw_settings@), l),
                        t,
                    ),
                },
            },
        },
{
    let entries = match entries {
        Ok(v) => v,
        Err(e) => return Err(config_error(e)),
    };
    let mut scratch: Vec<u8> = Vec::new();
    append_bytes(&mut scratch, "; CONFIG_BLOCK_START\n");
    let ghost opened = scratch@;
    match write_canonical_entries(
        &entries,
        wipe_tower_x,
        wipe_tower_y,
        plate_index,
        filament_colour,
        raw_settings,
        &mut scratch,
    ) {
        Ok(()) => {},
        Err(e) => return Err(e),
    }
    let ghost with_entries = scratch@;
    let bbl_printer = is_bbl_printer(printer_model);
    match write_runtime_tail(
        bed_type,
        temps,
        nozzle_temperature_initial_layer,
        bbl_printer,
        &entries,
        first_layer_height,
        &mut scratch,
    ) {
        Ok(()) => {},
        Err(e) => return Err(e),
    }
    let ghost with_tail = scratch@;
    append_bytes(&mut scratch, "; CONFIG_BLOCK_END\n\n");
    let ghost lines = raw_lines(
        raw_views(raw_settings@),
        entry_lines(
            entry_views(entries@),
            views_of(wipe_tower_x@),
            views_of(wipe_tower_y@),
            plate_index as nat,
            string_vector_text(views_of(filament_colour@)),
            raw_views(raw_settings@),
        )->Ok_0,
    );
    let ghost tail = runtime_tail_spec(
        bed_type,
        *temps,
        nozzle_temperature_initial_layer@,
        bbl_printer,
        entry_views(entries@),
        match first_layer_height {
            Some(h) => Some(h@),
            None => None,
        },
    )->Ok_0;
    let ghost before = output@;
    let ghost block = scratch@;
    output.append(&mut scratch);
    proof {
        let sorted = choose|sorted: Seq<EntryView>|
            stable_sort_of(sorted, lines) && with_entries == opened + vstd::utf8::encode_utf8(
                block_text(sorted),
            );
        assert(output@ =~= before + vstd::utf8::encode_utf8(block_start())
            + vstd::utf8::encode_utf8(block_text(sorted)) + vstd::utf8::encode_utf8(tail)
            + vstd::utf8::encode_utf8(block_end()));
    }
    Ok(())
}

} // verus!
