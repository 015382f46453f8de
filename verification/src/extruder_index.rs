//! The index of an extruder's variant in per-variant option vectors.
use vstd::prelude::*;
use crate::error::{SliceError, invalid, invalid_message};
use crate::json::{Json, JsonValue, json_as_array, json_as_i64, models};
use crate::slice_options::{SliceOptions, agrees};
use crate::text::{concat, owned, push_str, str_eq, is_blank};
use crate::filament_override::{opt_model, string_views};

verus! {

/// The variant name and id field that an id-mapped lookup reads.
#[derive(Clone, Copy, Debug)]
pub struct ExtruderIndexIdMapLookup<'a> {
    pub extruder_or_filament_id: i32,
    pub id_name: &'a str,
    pub extruder_type: &'a str,
    pub nozzle_volume_type: &'a str,
    pub variant_name: &'a str,
    pub stride: usize,
}

/// Every item is a string.
pub open spec fn all_strings(items: Seq<Json>) -> bool {
    forall|i: int| 0 <= i < items.len() ==> #[trigger] items[i] is Str
}

/// The texts of string items.
pub open spec fn strings_of(items: Seq<Json>) -> Seq<Seq<char>> {
    Seq::new(items.len(), |i: int| items[i]->Str_0)
}

/// Every item is an integer that fits in `i32`.
pub open spec fn all_i32(items: Seq<Json>) -> bool {
    forall|i: int|
        0 <= i < items.len() ==> ((#[trigger] json_as_i64(items[i])) matches Some(n) && i32::MIN <= n
            <= i32::MAX)
}

/// The integers of integer items.
pub open spec fn ints_of(items: Seq<Json>) -> Seq<i32> {
    Seq::new(items.len(), |i: int| json_as_i64(items[i])->0 as i32)
}

/// What `extruder_variant_string` gives.
pub open spec fn variant_string_spec(extruder_type: Seq<char>, nozzle_volume_type: Seq<char>) -> Result<
    Seq<char>,
    Seq<char>,
> {
    if extruder_type != "Direct Drive"@ && extruder_type != "Bowden"@ {
        Err("extruder_type has unknown enum value"@)
    } else if nozzle_volume_type != "Standard"@ && nozzle_volume_type != "High Flow"@ {
        Err("nozzle_volume_type has unknown enum value"@)
    } else {
        Ok(extruder_type + " "@ + nozzle_volume_type)
    }
}

/// A string result given by its text.
pub open spec fn agrees_text(r: Result<String, SliceError>, s: Result<Seq<char>, Seq<char>>) -> bool {
    match (r, s) {
        (Ok(a), Ok(b)) => a@ == b,
        (Err(e), Err(m)) => crate::error::message_of(e) == m,
        _ => false,
    }
}

/// The variant name of an extruder type and nozzle volume type.
pub fn extruder_variant_string(extruder_type: &str, nozzle_volume_type: &str) -> (r: Result<
    String,
    SliceError,
>)
    ensures
        agrees_text(r, variant_string_spec(extruder_type@, nozzle_volume_type@)),
{
    if !str_eq(extruder_type, "Direct Drive") && !str_eq(extruder_type, "Bowden") {
        return Err(invalid_message("extruder_type has unknown enum value"));
    }
    if !str_eq(nozzle_volume_type, "Standard") && !str_eq(nozzle_volume_type, "High Flow") {
        return Err(invalid_message("nozzle_volume_type has unknown enum value"));
    }
    let mut text = concat(extruder_type, " ");
    push_str(&mut text, nozzle_volume_type);
    Ok(text)
}

/// What `optional_string_vector` gives.
pub open spec fn optional_string_vector_spec(value: Option<Json>, key: Seq<char>) -> Result<
    Option<Seq<Seq<char>>>,
    Seq<char>,
> {
    match value {
        None => Ok(None),
        Some(v) => match json_as_array(v) {
            None => Err(key + " must be a string vector"@),
            Some(items) => if items.len() == 0 {
                Err(key + " must not be empty"@)
            } else if !all_strings(items) {
                Err(key + " must contain strings"@)
            } else {
                Ok(Some(strings_of(items)))
            },
        },
    }
}

/// The texts of string items, or `None` at the first item that is not one.
pub fn collect_strings(items: &Vec<JsonValue>) -> (r: Option<Vec<String>>)
    ensures
        r is Some <==> all_strings(models(items@)),
        r matches Some(v) ==> string_views(v@) == strings_of(models(items@)),
{
    let ghost m = models(items@);
    let mut out: Vec<String> = Vec::new();
    let mut i: usize = 0;
    while i < items.len()
        invariant
            i <= items@.len(),
            m == models(items@),
            out@.len() == i,
            forall|j: int| 0 <= j < i ==> #[trigger] m[j] is Str && out@[j]@ == m[j]->Str_0,
        decreases items@.len() - i,
    {
        match items[i].as_str() {
            Some(text) => {
                out.push(owned(text));
            },
            None => {
                assert(!(m[i as int] is Str));
                return None;
            },
        }
        i = i + 1;
    }
    assert(string_views(out@) =~= strings_of(m));
    Some(out)
}

/// An optional non-empty vector of strings.
pub fn optional_string_vector(value: Option<&JsonValue>, key: &str) -> (r: Result<
    Option<Vec<String>>,
    SliceError,
>)
    ensures
        match optional_string_vector_spec(opt_model(value), key@) {
            Ok(None) => r matches Ok(None),
            Ok(Some(s)) => r matches Ok(Some(v)) && string_views(v@) == s,
            Err(m) => agrees(r, Err(m)),
        },
{
    let value = match value {
        None => {
            return Ok(None);
        },
        Some(v) => v,
    };
    let items = match value.as_array() {
        Some(items) => items,
        None => {
            return Err(invalid(key, " must be a string vector"));
        },
    };
    if items.len() == 0 {
        return Err(invalid(key, " must not be empty"));
    }
    match collect_strings(items) {
        Some(strings) => Ok(Some(strings)),
        None => Err(invalid(key, " must contain strings")),
    }
}

/// The entry at `id`, else the first, of a string vector.
pub open spec fn get_at_or_first<T>(values: Seq<T>, id: int) -> T {
    if id < values.len() {
        values[id]
    } else {
        values[0]
    }
}

/// The string at `id`, or the first one when `id` is past the end.
pub fn string_get_at<'a>(values: &'a Vec<String>, key: &str, id: usize) -> (r: Result<
    &'a str,
    SliceError,
>)
    ensures
        values@.len() == 0 ==> agrees(r, Err(key@ + " must not be empty"@)),
        values@.len() > 0 ==> (r matches Ok(t) && t@ == get_at_or_first(
            string_views(values@),
            id as int,
        )),
{
    if id < values.len() {
        Ok(values[id].as_str())
    } else if values.len() > 0 {
        Ok(values[0].as_str())
    } else {
        Err(invalid(key, " must not be empty"))
    }
}

/// `index * stride` as an `isize`, or an error when it does not fit.
pub fn checked_index(index: usize, stride: usize) -> (r: Result<isize, SliceError>)
    ensures
        index * stride <= isize::MAX ==> r == Ok::<isize, SliceError>((index * stride) as isize),
        index * stride > isize::MAX ==> agrees(r, Err("extruder index overflows isize"@)),
{
    match index.checked_mul(stride) {
        Some(product) => if product <= isize::MAX as usize {
            Ok(product as isize)
        } else {
            Err(invalid_message("extruder index overflows isize"))
        },
        None => Err(invalid_message("extruder index overflows isize")),
    }
}

/// What `int_vector` gives.
pub open spec fn int_vector_spec(value: Option<Json>, key: Seq<char>) -> Result<
    Seq<i32>,
    Seq<char>,
> {
    match value {
        None => Err(key + " must be an integer vector"@),
        Some(v) => match json_as_array(v) {
            None => Err(key + " must be an integer vector"@),
            Some(items) => if items.len() == 0 {
                Err(key + " must not be empty"@)
            } else if !all_i32(items) {
                Err(key + " must contain i32 integers"@)
            } else {
                Ok(ints_of(items))
            },
        },
    }
}

/// The integers of integer items that fit in `i32`, or `None` at the first
/// item that is not one.
pub fn collect_i32s(items: &Vec<JsonValue>) -> (r: Option<Vec<i32>>)
    ensures
        r is Some <==> all_i32(models(items@)),
        r matches Some(v) ==> v@ == ints_of(models(items@)),
{
    let ghost m = models(items@);
    let mut out: Vec<i32> = Vec::new();
    let mut i: usize = 0;
    while i < items.len()
        invariant
            i <= items@.len(),
            m == models(items@),
            out@.len() == i,
            forall|j: int|
                0 <= j < i ==> ((#[trigger] json_as_i64(m[j])) matches Some(n) && i32::MIN <= n
                    <= i32::MAX && out@[j] == n as i32),
        decreases items@.len() - i,
    {
        assert(m[i as int] == items@[i as int].model());
        match items[i].as_i64() {
            Some(n) => {
                if n < -2147483648 || n > 2147483647 {
                    assert(!(json_as_i64(m[i as int]) matches Some(k) && i32::MIN <= k <= i32::MAX));
                    return None;
                }
                out.push(n as i32);
            },
            None => {
                assert(!(json_as_i64(m[i as int]) matches Some(k) && i32::MIN <= k <= i32::MAX));
                return None;
            },
        }
        i = i + 1;
    }
    assert(out@ =~= ints_of(m));
    Some(out)
}

/// A non-empty vector of `i32` integers.
pub fn int_vector(value: Option<&JsonValue>, key: &str) -> (r: Result<Vec<i32>, SliceError>)
    ensures
        match int_vector_spec(opt_model(value), key@) {
            Ok(s) => r matches Ok(v) && v@ == s,
            Err(m) => agrees(r, Err(m)),
        },
{
    let value = match value {
        None => {
            return Err(invalid(key, " must be an integer vector"));
        },
        Some(v) => v,
    };
    let items = match value.as_array() {
        Some(items) => items,
        None => {
            return Err(invalid(key, " must be an integer vector"));
        },
    };
    if items.len() == 0 {
        return Err(invalid(key, " must not be empty"));
    }
    match collect_i32s(items) {
        Some(ints) => Ok(ints),
        None => Err(invalid(key, " must contain i32 integers")),
    }
}

/// An integer vector with at least `min_len` entries.
pub fn complete_int_vector(value: Option<&JsonValue>, key: &str, min_len: usize) -> (r: Result<
    Vec<i32>,
    SliceError,
>)
    ensures
        match int_vector_spec(opt_model(value), key@) {
            Ok(s) => if s.len() < min_len {
                agrees(r, Err(key@ + " must cover every variant"@))
            } else {
                r matches Ok(v) && v@ == s
            },
            Err(m) => agrees(r, Err(m)),
        },
{
    let values = int_vector(value, key)?;
    if values.len() < min_len {
        return Err(invalid(key, " must cover every variant"));
    }
    Ok(values)
}

/// The integer at `id`, or the first one when `id` is past the end.
pub fn int_get_at(values: &Vec<i32>, key: &str, id: usize) -> (r: Result<i32, SliceError>)
    ensures
        values@.len() == 0 ==> agrees(r, Err(key@ + " must not be empty"@)),
        values@.len() > 0 ==> r == Ok::<i32, SliceError>(get_at_or_first(values@, id as int)),
{
    if id < values.len() {
        Ok(values[id])
    } else if values.len() > 0 {
        Ok(values[0])
    } else {
        Err(invalid(key, " must not be empty"))
    }
}

/// An integer vector with fewer entries than the variant list.
pub fn incomplete_int_vector(value: Option<&JsonValue>, key: &str, variant_len: usize) -> (r: Result<
    Vec<i32>,
    SliceError,
>)
    ensures
        match int_vector_spec(opt_model(value), key@) {
            Ok(s) => if s.len() >= variant_len {
                agrees(r, Err(key@ + " must be shorter than variant list"@))
            } else {
                r matches Ok(v) && v@ == s
            },
            Err(m) => agrees(r, Err(m)),
        },
{
    let values = int_vector(value, key)?;
    if values.len() >= variant_len {
        return Err(invalid(key, " must be shorter than variant list"));
    }
    Ok(values)
}

/// Splitting at commas, a run of commas counting as one separator.
pub open spec fn split_commas_compressed(s: Seq<char>) -> Seq<Seq<char>>
    decreases s.len(),
{
    if s.len() == 0 {
        seq![Seq::empty()]
    } else {
        let rest = split_commas_compressed(s.drop_last());
        if s.last() == ',' {
            if s.len() >= 2 && s[s.len() - 2] == ',' {
                rest
            } else {
                rest.push(Seq::empty())
            }
        } else {
            rest.update(rest.len() - 1, rest.last().push(s.last()))
        }
    }
}

pub proof fn lemma_split_commas_nonempty(s: Seq<char>)
    ensures
        split_commas_compressed(s).len() >= 1,
    decreases s.len(),
{
    if s.len() > 0 {
        lemma_split_commas_nonempty(s.drop_last());
    }
}

/// The comma-separated tokens of `variant`, a run of commas counting as one
/// separator, each as characters.
pub fn split_comma_chars(variant: &str) -> (r: Vec<Vec<char>>)
    ensures
        r@.len() == split_commas_compressed(variant@).len(),
        forall|i: int| 0 <= i < r@.len() ==> #[trigger] r@[i]@ == split_commas_compressed(variant@)[i],
{
    let v = crate::text::chars_of(variant);
    let mut pieces: Vec<Vec<char>> = Vec::new();
    let mut current: Vec<char> = Vec::new();
    let mut i: usize = 0;
    while i < v.len()
        invariant
            i <= v@.len(),
            pieces@.len() + 1 == split_commas_compressed(v@.take(i as int)).len(),
            forall|j: int|
                0 <= j < pieces@.len() ==> #[trigger] pieces@[j]@ == split_commas_compressed(
                    v@.take(i as int),
                )[j],
            current@ == split_commas_compressed(v@.take(i as int)).last(),
        decreases v@.len() - i,
    {
        let c = v[i];
        proof {
            lemma_split_commas_nonempty(v@.take(i as int));
            assert(v@.take(i + 1).drop_last() =~= v@.take(i as int));
        }
        if c == ',' {
            if i >= 1 && v[i - 1] == ',' {
            } else {
                pieces.push(current);
                current = Vec::new();
            }
        } else {
            current.push(c);
        }
        i = i + 1;
    }
    assert(v@.take(v@.len() as int) =~= v@);
    pieces.push(current);
    pieces
}

/// The comma-separated tokens of `variant`, a run of commas counting as one
/// separator.
pub fn split_comma_token_compress(variant: &str) -> (r: Vec<String>)
    ensures
        string_views(r@) == split_commas_compressed(variant@),
{
    let pieces = split_comma_chars(variant);
    let mut out: Vec<String> = Vec::new();
    let mut i: usize = 0;
    while i < pieces.len()
        invariant
            i <= pieces@.len(),
            pieces@.len() == split_commas_compressed(variant@).len(),
            forall|j: int|
                0 <= j < pieces@.len() ==> #[trigger] pieces@[j]@ == split_commas_compressed(
                    variant@,
                )[j],
            out@.len() == i,
            forall|j: int| 0 <= j < i ==> #[trigger] out@[j]@ == pieces@[j]@,
        decreases pieces@.len() - i,
    {
        out.push(crate::text::string_of(&pieces[i]));
        i = i + 1;
    }
    assert(string_views(out@) =~= split_commas_compressed(variant@));
    out
}

/// The number of tokens that are not blank.
pub open spec fn non_blank_count(tokens: Seq<Seq<char>>) -> nat
    decreases tokens.len(),
{
    if tokens.len() == 0 {
        0
    } else {
        non_blank_count(tokens.drop_last()) + if is_blank(tokens.last()) {
            0nat
        } else {
            1nat
        }
    }
}

/// For each non-blank variant token, in order, the index of the extruder
/// whose variant list holds it.
pub open spec fn variant_owners(variants: Seq<Seq<char>>) -> Seq<int>
    decreases variants.len(),
{
    if variants.len() == 0 {
        Seq::empty()
    } else {
        variant_owners(variants.drop_last()) + Seq::new(
            non_blank_count(split_commas_compressed(variants.last())),
            |i: int| variants.len() - 1,
        )
    }
}

/// What `generated_extruder_id` gives: the one-based extruder that owns the
/// `target`-th non-blank variant token, or zero.
pub open spec fn generated_id_spec(variants: Option<Seq<Seq<char>>>, target: int) -> int {
    match variants {
        None => 0,
        Some(v) => if target < variant_owners(v).len() {
            variant_owners(v)[target] + 1
        } else {
            0
        },
    }
}

proof fn lemma_owners_prefix(variants: Seq<Seq<char>>, e: int)
    requires
        0 <= e <= variants.len(),
    ensures
        variant_owners(variants.take(e)).len() <= variant_owners(variants).len(),
        forall|j: int|
            0 <= j < variant_owners(variants.take(e)).len() ==> #[trigger] variant_owners(
                variants,
            )[j] == variant_owners(variants.take(e))[j],
    decreases variants.len() - e,
{
    if e < variants.len() {
        lemma_owners_prefix(variants, e + 1);
        assert(variants.take(e + 1).drop_last() =~= variants.take(e));
    } else {
        assert(variants.take(e) =~= variants);
    }
}

/// Whether a character sequence is blank, computed.
fn chars_blank(t: &Vec<char>) -> (r: bool)
    ensures
        r == is_blank(t@),
{
    crate::text::trim_chars(t).len() == 0
}

/// The one-based extruder whose variant list holds the `target_index`-th
/// non-blank variant token, or zero when there is none.
pub fn generated_extruder_id(variants: Option<&Vec<String>>, target_index: usize) -> (r: i32)
    requires
        variants matches Some(v) ==> v@.len() < i32::MAX,
    ensures
        r == generated_id_spec(
            match variants {
                Some(v) => Some(string_views(v@)),
                None => None,
            },
            target_index as int,
        ),
{
    let list = match variants {
        None => {
            return 0;
        },
        Some(v) => v,
    };
    let ghost vs = string_views(list@);
    let mut variant_index: usize = 0;
    let mut e: usize = 0;
    while e < list.len()
        invariant
            e <= list@.len(),
            variants == Some(list),
            list@.len() < i32::MAX,
            vs == string_views(list@),
            variant_index == variant_owners(vs.take(e as int)).len(),
            variant_index <= target_index,
        decreases list@.len() - e,
    {
        let tokens = split_comma_chars(list[e].as_str());
        let ghost toks = split_commas_compressed(vs[e as int]);
        proof {
            assert(vs.take(e + 1).drop_last() =~= vs.take(e as int));
            assert(vs.take(e + 1).last() == vs[e as int]);
        }
        let mut k: usize = 0;
        while k < tokens.len()
            invariant
                k <= tokens@.len(),
                e < list@.len(),
                variants == Some(list),
                list@.len() < i32::MAX,
                vs == string_views(list@),
                toks == split_commas_compressed(vs[e as int]),
                tokens@.len() == toks.len(),
                forall|j: int| 0 <= j < tokens@.len() ==> #[trigger] tokens@[j]@ == toks[j],
                variant_index == variant_owners(vs.take(e as int)).len() + non_blank_count(
                    toks.take(k as int),
                ),
                variant_index <= target_index,
            decreases tokens@.len() - k,
        {
            proof {
                assert(toks.take(k + 1).drop_last() =~= toks.take(k as int));
                assert(toks.take(k + 1).last() == toks[k as int]);
            }
            if !chars_blank(&tokens[k]) {
                if variant_index == target_index {
                    proof {
                        lemma_non_blank_count_le(toks, k as int + 1);
                        assert(toks.take(toks.len() as int) =~= toks);
                        lemma_owners_prefix(vs, e + 1);
                        let owners_next = variant_owners(vs.take(e + 1));
                        assert(tokens@[k as int]@ == toks[k as int]);
                        assert(!is_blank(toks[k as int]));
                        assert(non_blank_count(toks.take(k + 1)) == non_blank_count(
                            toks.take(k as int),
                        ) + 1);
                        let prefix = variant_owners(vs.take(e as int));
                        let block = Seq::new(non_blank_count(toks), |i: int| e as int);
                        assert(vs.take(e + 1).len() == e + 1);
                        assert(vs.take(e + 1).drop_last() =~= vs.take(e as int));
                        assert(vs.take(e + 1).last() == vs[e as int]);
                        assert(owners_next =~= prefix + block);
                        assert(target_index - prefix.len() < block.len());
                        assert(owners_next[target_index as int] == block[target_index - prefix.len()]);
                        assert(owners_next[target_index as int] == e);
                        assert(target_index < owners_next.len());
                        assert(variant_owners(vs)[target_index as int] == owners_next[target_index as int]);
                    }
                    return (e as i32) + 1;
                }
                variant_index = variant_index + 1;
            }
            k = k + 1;
        }
        proof {
            assert(toks.take(tokens@.len() as int) =~= toks);
        }
        e = e + 1;
    }
    proof {
        assert(vs.take(list@.len() as int) =~= vs);
    }
    0
}

proof fn lemma_non_blank_count_le(tokens: Seq<Seq<char>>, k: int)
    requires
        0 <= k <= tokens.len(),
    ensures
        non_blank_count(tokens.take(k)) <= non_blank_count(tokens),
    decreases tokens.len() - k,
{
    if k < tokens.len() {
        lemma_non_blank_count_le(tokens, k + 1);
        assert(tokens.take(k + 1).drop_last() =~= tokens.take(k));
    } else {
        assert(tokens.take(k) =~= tokens);
    }
}

/// The value under `key`, if present.
pub open spec fn opt_get(values: Map<Seq<char>, Json>, key: Seq<char>) -> Option<Json> {
    if values.contains_key(key) {
        Some(values[key])
    } else {
        None
    }
}

/// The least index below `n` that satisfies `p`.
pub open spec fn first_where(n: int, p: spec_fn(int) -> bool) -> Option<int>
    decreases n,
{
    if n <= 0 {
        None
    } else {
        match first_where(n - 1, p) {
            Some(i) => Some(i),
            None => if p(n - 1) {
                Some(n - 1)
            } else {
                None
            },
        }
    }
}

/// The variants with the target name.
pub open spec fn name_matches(vs: Seq<Seq<char>>, target: Seq<char>) -> spec_fn(int) -> bool {
    |i: int| vs[i] == target
}

/// The variants with the target name and id.
pub open spec fn name_id_matches(vs: Seq<Seq<char>>, target: Seq<char>, ids: Seq<i32>, id: i32) -> spec_fn(
    int,
) -> bool {
    |i: int| vs[i] == target && ids[i] == id
}

/// The variants with the target name whose generated extruder id is `id`.
pub open spec fn name_generated_matches(
    vs: Seq<Seq<char>>,
    target: Seq<char>,
    list: Option<Seq<Seq<char>>>,
    id: i32,
) -> spec_fn(int) -> bool {
    |i: int| vs[i] == target && generated_id_spec(list, i) == id
}

/// The index that a lookup returns for the first matching variant: `-1`
/// when none matches, else the variant position times the stride.
pub open spec fn found_index(first: Option<int>, stride: int) -> Result<isize, Seq<char>> {
    match first {
        None => Ok(-1isize),
        Some(i) => if i * stride <= isize::MAX {
            Ok((i * stride) as isize)
        } else {
            Err("extruder index overflows isize"@)
        },
    }
}

/// What `get_index_for_extruder_no_id` gives.
pub open spec fn index_no_id_spec(
    values: Map<Seq<char>, Json>,
    extruder_type: Seq<char>,
    nozzle_volume_type: Seq<char>,
    variant_name: Seq<char>,
    stride: int,
) -> Result<isize, Seq<char>> {
    match optional_string_vector_spec(opt_get(values, variant_name), variant_name) {
        Err(m) => Err(m),
        Ok(None) => Ok(-1isize),
        Ok(Some(vs)) => match variant_string_spec(extruder_type, nozzle_volume_type) {
            Err(m) => Err(m),
            Ok(target) => found_index(first_where(vs.len() as int, name_matches(vs, target)), stride),
        },
    }
}

/// What `get_index_for_extruder_complete_id_map` gives.
pub open spec fn index_complete_spec(
    values: Map<Seq<char>, Json>,
    id: i32,
    id_name: Seq<char>,
    extruder_type: Seq<char>,
    nozzle_volume_type: Seq<char>,
    variant_name: Seq<char>,
    stride: int,
) -> Result<isize, Seq<char>> {
    match optional_string_vector_spec(opt_get(values, variant_name), variant_name) {
        Err(m) => Err(m),
        Ok(None) => Ok(-1isize),
        Ok(Some(vs)) => match int_vector_spec(opt_get(values, id_name), id_name) {
            Err(m) => Err(m),
            Ok(ids) => if ids.len() < vs.len() {
                Err(id_name + " must cover every variant"@)
            } else {
                match variant_string_spec(extruder_type, nozzle_volume_type) {
                    Err(m) => Err(m),
                    Ok(target) => found_index(
                        first_where(vs.len() as int, name_id_matches(vs, target, ids, id)),
                        stride,
                    ),
                }
            },
        },
    }
}

/// What `get_index_for_extruder_generated_id_map` gives.
pub open spec fn index_generated_spec(
    values: Map<Seq<char>, Json>,
    id: i32,
    id_name: Seq<char>,
    extruder_type: Seq<char>,
    nozzle_volume_type: Seq<char>,
    variant_name: Seq<char>,
    stride: int,
) -> Result<isize, Seq<char>> {
    match optional_string_vector_spec(opt_get(values, variant_name), variant_name) {
        Err(m) => Err(m),
        Ok(None) => Ok(-1isize),
        Ok(Some(vs)) => match int_vector_spec(opt_get(values, id_name), id_name) {
            Err(m) => Err(m),
            Ok(ids) => if ids.len() >= vs.len() {
                Err(id_name + " must be shorter than variant list"@)
            } else {
                match optional_string_vector_spec(
                    opt_get(values, "extruder_variant_list"@),
                    "extruder_variant_list"@,
                ) {
                    Err(m) => Err(m),
                    Ok(list) => match variant_string_spec(extruder_type, nozzle_volume_type) {
                        Err(m) => Err(m),
                        Ok(target) => found_index(
                            first_where(vs.len() as int, name_generated_matches(vs, target, list, id)),
                            stride,
                        ),
                    },
                }
            },
        },
    }
}

proof fn lemma_first_where_step(n: int, p: spec_fn(int) -> bool)
    requires
        n >= 0,
        first_where(n, p) is None,
    ensures
        first_where(n + 1, p) == (if p(n) {
            Some(n)
        } else {
            None::<int>
        }),
{
}

proof fn lemma_first_where_mono(k: int, n: int, p: spec_fn(int) -> bool)
    requires
        0 <= k <= n,
        first_where(k, p) is Some,
    ensures
        first_where(n, p) == first_where(k, p),
    decreases n - k,
{
    if k < n {
        lemma_first_where_mono(k, n - 1, p);
    }
}

/// `first_where` finds the least index that satisfies `p`, and nothing
/// only when no index below `n` does.
proof fn lemma_first_where_least(n: int, p: spec_fn(int) -> bool)
    ensures
        first_where(n, p) matches Some(i) ==> 0 <= i < n && p(i) && forall|j: int|
            0 <= j < i ==> !#[trigger] p(j),
        first_where(n, p) is None ==> forall|j: int| 0 <= j < n ==> !#[trigger] p(j),
    decreases n,
{
    if n > 0 {
        lemma_first_where_least(n - 1, p);
    }
}

/// A lookup in a complete id map that finds a variant gives the position,
/// times the stride, of the first variant whose name is the extruder type
/// and the nozzle volume type joined by a space and whose id is the one
/// asked for; one that gives `-1` found no such variant.
pub proof fn lemma_complete_id_map_finds_first_match(
    values: Map<Seq<char>, Json>,
    id: i32,
    id_name: Seq<char>,
    extruder_type: Seq<char>,
    nozzle_volume_type: Seq<char>,
    variant_name: Seq<char>,
    stride: int,
    vs: Seq<Seq<char>>,
    ids: Seq<i32>,
)
    requires
        stride >= 0,
        optional_string_vector_spec(opt_get(values, variant_name), variant_name) == Ok::<
            Option<Seq<Seq<char>>>,
            Seq<char>,
        >(Some(vs)),
        int_vector_spec(opt_get(values, id_name), id_name) == Ok::<Seq<i32>, Seq<char>>(ids),
    ensures
        index_complete_spec(
            values,
            id,
            id_name,
            extruder_type,
            nozzle_volume_type,
            variant_name,
            stride,
        ) matches Ok(r) ==> (r >= 0 ==> exists|i: int|
            0 <= i < vs.len() && r == i * stride && #[trigger] vs[i] == extruder_type + " "@
                + nozzle_volume_type && ids[i] == id && forall|j: int|
                0 <= j < i ==> !(#[trigger] vs[j] == extruder_type + " "@ + nozzle_volume_type
                    && ids[j] == id)),
        index_complete_spec(
            values,
            id,
            id_name,
            extruder_type,
            nozzle_volume_type,
            variant_name,
            stride,
        ) == Ok::<isize, Seq<char>>(-1isize) ==> forall|j: int|
            0 <= j < vs.len() ==> !(#[trigger] vs[j] == extruder_type + " "@ + nozzle_volume_type
                && ids[j] == id),
{
    let target = extruder_type + " "@ + nozzle_volume_type;
    let p = name_id_matches(vs, target, ids, id);
    lemma_first_where_least(vs.len() as int, p);
    if ids.len() >= vs.len() && variant_string_spec(extruder_type, nozzle_volume_type) is Ok {
        assert(variant_string_spec(extruder_type, nozzle_volume_type) == Ok::<
            Seq<char>,
            Seq<char>,
        >(target));
        match first_where(vs.len() as int, p) {
            Some(i) => {
                assert(p(i));
                assert forall|j: int| 0 <= j < i implies !(#[trigger] vs[j] == target && ids[j]
                    == id) by {
                    assert(!p(j));
                }
                assert(0 <= i * stride) by (nonlinear_arith)
                    requires
                        0 <= i,
                        0 <= stride,
                ;
            },
            None => {
                assert forall|j: int| 0 <= j < vs.len() implies !(#[trigger] vs[j] == target
                    && ids[j] == id) by {
                    assert(!p(j));
                }
            },
        }
    }
}

impl SliceOptions {
    /// The position, times `stride`, of the first variant named by the
    /// extruder type and nozzle volume type in the `variant_name` list; `-1`
    /// when the list is absent or holds no such variant.
    pub fn get_index_for_extruder_no_id(
        &self,
        extruder_type: &str,
        nozzle_volume_type: &str,
        variant_name: &str,
        stride: usize,
    ) -> (r: Result<isize, SliceError>)
        ensures
            agrees(
                r,
                index_no_id_spec(
                    self@,
                    extruder_type@,
                    nozzle_volume_type@,
                    variant_name@,
                    stride as int,
                ),
            ),
    {
        let values = self.values();
        let variants = match optional_string_vector(values.get(variant_name), variant_name)? {
            None => {
                return Ok(-1);
            },
            Some(v) => v,
        };
        let target = extruder_variant_string(extruder_type, nozzle_volume_type)?;
        let ghost vs = string_views(variants@);
        let ghost p = name_matches(vs, target@);
        let mut index: usize = 0;
        while index < variants.len()
            invariant
                index <= variants@.len(),
                vs == string_views(variants@),
                p == name_matches(vs, target@),
                first_where(index as int, p) is None,
                optional_string_vector_spec(opt_get(self@, variant_name@), variant_name@) == Ok::<
                    Option<Seq<Seq<char>>>,
                    Seq<char>,
                >(Some(vs)),
                variant_string_spec(extruder_type@, nozzle_volume_type@) == Ok::<
                    Seq<char>,
                    Seq<char>,
                >(target@),
            decreases variants@.len() - index,
        {
            proof {
                lemma_first_where_step(index as int, p);
            }
            let name = string_get_at(&variants, variant_name, index)?;
            if str_eq(name, target.as_str()) {
                proof {
                    lemma_first_where_mono(index + 1, vs.len() as int, p);
                }
                return checked_index(index, stride);
            }
            index = index + 1;
        }
        Ok(-1)
    }

    /// Like [`SliceOptions::get_index_for_extruder_no_id`], the variant also
    /// having the given id in the `id_name` list, which must cover every
    /// variant.
    pub fn get_index_for_extruder_complete_id_map(&self, lookup: ExtruderIndexIdMapLookup<'_>) -> (r:
        Result<isize, SliceError>)
        ensures
            agrees(
                r,
                index_complete_spec(
                    self@,
                    lookup.extruder_or_filament_id,
                    lookup.id_name@,
                    lookup.extruder_type@,
                    lookup.nozzle_volume_type@,
                    lookup.variant_name@,
                    lookup.stride as int,
                ),
            ),
    {
        let values = self.values();
        let variants = match optional_string_vector(
            values.get(lookup.variant_name),
            lookup.variant_name,
        )? {
            None => {
                return Ok(-1);
            },
            Some(v) => v,
        };
        let ids = complete_int_vector(values.get(lookup.id_name), lookup.id_name, variants.len())?;
        let target = extruder_variant_string(lookup.extruder_type, lookup.nozzle_volume_type)?;
        let ghost vs = string_views(variants@);
        let ghost p = name_id_matches(vs, target@, ids@, lookup.extruder_or_filament_id);
        let mut index: usize = 0;
        while index < variants.len()
            invariant
                index <= variants@.len(),
                ids@.len() >= variants@.len(),
                vs == string_views(variants@),
                p == name_id_matches(vs, target@, ids@, lookup.extruder_or_filament_id),
                first_where(index as int, p) is None,
                optional_string_vector_spec(opt_get(self@, lookup.variant_name@), lookup.variant_name@)
                    == Ok::<Option<Seq<Seq<char>>>, Seq<char>>(Some(vs)),
                int_vector_spec(opt_get(self@, lookup.id_name@), lookup.id_name@) == Ok::<
                    Seq<i32>,
                    Seq<char>,
                >(ids@),
                variant_string_spec(lookup.extruder_type@, lookup.nozzle_volume_type@) == Ok::<
                    Seq<char>,
                    Seq<char>,
                >(target@),
            decreases variants@.len() - index,
        {
            proof {
                lemma_first_where_step(index as int, p);
            }
            let name = string_get_at(&variants, lookup.variant_name, index)?;
            let id = int_get_at(&ids, lookup.id_name, index)?;
            if str_eq(name, target.as_str()) && id == lookup.extruder_or_filament_id {
                proof {
                    lemma_first_where_mono(index + 1, vs.len() as int, p);
                }
                return checked_index(index, lookup.stride);
            }
            index = index + 1;
        }
        Ok(-1)
    }

    /// Like [`SliceOptions::get_index_for_extruder_no_id`], the variant also
    /// belonging to the extruder with the given id, the owning extruder of
    /// each variant being generated from `extruder_variant_list`; the
    /// `id_name` list must be shorter than the variant list.
    pub fn get_index_for_extruder_generated_id_map(&self, lookup: ExtruderIndexIdMapLookup<'_>) -> (r:
        Result<isize, SliceError>)
        requires
            match opt_get(self@, "extruder_variant_list"@) {
                Some(j) => json_as_array(j) matches Some(items) ==> items.len() < i32::MAX,
                None => true,
            },
        ensures
            agrees(
                r,
                index_generated_spec(
                    self@,
                    lookup.extruder_or_filament_id,
                    lookup.id_name@,
                    lookup.extruder_type@,
                    lookup.nozzle_volume_type@,
                    lookup.variant_name@,
                    lookup.stride as int,
                ),
            ),
    {
        let values = self.values();
        let variants = match optional_string_vector(
            values.get(lookup.variant_name),
            lookup.variant_name,
        )? {
            None => {
                return Ok(-1);
            },
            Some(v) => v,
        };
        let _ = incomplete_int_vector(values.get(lookup.id_name), lookup.id_name, variants.len())?;
        let extruder_variant_list = optional_string_vector(
            values.get("extruder_variant_list"),
            "extruder_variant_list",
        )?;
        let target = extruder_variant_string(lookup.extruder_type, lookup.nozzle_volume_type)?;
        let ghost vs = string_views(variants@);
        let ghost list = match &extruder_variant_list {
            Some(l) => Some(string_views(l@)),
            None => None,
        };
        let ghost p = name_generated_matches(vs, target@, list, lookup.extruder_or_filament_id);
        proof {
            if let Some(l) = &extruder_variant_list {
                assert(string_views(l@).len() == l@.len());
            }
        }
        let mut index: usize = 0;
        while index < variants.len()
            invariant
                index <= variants@.len(),
                vs == string_views(variants@),
                list == match &extruder_variant_list {
                    Some(l) => Some(string_views(l@)),
                    None => None,
                },
                extruder_variant_list matches Some(l) ==> l@.len() < i32::MAX,
                p == name_generated_matches(vs, target@, list, lookup.extruder_or_filament_id),
                first_where(index as int, p) is None,
                optional_string_vector_spec(opt_get(self@, lookup.variant_name@), lookup.variant_name@)
                    == Ok::<Option<Seq<Seq<char>>>, Seq<char>>(Some(vs)),
                int_vector_spec(opt_get(self@, lookup.id_name@), lookup.id_name@) is Ok,
                int_vector_spec(opt_get(self@, lookup.id_name@), lookup.id_name@)->Ok_0.len()
                    < vs.len(),
                optional_string_vector_spec(
                    opt_get(self@, "extruder_variant_list"@),
                    "extruder_variant_list"@,
                ) == Ok::<Option<Seq<Seq<char>>>, Seq<char>>(list),
                variant_string_spec(lookup.extruder_type@, lookup.nozzle_volume_type@) == Ok::<
                    Seq<char>,
                    Seq<char>,
                >(target@),
            decreases variants@.len() - index,
        {
            proof {
                lemma_first_where_step(index as int, p);
            }
            let name = string_get_at(&variants, lookup.variant_name, index)?;
            if str_eq(name, target.as_str()) && generated_extruder_id(
                extruder_variant_list.as_ref(),
                index,
            ) == lookup.extruder_or_filament_id {
                proof {
                    lemma_first_where_mono(index + 1, vs.len() as int, p);
                }
                return checked_index(index, lookup.stride);
            }
            index = index + 1;
        }
        Ok(-1)
    }
}

} // verus!
