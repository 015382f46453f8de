//! The extruder variant list and the printer extruder id / variant pairs
//! derived from it.
use vstd::prelude::*;
use crate::error::{SliceError, invalid_message, message_of};
use crate::json::{Json, JsonNumber, JsonValue, models, lemma_array_model, lemma_models_push};
use crate::slice_options::SliceOptions;
use crate::extruder_index::{split_commas_compressed, split_comma_token_compress};
use crate::filament_override::{string_views, lemma_string_views_push};
use crate::text::owned;

verus! {

/// The variant of an extruder with nothing set.
pub open spec fn default_variant() -> Seq<char> {
    "Direct Drive Standard"@
}

/// The texts of string items, or `None` if one is not a string.
pub open spec fn all_strings_of(items: Seq<Json>) -> Option<Seq<Seq<char>>> {
    if forall|i: int| 0 <= i < items.len() ==> (#[trigger] items[i]) is Str {
        Some(Seq::new(items.len(), |i: int| items[i]->Str_0))
    } else {
        None
    }
}

/// What `extruder_variant_list` gives: the default variant for each
/// extruder when unset, else the strings of the list.
pub open spec fn variant_list_spec(values: Map<Seq<char>, Json>, num_extruders: nat) -> Result<
    Seq<Seq<char>>,
    Seq<char>,
> {
    if !values.contains_key("extruder_variant_list"@) {
        Ok(Seq::new(num_extruders, |i: int| default_variant()))
    } else {
        match values["extruder_variant_list"@] {
            Json::Array(items) => if num_extruders > 0 && items.len() == 0 {
                Err("extruder_variant_list must not be empty"@)
            } else {
                match all_strings_of(items) {
                    Some(s) => Ok(s),
                    None => Err("extruder_variant_list must be a string array"@),
                }
            },
            _ => Err("extruder_variant_list must be a string array"@),
        }
    }
}

/// The strings of an array, or `None` if one is not a string.
pub fn strings_of_items(items: &Vec<JsonValue>) -> (r: Option<Vec<String>>)
    ensures
        match all_strings_of(models(items@)) {
            Some(s) => r matches Some(v) && string_views(v@) == s,
            None => r is None,
        },
{
    let mut out: Vec<String> = Vec::new();
    let mut i: usize = 0;
    while i < items.len()
        invariant
            i <= items@.len(),
            out@.len() == i,
            forall|j: int| 0 <= j < i ==> (#[trigger] models(items@)[j]) is Str,
            forall|j: int| 0 <= j < i ==> (#[trigger] out@[j])@ == models(items@)[j]->Str_0,
        decreases items@.len() - i,
    {
        assert(models(items@)[i as int] == items@[i as int].model());
        match &items[i] {
            JsonValue::String(s) => out.push(owned(s.as_str())),
            _ => return None,
        }
        i = i + 1;
    }
    assert(string_views(out@) =~= Seq::new(
        models(items@).len(),
        |k: int| models(items@)[k]->Str_0,
    ));
    Some(out)
}

impl SliceOptions {
    /// The variant of each extruder: the default variant for each when the
    /// list is unset, else the list's strings.
    pub fn extruder_variant_list(&self, num_extruders: usize) -> (r: Result<Vec<String>, SliceError>)
        ensures
            match variant_list_spec(self@, num_extruders as nat) {
                Ok(s) => r matches Ok(v) && string_views(v@) == s,
                Err(m) => r matches Err(e) && message_of(e) == m,
            },
    {
        let value = match self.values().get("extruder_variant_list") {
            None => {
                let mut out: Vec<String> = Vec::new();
                let mut i: usize = 0;
                while i < num_extruders
                    invariant
                        i <= num_extruders,
                        string_views(out@) =~= Seq::new(i as nat, |k: int| default_variant()),
                    decreases num_extruders - i,
                {
                    let x = owned("Direct Drive Standard");
                    proof {
                        lemma_string_views_push(out@, x);
                    }
                    out.push(x);
                    i = i + 1;
                }
                return Ok(out);
            },
            Some(value) => value,
        };
        match value {
            JsonValue::Array(items) => {
                proof {
                    lemma_array_model(items);
                }
                if num_extruders > 0 && items.len() == 0 {
                    return Err(invalid_message("extruder_variant_list must not be empty"));
                }
                match strings_of_items(items) {
                    Some(v) => Ok(v),
                    None => Err(invalid_message("extruder_variant_list must be a string array")),
                }
            },
            _ => Err(invalid_message("extruder_variant_list must be a string array")),
        }
    }
}

/// The variant tokens of one extruder's variant text: split at commas, a
/// run of commas counting as one separator; an empty text is one empty
/// token.
pub fn split_variant_tokens(variant: &str) -> (r: Vec<String>)
    ensures
        string_views(r@) == split_commas_compressed(variant@),
{
    split_comma_token_compress(variant)
}

/// For each extruder in order, its 1-based number with each of its variant
/// tokens.
pub open spec fn variant_slots(variants: Seq<Seq<char>>) -> Seq<(int, Seq<char>)>
    decreases variants.len(),
{
    if variants.len() == 0 {
        Seq::empty()
    } else {
        let tokens = split_commas_compressed(variants.last());
        variant_slots(variants.drop_last()) + Seq::new(
            tokens.len(),
            |j: int| (variants.len() as int, tokens[j]),
        )
    }
}

/// The extruder numbers of the slots, as JSON integers.
pub open spec fn slot_ids(slots: Seq<(int, Seq<char>)>) -> Seq<Json> {
    Seq::new(slots.len(), |k: int| Json::PosInt(slots[k].0 as u64))
}

/// The variant tokens of the slots, as JSON strings.
pub open spec fn slot_tokens(slots: Seq<(int, Seq<char>)>) -> Seq<Json> {
    Seq::new(slots.len(), |k: int| Json::Str(slots[k].1))
}

/// `variants` brought to `n` entries: cut, or extended with the first
/// variant (the default variant when there is none).
pub open spec fn extended_variants(variants: Seq<Seq<char>>, n: nat) -> Seq<Seq<char>> {
    let fill = if variants.len() > 0 {
        variants[0]
    } else {
        default_variant()
    };
    Seq::new(n, |i: int| if i < variants.len() { variants[i] } else { fill })
}

/// What `extend_extruder_variant` does: the variant list brought to the
/// extruder count, and the printer extruder ids and variants listed slot by
/// slot.
pub open spec fn extend_extruder_variant_spec(values: Map<Seq<char>, Json>, num_extruders: nat) -> Result<
    Map<Seq<char>, Json>,
    Seq<char>,
> {
    match variant_list_spec(values, num_extruders) {
        Err(m) => Err(m),
        Ok(list) => {
            let variants = extended_variants(list, num_extruders);
            let slots = variant_slots(variants);
            Ok(
                values.insert(
                    "extruder_variant_list"@,
                    Json::Array(Seq::new(variants.len(), |i: int| Json::Str(variants[i]))),
                ).insert("printer_extruder_id"@, Json::Array(slot_ids(slots))).insert(
                    "printer_extruder_variant"@,
                    Json::Array(slot_tokens(slots)),
                ),
            )
        },
    }
}

impl SliceOptions {
    /// Brings the variant list to `num_extruders` entries and derives the
    /// printer extruder ids and variants from it; on error nothing changes.
    pub fn extend_extruder_variant(&mut self, num_extruders: usize) -> (r: Result<(), SliceError>)
        ensures
            match extend_extruder_variant_spec(old(self)@, num_extruders as nat) {
                Ok(m) => r is Ok && final(self)@ == m,
                Err(e) => r matches Err(x) && message_of(x) == e && final(self)@ == old(self)@,
            },
    {
        let listed = match self.extruder_variant_list(num_extruders) {
            Ok(v) => v,
            Err(e) => return Err(e),
        };
        let ghost list = string_views(listed@);
        let ghost variants = extended_variants(list, num_extruders as nat);
        let mut padded: Vec<String> = Vec::new();
        let mut i: usize = 0;
        while i < num_extruders
            invariant
                i <= num_extruders,
                list == string_views(listed@),
                variants == extended_variants(list, num_extruders as nat),
                string_views(padded@) =~= variants.take(i as int),
            decreases num_extruders - i,
        {
            let x = if i < listed.len() {
                owned(listed[i].as_str())
            } else if listed.len() > 0 {
                owned(listed[0].as_str())
            } else {
                owned("Direct Drive Standard")
            };
            proof {
                lemma_string_views_push(padded@, x);
                assert(variants.take(i + 1) =~= variants.take(i as int).push(x@));
            }
            padded.push(x);
            i = i + 1;
        }
        assert(variants.take(num_extruders as int) =~= variants);
        let mut ids: Vec<JsonValue> = Vec::new();
        let mut tokens: Vec<JsonValue> = Vec::new();
        let mut list_items: Vec<JsonValue> = Vec::new();
        let mut k: usize = 0;
        assert(variants.take(0) =~= Seq::<Seq<char>>::empty());
        while k < padded.len()
            invariant
                k <= padded@.len(),
                string_views(padded@) == variants,
                padded@.len() == num_extruders,
                models(ids@) =~= slot_ids(variant_slots(variants.take(k as int))),
                models(tokens@) =~= slot_tokens(variant_slots(variants.take(k as int))),
                models(list_items@) =~= Seq::new(k as nat, |i: int| Json::Str(variants[i])),
            decreases padded@.len() - k,
        {
            let parts = split_variant_tokens(padded[k].as_str());
            let ghost before = variant_slots(variants.take(k as int));
            let ghost here = Seq::new(parts@.len(), |j: int| ((k + 1) as int, string_views(parts@)[j]));
            proof {
                assert(variants.take(k + 1).drop_last() =~= variants.take(k as int));
                assert(variants.take(k + 1).last() == padded@[k as int]@);
                assert(variant_slots(variants.take(k + 1)) =~= before + here);
            }
            let mut j: usize = 0;
            let ghost ids_before = models(ids@);
            let ghost tokens_before = models(tokens@);
            while j < parts.len()
                invariant
                    j <= parts@.len(),
                    k < padded@.len(),
                    padded@.len() == num_extruders,
                    here == Seq::new(
                        parts@.len(),
                        |j: int| ((k + 1) as int, string_views(parts@)[j]),
                    ),
                    models(ids@) =~= ids_before + slot_ids(here.take(j as int)),
                    models(tokens@) =~= tokens_before + slot_tokens(here.take(j as int)),
                decreases parts@.len() - j,
            {
                let id = JsonValue::Number(JsonNumber::PosInt((k + 1) as u64));
                let token = JsonValue::String(owned(parts[j].as_str()));
                proof {
                    lemma_models_push(ids@, id);
                    lemma_models_push(tokens@, token);
                    assert(here.take(j + 1) =~= here.take(j as int).push(here[j as int]));
                    assert(slot_ids(here.take(j + 1)) =~= slot_ids(here.take(j as int)).push(
                        id.model(),
                    ));
                    assert(slot_tokens(here.take(j + 1)) =~= slot_tokens(here.take(j as int)).push(
                        token.model(),
                    ));
                }
                ids.push(id);
                tokens.push(token);
                j = j + 1;
            }
            assert(here.take(parts@.len() as int) =~= here);
            let item = JsonValue::String(owned(padded[k].as_str()));
            proof {
                lemma_models_push(list_items@, item);
                assert(padded@[k as int]@ == variants[k as int]);
            }
            list_items.push(item);
            k = k + 1;
        }
        assert(variants.take(padded@.len() as int) =~= variants);
        proof {
            lemma_array_model(&list_items);
            lemma_array_model(&ids);
            lemma_array_model(&tokens);
        }
        self.insert(owned("extruder_variant_list"), JsonValue::Array(list_items));
        self.insert(owned("printer_extruder_id"), JsonValue::Array(ids));
        self.insert(owned("printer_extruder_variant"), JsonValue::Array(tokens));
        Ok(())
    }
}

/// The printer extruder ids and variants come in pairs, one per slot, each
/// id naming an extruder from 1 to the extruder count.
pub proof fn lemma_variant_slots_pair_up(variants: Seq<Seq<char>>)
    ensures
        slot_ids(variant_slots(variants)).len() == slot_tokens(variant_slots(variants)).len(),
        forall|k: int|
            0 <= k < variant_slots(variants).len() ==> 1 <= (#[trigger] variant_slots(variants)[k]).0
                <= variants.len(),
    decreases variants.len(),
{
    if variants.len() > 0 {
        lemma_variant_slots_pair_up(variants.drop_last());
        let before = variant_slots(variants.drop_last());
        assert forall|k: int|
            0 <= k < variant_slots(variants).len() implies 1 <= (#[trigger] variant_slots(
            variants,
        )[k]).0 <= variants.len() by {
            if k < before.len() {
                assert(variant_slots(variants)[k] == before[k]);
            }
        }
    }
}


/// Extending the variants a second time, to the same extruder count,
/// changes nothing.
pub proof fn lemma_extend_extruder_variant_settles(m: Map<Seq<char>, Json>, n: nat)
    requires
        extend_extruder_variant_spec(m, n) is Ok,
    ensures
        extend_extruder_variant_spec(extend_extruder_variant_spec(m, n)->Ok_0, n)
            == extend_extruder_variant_spec(m, n),
{
    let list = variant_list_spec(m, n)->Ok_0;
    let variants = extended_variants(list, n);
    let slots = variant_slots(variants);
    let items = Seq::new(variants.len(), |i: int| Json::Str(variants[i]));
    let m1 = extend_extruder_variant_spec(m, n)->Ok_0;
    reveal_strlit("extruder_variant_list");
    reveal_strlit("printer_extruder_id");
    reveal_strlit("printer_extruder_variant");
    assert("extruder_variant_list"@[0] != "printer_extruder_id"@[0]);
    assert("extruder_variant_list"@[0] != "printer_extruder_variant"@[0]);
    assert("printer_extruder_id"@.len() != "printer_extruder_variant"@.len());
    assert(m1.contains_key("extruder_variant_list"@));
    assert(m1["extruder_variant_list"@] == Json::Array(items));
    assert(all_strings_of(items) == Some(variants)) by {
        assert(Seq::new(items.len(), |i: int| items[i]->Str_0) =~= variants);
    }
    assert(variant_list_spec(m1, n) == Ok::<Seq<Seq<char>>, Seq<char>>(variants));
    assert(extended_variants(variants, n) =~= variants);
    let m2 = extend_extruder_variant_spec(m1, n)->Ok_0;
    assert(m2 =~= m1);
}

} // verus!
