//! The presets that are built in, and the order in which the values of a
//! preset are applied.

use crate::text::same_text;
use crate::textmap::TextMap;
use vstd::prelude::*;

verus! {

/// The values of the built-in preset `preset_id`; none if no preset of
/// that name is built in.
pub open spec fn builtin_values(preset_id: Seq<char>) -> Option<Map<Seq<char>, u32>> {
    if preset_id == "brightest"@ {
        Some(Map::empty().insert("0x10"@, 100u32).insert("0x12"@, 75u32))
    } else if preset_id == "mid"@ {
        Some(Map::empty().insert("0x10"@, 50u32).insert("0x12"@, 50u32))
    } else if preset_id == "midnight"@ {
        Some(Map::empty().insert("0x10"@, 10u32).insert("0x12"@, 40u32))
    } else {
        None
    }
}

/// The setting codes in the order in which a preset is applied.
pub open spec fn apply_order() -> Seq<Seq<char>> {
    seq!["0x10"@, "0x12"@, "0x16"@, "0x18"@, "0x1A"@]
}

/// The calls that apply `values`: the codes of `order` for which `values`
/// holds a value, in the order of `order`, each with its value.
pub open spec fn calls_in_order(order: Seq<Seq<char>>, values: Map<Seq<char>, u32>) -> Seq<
    (Seq<char>, u32),
>
    decreases order.len(),
{
    if order.len() == 0 {
        Seq::empty()
    } else {
        let before = calls_in_order(order.drop_last(), values);
        if values.contains_key(order.last()) {
            before.push((order.last(), values[order.last()]))
        } else {
            before
        }
    }
}

/// The calls that apply the preset `preset_id`: those of its values if it
/// is built in, and none if it is not.
pub open spec fn preset_calls(preset_id: Seq<char>) -> Seq<(Seq<char>, u32)> {
    match builtin_values(preset_id) {
        Some(values) => calls_in_order(apply_order(), values),
        None => Seq::empty(),
    }
}

/// The codes and values of a list of calls, in order.
pub open spec fn call_views(calls: Seq<(String, u32)>) -> Seq<(Seq<char>, u32)> {
    calls.map_values(|c: (String, u32)| (c.0@, c.1))
}

/// A map that holds `brightness` under the code of the brightness and
/// `contrast` under that of the contrast.
fn brightness_and_contrast(brightness: u32, contrast: u32) -> (values: TextMap<u32>)
    ensures
        values@ == Map::<Seq<char>, u32>::empty().insert("0x10"@, brightness).insert(
            "0x12"@,
            contrast,
        ),
{
    let mut values: TextMap<u32> = TextMap::new();
    values.insert("0x10".to_owned(), brightness);
    values.insert("0x12".to_owned(), contrast);
    values
}

/// The values of the built-in preset `preset_id`; none if no preset of
/// that name is built in.
pub fn builtin_preset(preset_id: &str) -> (r: Option<TextMap<u32>>)
    ensures
        match r {
            Some(values) => builtin_values(preset_id@) == Some(values@),
            None => builtin_values(preset_id@) is None,
        },
{
    if same_text(preset_id, "brightest") {
        Some(brightness_and_contrast(100, 75))
    } else if same_text(preset_id, "mid") {
        Some(brightness_and_contrast(50, 50))
    } else if same_text(preset_id, "midnight") {
        Some(brightness_and_contrast(10, 40))
    } else {
        None
    }
}

/// The setting codes in the order in which a preset is applied.
pub fn apply_order_list() -> (order: Vec<String>)
    ensures
        order@.map_values(|s: String| s@) == apply_order(),
{
    let mut order: Vec<String> = Vec::new();
    order.push("0x10".to_owned());
    order.push("0x12".to_owned());
    order.push("0x16".to_owned());
    order.push("0x18".to_owned());
    order.push("0x1A".to_owned());
    assert(order@.map_values(|s: String| s@) =~= apply_order());
    order
}

/// The calls that apply `values`: one for each code of the order of
/// application for which `values` holds a value, in that order. Codes of
/// `values` outside the order are not applied.
pub fn ordered_calls(values: &TextMap<u32>) -> (calls: Vec<(String, u32)>)
    ensures
        call_views(calls@) == calls_in_order(apply_order(), values@),
{
    let order = apply_order_list();
    let ghost codes = order@.map_values(|s: String| s@);
    let mut calls: Vec<(String, u32)> = Vec::new();
    let mut i: usize = 0;
    proof {
        assert(call_views(calls@) =~= calls_in_order(codes.take(0), values@));
    }
    while i < order.len()
        invariant
            i <= order@.len(),
            codes == order@.map_values(|s: String| s@),
            codes == apply_order(),
            call_views(calls@) == calls_in_order(codes.take(i as int), values@),
        decreases order@.len() - i,
    {
        proof {
            assert(codes.take(i + 1).drop_last() =~= codes.take(i as int));
            assert(codes.take(i + 1).last() == order@[i as int]@);
        }
        let ghost before = calls@;
        match values.get(order[i].as_str()) {
            Some(v) => {
                calls.push((order[i].clone(), *v));
                assert(call_views(calls@) =~= call_views(before).push((order@[i as int]@, *v)));
            },
            None => {},
        }
        i += 1;
    }
    proof {
        assert(codes.take(i as int) =~= codes);
    }
    calls
}

} // verus!
