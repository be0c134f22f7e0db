//! What a status update of the printer comes to.

use crate::app_state::{AppStateView, PrintState, Temperature};
use crate::json;
use crate::json::Doc;
use crate::moonraker::state_bridge::{applied, Reading};
use crate::text;
use vstd::prelude::*;

verus! {

/// What an update has under an attribute of an object.
pub open spec fn under(e: Seq<(Seq<char>, Doc)>, object: Seq<char>, key: Seq<char>) -> Option<Doc> {
    match json::lookup(e, object) {
        Some(Doc::Object(a)) => json::lookup(a, key),
        _ => None,
    }
}

/// The place of the first reading of a number in a table.
pub open spec fn is_reading(t: Seq<Reading>, i: int, bits: u64) -> bool {
    &&& 0 <= i < t.len()
    &&& t[i].bits == bits
    &&& forall|j: int| 0 <= j < i ==> (#[trigger] t[j]).bits != bits
}

/// The update has a number under the attribute, and the table's reading of it is the one at `i`.
pub open spec fn gives(
    e: Seq<(Seq<char>, Doc)>,
    object: Seq<char>,
    key: Seq<char>,
    t: Seq<Reading>,
    i: int,
) -> bool {
    &&& under(e, object, key) is Some
    &&& json::number_bits(under(e, object, key)->0) is Some
    &&& is_reading(t, i, json::number_bits(under(e, object, key)->0)->0)
}

/// The update has nothing under the attribute that is a number with a reading in the table.
pub open spec fn silent(
    e: Seq<(Seq<char>, Doc)>,
    object: Seq<char>,
    key: Seq<char>,
    t: Seq<Reading>,
) -> bool {
    match under(e, object, key) {
        None => true,
        Some(d) => match json::number_bits(d) {
            None => true,
            Some(b) => forall|i: int| 0 <= i < t.len() ==> (#[trigger] t[i]).bits != b,
        },
    }
}

proof fn lemma_reading(t: Seq<Reading>, i: int, bits: u64)
    requires
        is_reading(t, i, bits),
    ensures
        crate::moonraker::state_bridge::reading_of(t, bits) == Some(t[i]),
    decreases t.len(),
{
    if i > 0 {
        assert(t[0].bits != bits);
        assert forall|j: int| 0 <= j < i - 1 implies (#[trigger] t.drop_first()[j]).bits != bits by {
            assert(t[j + 1].bits != bits);
        }
        lemma_reading(t.drop_first(), i - 1, bits);
    }
}

proof fn lemma_no_reading(t: Seq<Reading>, bits: u64)
    requires
        forall|i: int| 0 <= i < t.len() ==> (#[trigger] t[i]).bits != bits,
    ensures
        crate::moonraker::state_bridge::reading_of(t, bits) is None,
    decreases t.len(),
{
    if t.len() > 0 {
        assert forall|i: int| 0 <= i < t.drop_first().len() implies (
        #[trigger] t.drop_first()[i]).bits != bits by {
            assert(t[i + 1].bits != bits);
        }
        lemma_no_reading(t.drop_first(), bits);
    }
}

proof fn lemma_given(e: Seq<(Seq<char>, Doc)>, object: Seq<char>, key: Seq<char>, t: Seq<Reading>, i: int)
    ensures
        gives(e, object, key, t, i) ==> crate::moonraker::state_bridge::read(
            t,
            crate::moonraker::state_bridge::number_at(e, object, key),
        ) == Some(t[i]),
        silent(e, object, key, t) ==> crate::moonraker::state_bridge::read(
            t,
            crate::moonraker::state_bridge::number_at(e, object, key),
        ) is None,
{
    if gives(e, object, key, t, i) {
        lemma_reading(t, i, json::number_bits(under(e, object, key)->0)->0);
    }
    if silent(e, object, key, t) && under(e, object, key) is Some && json::number_bits(
        under(e, object, key)->0,
    ) is Some {
        lemma_no_reading(t, json::number_bits(under(e, object, key)->0)->0);
    }
}

/// The temperature of the nozzle is what the update has under `temperature` of `extruder`,
/// whatever else it has; an update without it leaves it as it was.
pub proof fn law_nozzle_temperature(s: AppStateView, e: Seq<(Seq<char>, Doc)>, t: Seq<Reading>, i: int)
    ensures
        gives(e, "extruder"@, "temperature"@, t, i) ==> applied(s, e, t).nozzle_actual == t[i].temperature,
        silent(e, "extruder"@, "temperature"@, t) ==> applied(s, e, t).nozzle_actual == s.nozzle_actual,
{
    lemma_given(e, "extruder"@, "temperature"@, t, i);
}

/// The target of the nozzle is what the update has under `target` of `extruder`,
/// whatever else it has; an update without it leaves it as it was.
pub proof fn law_nozzle_target(s: AppStateView, e: Seq<(Seq<char>, Doc)>, t: Seq<Reading>, i: int)
    ensures
        gives(e, "extruder"@, "target"@, t, i) ==> applied(s, e, t).nozzle_target == t[i].temperature,
        silent(e, "extruder"@, "target"@, t) ==> applied(s, e, t).nozzle_target == s.nozzle_target,
{
    lemma_given(e, "extruder"@, "target"@, t, i);
}

/// The temperature of the bed is what the update has under `temperature` of `heater_bed`,
/// whatever else it has; an update without it leaves it as it was.
pub proof fn law_bed_temperature(s: AppStateView, e: Seq<(Seq<char>, Doc)>, t: Seq<Reading>, i: int)
    ensures
        gives(e, "heater_bed"@, "temperature"@, t, i) ==> applied(s, e, t).bed_actual == t[i].temperature,
        silent(e, "heater_bed"@, "temperature"@, t) ==> applied(s, e, t).bed_actual == s.bed_actual,
{
    lemma_given(e, "heater_bed"@, "temperature"@, t, i);
}

/// The target of the bed is what the update has under `target` of `heater_bed`,
/// whatever else it has; an update without it leaves it as it was.
pub proof fn law_bed_target(s: AppStateView, e: Seq<(Seq<char>, Doc)>, t: Seq<Reading>, i: int)
    ensures
        gives(e, "heater_bed"@, "target"@, t, i) ==> applied(s, e, t).bed_target == t[i].temperature,
        silent(e, "heater_bed"@, "target"@, t) ==> applied(s, e, t).bed_target == s.bed_target,
{
    lemma_given(e, "heater_bed"@, "target"@, t, i);
}

/// The speed of the main fan is what the update has under `speed` of `fan`,
/// whatever else it has; an update without it leaves it as it was.
pub proof fn law_main_fan(s: AppStateView, e: Seq<(Seq<char>, Doc)>, t: Seq<Reading>, i: int)
    ensures
        gives(e, "fan"@, "speed"@, t, i) ==> applied(s, e, t).main_fan_pct == t[i].percent,
        silent(e, "fan"@, "speed"@, t) ==> applied(s, e, t).main_fan_pct == s.main_fan_pct,
{
    lemma_given(e, "fan"@, "speed"@, t, i);
}

/// The speed of the board's fan is what the update has under `speed` of `heater_fan`,
/// whatever else it has; an update without it leaves it as it was.
pub proof fn law_board_fan(s: AppStateView, e: Seq<(Seq<char>, Doc)>, t: Seq<Reading>, i: int)
    ensures
        gives(e, "heater_fan"@, "speed"@, t, i) ==> applied(s, e, t).board_fan_pct == t[i].percent,
        silent(e, "heater_fan"@, "speed"@, t) ==> applied(s, e, t).board_fan_pct == s.board_fan_pct,
{
    lemma_given(e, "heater_fan"@, "speed"@, t, i);
}

/// The time that the print has taken is what the update has under `print_duration` of `print_stats`,
/// whatever else it has; an update without it leaves it as it was.
pub proof fn law_elapsed_time(s: AppStateView, e: Seq<(Seq<char>, Doc)>, t: Seq<Reading>, i: int)
    ensures
        gives(e, "print_stats"@, "print_duration"@, t, i) ==> applied(s, e, t).print_elapsed_secs == t[i].seconds,
        silent(e, "print_stats"@, "print_duration"@, t) ==> applied(s, e, t).print_elapsed_secs == s.print_elapsed_secs,
{
    lemma_given(e, "print_stats"@, "print_duration"@, t, i);
}

/// The progress is that of the file where the update has it, else that of the print; an update
/// without either leaves it as it was.
pub proof fn law_progress(s: AppStateView, e: Seq<(Seq<char>, Doc)>, t: Seq<Reading>, i: int)
    ensures
        gives(e, "virtual_sdcard"@, "progress"@, t, i) ==> applied(s, e, t).print_progress
            == t[i].percent,
        silent(e, "virtual_sdcard"@, "progress"@, t) && gives(e, "print_stats"@, "progress"@, t, i)
            ==> applied(s, e, t).print_progress == t[i].percent,
        silent(e, "virtual_sdcard"@, "progress"@, t) && silent(e, "print_stats"@, "progress"@, t)
            ==> applied(s, e, t).print_progress == s.print_progress,
{
    lemma_given(e, "virtual_sdcard"@, "progress"@, t, i);
    lemma_given(e, "print_stats"@, "progress"@, t, i);
}

/// The time that is left and the time that has passed make up the whole time that the update has;
/// where more has passed, none is left.
pub proof fn law_time_left(s: AppStateView, e: Seq<(Seq<char>, Doc)>, t: Seq<Reading>, i: int)
    ensures
        gives(e, "print_stats"@, "total_duration"@, t, i) ==> {
            let after = applied(s, e, t);
            &&& after.print_elapsed_secs <= t[i].seconds ==> after.print_remain_secs
                + after.print_elapsed_secs == t[i].seconds
            &&& after.print_elapsed_secs > t[i].seconds ==> after.print_remain_secs == 0
        },
        silent(e, "print_stats"@, "total_duration"@, t) ==> applied(s, e, t).print_remain_secs
            == s.print_remain_secs,
{
    lemma_given(e, "print_stats"@, "total_duration"@, t, i);
}

/// The state of the print is the number of the printer's word for it, and the file is the one that
/// the printer names; a word that is unknown means that there is no print.
pub proof fn law_print_state(s: AppStateView, e: Seq<(Seq<char>, Doc)>, t: Seq<Reading>, word: Seq<char>)
    ensures
        under(e, "print_stats"@, "state"@) == Some(Doc::Text(word)) ==> {
            let n = applied(s, e, t).print_state;
            &&& word == "printing"@ <==> n == 1
            &&& word == "complete"@ <==> n == 2
            &&& word == "paused"@ <==> n == 3
            &&& word == "error"@ <==> n == 4
            &&& word == "cancelled"@ <==> n == 5
            &&& n <= 5
        },
        !(under(e, "print_stats"@, "state"@) matches Some(Doc::Text(_))) ==> applied(
            s,
            e,
            t,
        ).print_state == s.print_state,
        under(e, "print_stats"@, "filename"@) == Some(Doc::Text(word)) && word.len() > 0
            ==> applied(s, e, t).current_file == word,
        !(under(e, "print_stats"@, "filename"@) matches Some(Doc::Text(_))) ==> applied(
            s,
            e,
            t,
        ).current_file == s.current_file,
        under(e, "print_stats"@, "filename"@) == Some(Doc::Text(Seq::empty())) ==> applied(
            s,
            e,
            t,
        ).current_file == s.current_file,
{
    lemma_words_differ();
}

proof fn lemma_words_differ()
    ensures
        "printing"@ != "complete"@,
        "printing"@ != "paused"@,
        "printing"@ != "error"@,
        "printing"@ != "cancelled"@,
        "complete"@ != "paused"@,
        "complete"@ != "error"@,
        "complete"@ != "cancelled"@,
        "paused"@ != "error"@,
        "paused"@ != "cancelled"@,
        "error"@ != "cancelled"@,
{
    reveal_strlit("printing");
    reveal_strlit("complete");
    reveal_strlit("paused");
    reveal_strlit("error");
    reveal_strlit("cancelled");
    assert("printing"@.len() == 8);
    assert("complete"@.len() == 8);
    assert("paused"@.len() == 6);
    assert("error"@.len() == 5);
    assert("cancelled"@.len() == 9);
    assert("printing"@[0] == 'p');
    assert("complete"@[0] == 'c');
}

/// The height of the origin is the third number of the homing origin, in hundredths.
pub proof fn law_origin_height(
    s: AppStateView,
    e: Seq<(Seq<char>, Doc)>,
    t: Seq<Reading>,
    items: Seq<Doc>,
    bits: u64,
    i: int,
)
    requires
        under(e, "gcode_move"@, "homing_origin"@) == Some(Doc::List(items)),
        items.len() >= 3,
        json::number_bits(items[2]) == Some(bits),
        is_reading(t, i, bits),
    ensures
        applied(s, e, t).zoffset_x100 == t[i].hundredths,
{
    lemma_reading(t, i, bits);
}

/// The bed has been measured exactly where the update's list of profiles has one; an update without
/// a list leaves it open.
pub proof fn law_bed_measured(s: AppStateView, e: Seq<(Seq<char>, Doc)>, t: Seq<Reading>)
    ensures
        match under(e, "bed_mesh"@, "profiles"@) {
            Some(Doc::List(profiles)) => applied(s, e, t).level_ok <==> profiles.len() > 0,
            _ => applied(s, e, t).level_ok == s.level_ok,
        },
{
}

/// A card is reported only by an update that has one, and is there as long as the printer's server
/// is connected.
pub proof fn law_card(s: AppStateView, e: Seq<(Seq<char>, Doc)>, t: Seq<Reading>)
    ensures
        json::lookup(e, "virtual_sdcard"@) matches Some(Doc::Object(_)) ==> applied(s, e, t).sd_ok
            == s.moonraker_connected,
        !(json::lookup(e, "virtual_sdcard"@) matches Some(Doc::Object(_))) ==> applied(s, e, t).sd_ok
            == s.sd_ok,
{
}

/// The only pin of an update that has `light` in its name switches the light and nothing else, and
/// one with `beep` in its name, and not `light`, the beeper and nothing else: each is on where its
/// value is above one half.
pub proof fn law_single_pin(
    s: AppStateView,
    e: Seq<(Seq<char>, Doc)>,
    t: Seq<Reading>,
    name: Seq<char>,
    pin: Seq<(Seq<char>, Doc)>,
    bits: u64,
    i: int,
)
    requires
        json::lookup(e, "output_pin"@) == Some(Doc::Object(seq![(name, Doc::Object(pin))])),
        json::lookup(pin, "value"@) is Some,
        json::number_bits(json::lookup(pin, "value"@)->0) == Some(bits),
        is_reading(t, i, bits),
    ensures
        text::holds(name, "light"@) ==> applied(s, e, t).light == t[i].over_half && applied(
            s,
            e,
            t,
        ).beep == s.beep,
        text::holds(name, "beep"@) && !text::holds(name, "light"@) ==> applied(s, e, t).beep
            == t[i].over_half && applied(s, e, t).light == s.light,
        !text::holds(name, "beep"@) && !text::holds(name, "light"@) ==> applied(s, e, t).beep
            == s.beep && applied(s, e, t).light == s.light,
{
    lemma_reading(t, i, bits);
    let pins = seq![(name, Doc::Object(pin))];
    assert(pins.drop_last() =~= Seq::<(Seq<char>, Doc)>::empty());
    assert(pins.last() == (name, Doc::Object(pin)));
    assert(crate::moonraker::state_bridge::attributes(e, "output_pin"@) == pins);
    reveal_with_fuel(crate::moonraker::state_bridge::light_after, 2);
    reveal_with_fuel(crate::moonraker::state_bridge::beep_after, 2);
}

/// The only filament sensor of an update says whether the filament has run out; lamps that are all
/// off leave the breathing light as it was, and one that does something turns it on.
pub proof fn law_single_sensor_and_lamp(
    s: AppStateView,
    e: Seq<(Seq<char>, Doc)>,
    t: Seq<Reading>,
    name: Seq<char>,
    sensor: Seq<(Seq<char>, Doc)>,
    out: bool,
    lamp: Seq<char>,
    led: Seq<(Seq<char>, Doc)>,
    word: Seq<char>,
)
    ensures
        json::lookup(e, "runout_sensor"@) == Some(Doc::Object(seq![(name, Doc::Object(sensor))]))
            && json::lookup(sensor, "runout"@) == Some(Doc::Bool(out)) ==> applied(s, e, t).runout
            == out,
        json::lookup(e, "led"@) == Some(Doc::Object(seq![(lamp, Doc::Object(led))]))
            && json::lookup(led, "state"@) == Some(Doc::Text(word)) ==> applied(s, e, t).breathing
            == (s.breathing || word != "off"@),
{
    let sensors = seq![(name, Doc::Object(sensor))];
    assert(sensors.last() == (name, Doc::Object(sensor)));
    let lamps = seq![(lamp, Doc::Object(led))];
    assert(lamps[0].1 == Doc::Object(led));
    assert(lamps.len() == 1);
}

/// What no update speaks of stays: the connection, the third fan, preheating, heating, the points of
/// levelling, and the door.
pub proof fn law_update_keeps_the_rest(s: AppStateView, e: Seq<(Seq<char>, Doc)>, t: Seq<Reading>)
    ensures
        applied(s, e, t).moonraker_connected == s.moonraker_connected,
        applied(s, e, t).aux_fan_pct == s.aux_fan_pct,
        applied(s, e, t).preheat_type == s.preheat_type,
        applied(s, e, t).preheat_state == s.preheat_state,
        applied(s, e, t).heat_state == s.heat_state,
        applied(s, e, t).leveling_status == s.leveling_status,
        applied(s, e, t).leveling_point == s.leveling_point,
        applied(s, e, t).leveling_total == s.leveling_total,
        applied(s, e, t).door_open == s.door_open,
{
}

/// The states of a print by number.
pub proof fn law_print_state_numbers()
    ensures
        PrintState::Idle.number() == 0,
        PrintState::Printing.number() == 1,
        PrintState::Complete.number() == 2,
        PrintState::Paused.number() == 3,
        PrintState::Error.number() == 4,
        PrintState::Cancelled.number() == 5,
{
}

/// A temperature is higher than `n` whole degrees.
pub open spec fn hotter(t: Temperature, n: int) -> bool {
    t.whole > n || t.whole == n && t.above
}

/// A printer is busy exactly where it is not idle, has a nozzle or a bed above forty degrees, or a
/// target above one degree.
pub proof fn law_busy(s: AppStateView)
    ensures
        s.busy() <==> s.print_state != 0 || hotter(s.nozzle_actual, 40) || hotter(s.bed_actual, 40)
            || hotter(s.nozzle_target, 1) || hotter(s.bed_target, 1),
{
}

/// Every number that an update is read for is listed to be read first.
pub proof fn law_numbers_are_listed(e: Seq<(Seq<char>, Doc)>, object: Seq<char>, key: Seq<char>, bits: u64)
    requires
        under(e, object, key) is Some,
        json::number_bits(under(e, object, key)->0) == Some(bits),
        (object == "extruder"@ && (key == "temperature"@ || key == "target"@)) || (object
            == "heater_bed"@ && (key == "temperature"@ || key == "target"@)) || (object == "fan"@
            && key == "speed"@) || (object == "heater_fan"@ && key == "speed"@) || (object
            == "print_stats"@ && (key == "progress"@ || key == "print_duration"@ || key
            == "total_duration"@)) || (object == "virtual_sdcard"@ && key == "progress"@),
    ensures
        crate::moonraker::state_bridge::numbers_in(e).contains(bits),
{
    let one = crate::moonraker::state_bridge::listed(
        crate::moonraker::state_bridge::number_at(e, object, key),
    );
    assert(one == seq![bits]);
    let n1 = listed_of(e, "extruder"@, "temperature"@);
    let n2 = n1 + listed_of(e, "extruder"@, "target"@);
    let n3 = n2 + listed_of(e, "heater_bed"@, "temperature"@);
    let n4 = n3 + listed_of(e, "heater_bed"@, "target"@);
    let n5 = n4 + listed_of(e, "fan"@, "speed"@);
    let n6 = n5 + listed_of(e, "heater_fan"@, "speed"@);
    let n7 = n6 + listed_of(e, "print_stats"@, "progress"@);
    let n8 = n7 + listed_of(e, "print_stats"@, "print_duration"@);
    let n9 = n8 + listed_of(e, "print_stats"@, "total_duration"@);
    let n10 = n9 + listed_of(e, "virtual_sdcard"@, "progress"@);
    let n11 = n10 + crate::moonraker::state_bridge::listed(
        crate::moonraker::state_bridge::origin_height(e),
    );
    let all = n11 + crate::moonraker::state_bridge::pin_numbers(
        crate::moonraker::state_bridge::attributes(e, "output_pin"@),
    );
    assert(crate::moonraker::state_bridge::numbers_in(e) =~= all);
    let before = if object == "extruder"@ && key == "temperature"@ {
        Seq::empty()
    } else if object == "extruder"@ && key == "target"@ {
        n1
    } else if object == "heater_bed"@ && key == "temperature"@ {
        n2
    } else if object == "heater_bed"@ && key == "target"@ {
        n3
    } else if object == "fan"@ && key == "speed"@ {
        n4
    } else if object == "heater_fan"@ && key == "speed"@ {
        n5
    } else if object == "print_stats"@ && key == "progress"@ {
        n6
    } else if object == "print_stats"@ && key == "print_duration"@ {
        n7
    } else if object == "print_stats"@ && key == "total_duration"@ {
        n8
    } else {
        n9
    };
    let k = before.len() as int;
    assert((before + one)[k] == bits);
    assert(all[k] == bits);
}

spec fn listed_of(e: Seq<(Seq<char>, Doc)>, object: Seq<char>, key: Seq<char>) -> Seq<u64> {
    crate::moonraker::state_bridge::listed(
        crate::moonraker::state_bridge::number_at(e, object, key),
    )
}

/// Of several pins of the light the last one counts, and of several of the beeper likewise; a pin
/// without a number, or whose number has no reading, is off.
pub proof fn law_last_pin_counts(
    before: Seq<(Seq<char>, Doc)>,
    name: Seq<char>,
    pin: Doc,
    after: Seq<(Seq<char>, Doc)>,
    t: Seq<Reading>,
    was: bool,
)
    requires
        forall|i: int|
            0 <= i < after.len() ==> !text::holds((#[trigger] after[i]).0, "light"@) && !text::holds(
                after[i].0,
                "beep"@,
            ),
    ensures
        ({
            let pins = before + seq![(name, pin)] + after;
            let on = match pin {
                Doc::Object(e) => match json::lookup(e, "value"@) {
                    Some(d) => match json::number_bits(d) {
                        Some(b) => match crate::moonraker::state_bridge::reading_of(t, b) {
                            Some(r) => r.over_half,
                            None => false,
                        },
                        None => false,
                    },
                    None => false,
                },
                _ => false,
            };
            &&& text::holds(name, "light"@) ==> crate::moonraker::state_bridge::light_after(
                pins,
                t,
                was,
            ) == on
            &&& text::holds(name, "beep"@) && !text::holds(name, "light"@)
                ==> crate::moonraker::state_bridge::beep_after(pins, t, was) == on
        }),
    decreases after.len(),
{
    let pins = before + seq![(name, pin)] + after;
    if after.len() == 0 {
        assert(pins.last() == (name, pin));
    } else {
        assert(pins.last() == after.last());
        assert(after[after.len() - 1] == after.last());
        assert(pins.drop_last() =~= before + seq![(name, pin)] + after.drop_last());
        assert forall|i: int| 0 <= i < after.drop_last().len() implies !text::holds(
            (#[trigger] after.drop_last()[i]).0,
            "light"@,
        ) && !text::holds(after.drop_last()[i].0, "beep"@) by {
            assert(after.drop_last()[i] == after[i]);
        }
        law_last_pin_counts(before, name, pin, after.drop_last(), t, was);
    }
}

/// The last filament sensor that says whether the filament has run out counts.
pub proof fn law_last_sensor_counts(
    before: Seq<(Seq<char>, Doc)>,
    name: Seq<char>,
    sensor: Seq<(Seq<char>, Doc)>,
    out: bool,
    was: bool,
)
    requires
        json::lookup(sensor, "runout"@) == Some(Doc::Bool(out)),
    ensures
        crate::moonraker::state_bridge::runout_after(before.push((name, Doc::Object(sensor))), was)
            == out,
        crate::moonraker::state_bridge::runout_after(Seq::empty(), was) == was,
{
    assert(before.push((name, Doc::Object(sensor))).last() == (name, Doc::Object(sensor)));
}

/// The breathing light is on where any lamp does something, and where it was on.
pub proof fn law_any_lamp(
    s: AppStateView,
    e: Seq<(Seq<char>, Doc)>,
    t: Seq<Reading>,
    lamps: Seq<(Seq<char>, Doc)>,
    i: int,
    led: Seq<(Seq<char>, Doc)>,
    word: Seq<char>,
)
    requires
        json::lookup(e, "led"@) == Some(Doc::Object(lamps)),
        0 <= i < lamps.len(),
        lamps[i].1 == Doc::Object(led),
        json::lookup(led, "state"@) == Some(Doc::Text(word)),
    ensures
        word != "off"@ ==> applied(s, e, t).breathing,
        s.breathing ==> applied(s, e, t).breathing,
{
    assert(lamps[i].1 == Doc::Object(led));
}

} // verus!
