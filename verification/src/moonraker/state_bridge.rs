//! From the printer's status updates to what the client knows of the printer.
//!
//! The printer reports IEEE numbers. Arithmetic on them is done outside: a [`Reading`] holds what
//! a number comes to, and an update is applied with a table of readings.

use crate::app_state::{AppState, AppStateView, PrintState, Temperature};
use crate::json;
use crate::json::Doc;
use crate::text;
use serde_json::{Map as JsonMap, Value};
use vstd::prelude::*;

verus! {

/// What a number of the printer comes to.
#[derive(Debug, Clone, Copy, PartialEq, Eq, Structural)]
pub struct Reading {
    /// The bits of the number.
    pub bits: u64,
    /// The number as a temperature.
    pub temperature: Temperature,
    /// The number, between 0 and 1, in percent, rounded.
    pub percent: u8,
    /// A hundred times the number, rounded towards zero.
    pub hundredths: i32,
    /// The number in whole seconds; 0 for one below zero.
    pub seconds: u64,
    /// The number is greater than one half.
    pub over_half: bool,
}

/// The first reading of a number in a table.
pub open spec fn reading_of(t: Seq<Reading>, bits: u64) -> Option<Reading>
    decreases t.len(),
{
    if t.len() == 0 {
        None
    } else if t[0].bits == bits {
        Some(t[0])
    } else {
        reading_of(t.drop_first(), bits)
    }
}

fn find_reading(t: &[Reading], bits: u64) -> (r: Option<Reading>)
    ensures
        r == reading_of(t@, bits),
{
    let mut i: usize = 0;
    assert(t@.skip(0) =~= t@);
    while i < t.len()
        invariant
            i <= t@.len(),
            reading_of(t@, bits) == reading_of(t@.skip(i as int), bits),
        decreases t@.len() - i,
    {
        assert(t@.skip(i as int).drop_first() =~= t@.skip(i as int + 1));
        if t[i].bits == bits {
            return Some(t[i]);
        }
        i += 1;
    }
    None
}

/// The attributes of an object of the printer.
pub open spec fn object_at(e: Seq<(Seq<char>, Doc)>, name: Seq<char>) -> Option<
    Seq<(Seq<char>, Doc)>,
> {
    match json::lookup(e, name) {
        Some(Doc::Object(a)) => Some(a),
        _ => None,
    }
}

/// An attribute of an object of the printer.
pub open spec fn attribute(e: Seq<(Seq<char>, Doc)>, name: Seq<char>, key: Seq<char>) -> Option<
    Doc,
> {
    match object_at(e, name) {
        Some(a) => json::lookup(a, key),
        None => None,
    }
}

/// The number that an attribute is.
pub open spec fn number_at(e: Seq<(Seq<char>, Doc)>, name: Seq<char>, key: Seq<char>) -> Option<
    u64,
> {
    match attribute(e, name, key) {
        Some(d) => json::number_bits(d),
        None => None,
    }
}

/// The text that an attribute is.
pub open spec fn text_at(e: Seq<(Seq<char>, Doc)>, name: Seq<char>, key: Seq<char>) -> Option<
    Seq<char>,
> {
    match attribute(e, name, key) {
        Some(Doc::Text(s)) => Some(s),
        _ => None,
    }
}

/// The reading of an optional number.
pub open spec fn read(t: Seq<Reading>, bits: Option<u64>) -> Option<Reading> {
    match bits {
        Some(b) => reading_of(t, b),
        None => None,
    }
}

/// The height of the origin: the third number of the homing origin.
pub open spec fn origin_height(e: Seq<(Seq<char>, Doc)>) -> Option<u64> {
    match attribute(e, "gcode_move"@, "homing_origin"@) {
        Some(Doc::List(items)) if items.len() >= 3 => json::number_bits(items[2]),
        _ => None,
    }
}

/// The number under `key` of a document.
pub open spec fn number_field(d: Doc, key: Seq<char>) -> Option<u64> {
    match json::field(d, key) {
        Some(n) => json::number_bits(n),
        None => None,
    }
}

/// Whether an output pin is on: its value is greater than one half.
pub open spec fn pin_on(t: Seq<Reading>, pin: Doc) -> bool {
    match read(t, number_field(pin, "value"@)) {
        Some(r) => r.over_half,
        None => false,
    }
}

/// A pin of the light has `light` in its name.
pub open spec fn is_light(name: Seq<char>) -> bool {
    text::holds(name, "light"@)
}

/// A pin of the beeper has `beep` in its name, and is none of the light.
pub open spec fn is_beeper(name: Seq<char>) -> bool {
    text::holds(name, "beep"@) && !is_light(name)
}

/// Whether the light is on after the pins have been read one after the other.
pub open spec fn light_after(pins: Seq<(Seq<char>, Doc)>, t: Seq<Reading>, before: bool) -> bool
    decreases pins.len(),
{
    if pins.len() == 0 {
        before
    } else if is_light(pins.last().0) {
        pin_on(t, pins.last().1)
    } else {
        light_after(pins.drop_last(), t, before)
    }
}

/// Whether the beeper is on after the pins have been read one after the other.
pub open spec fn beep_after(pins: Seq<(Seq<char>, Doc)>, t: Seq<Reading>, before: bool) -> bool
    decreases pins.len(),
{
    if pins.len() == 0 {
        before
    } else if is_beeper(pins.last().0) {
        pin_on(t, pins.last().1)
    } else {
        beep_after(pins.drop_last(), t, before)
    }
}

/// Whether a lamp does something.
pub open spec fn lamp_lit(d: Doc) -> bool {
    match json::text_field(d, "state"@) {
        Some(s) => s != "off"@,
        None => false,
    }
}

/// Whether any lamp does something.
pub open spec fn any_lamp_lit(lamps: Seq<(Seq<char>, Doc)>) -> bool {
    exists|i: int| 0 <= i < lamps.len() && lamp_lit(#[trigger] lamps[i].1)
}

/// Whether the filament has run out, by the last sensor that says so or not.
pub open spec fn runout_after(sensors: Seq<(Seq<char>, Doc)>, before: bool) -> bool
    decreases sensors.len(),
{
    if sensors.len() == 0 {
        before
    } else {
        match json::field(sensors.last().1, "runout"@) {
            Some(Doc::Bool(b)) => b,
            _ => runout_after(sensors.drop_last(), before),
        }
    }
}

/// The attributes of an object, none where it is not there.
pub open spec fn attributes(e: Seq<(Seq<char>, Doc)>, name: Seq<char>) -> Seq<(Seq<char>, Doc)> {
    match object_at(e, name) {
        Some(a) => a,
        None => Seq::empty(),
    }
}

/// A temperature after an update.
pub open spec fn heat(r: Option<Reading>, before: Temperature) -> Temperature {
    match r {
        Some(r) => r.temperature,
        None => before,
    }
}

/// A percentage after an update.
pub open spec fn percent(r: Option<Reading>, before: u8) -> u8 {
    match r {
        Some(r) => r.percent,
        None => before,
    }
}

/// The state of the print after an update.
pub open spec fn print_state_after(e: Seq<(Seq<char>, Doc)>, before: u8) -> u8 {
    match text_at(e, "print_stats"@, "state"@) {
        Some(name) => PrintState::named(name).number(),
        None => before,
    }
}

/// The file that is printed, after an update.
pub open spec fn file_after(e: Seq<(Seq<char>, Doc)>, before: Seq<char>) -> Seq<char> {
    match text_at(e, "print_stats"@, "filename"@) {
        Some(f) if f.len() > 0 => f,
        _ => before,
    }
}

/// The seconds that the print has taken, after an update.
pub open spec fn elapsed_after(r: Option<Reading>, before: u64) -> u64 {
    match r {
        Some(r) => r.seconds,
        None => before,
    }
}

/// The seconds that the print will take, after an update that gives the whole time.
pub open spec fn remain_after(r: Option<Reading>, elapsed: u64, before: u64) -> u64 {
    match r {
        Some(r) => if r.seconds > elapsed {
            (r.seconds - elapsed) as u64
        } else {
            0
        },
        None => before,
    }
}

/// The height of the origin after an update.
pub open spec fn height_after(r: Option<Reading>, before: i32) -> i32 {
    match r {
        Some(r) => r.hundredths,
        None => before,
    }
}

/// Whether the bed has been measured, after an update.
pub open spec fn level_after(e: Seq<(Seq<char>, Doc)>, before: bool) -> bool {
    match attribute(e, "bed_mesh"@, "profiles"@) {
        Some(Doc::List(profiles)) => profiles.len() > 0,
        _ => before,
    }
}

/// The printer after a status update. What the update does not mention stays.
pub open spec fn applied(
    s: AppStateView,
    e: Seq<(Seq<char>, Doc)>,
    t: Seq<Reading>,
) -> AppStateView {
    let elapsed = elapsed_after(
        read(t, number_at(e, "print_stats"@, "print_duration"@)),
        s.print_elapsed_secs,
    );
    AppStateView {
        nozzle_actual: heat(read(t, number_at(e, "extruder"@, "temperature"@)), s.nozzle_actual),
        nozzle_target: heat(read(t, number_at(e, "extruder"@, "target"@)), s.nozzle_target),
        bed_actual: heat(read(t, number_at(e, "heater_bed"@, "temperature"@)), s.bed_actual),
        bed_target: heat(read(t, number_at(e, "heater_bed"@, "target"@)), s.bed_target),
        main_fan_pct: percent(read(t, number_at(e, "fan"@, "speed"@)), s.main_fan_pct),
        board_fan_pct: percent(read(t, number_at(e, "heater_fan"@, "speed"@)), s.board_fan_pct),
        print_state: print_state_after(e, s.print_state),
        current_file: file_after(e, s.current_file),
        print_progress: percent(
            read(t, number_at(e, "virtual_sdcard"@, "progress"@)),
            percent(read(t, number_at(e, "print_stats"@, "progress"@)), s.print_progress),
        ),
        print_elapsed_secs: elapsed,
        print_remain_secs: remain_after(
            read(t, number_at(e, "print_stats"@, "total_duration"@)),
            elapsed,
            s.print_remain_secs,
        ),
        sd_ok: if object_at(e, "virtual_sdcard"@) is Some {
            s.moonraker_connected
        } else {
            s.sd_ok
        },
        zoffset_x100: height_after(read(t, origin_height(e)), s.zoffset_x100),
        light: light_after(attributes(e, "output_pin"@), t, s.light),
        beep: beep_after(attributes(e, "output_pin"@), t, s.beep),
        breathing: s.breathing || any_lamp_lit(attributes(e, "led"@)),
        runout: runout_after(attributes(e, "runout_sensor"@), s.runout),
        level_ok: level_after(e, s.level_ok),
        ..s
    }
}

proof fn lemma_pins_settle(pins: Seq<(Seq<char>, Doc)>, t: Seq<Reading>, before: bool)
    ensures
        light_after(pins, t, light_after(pins, t, before)) == light_after(pins, t, before),
        beep_after(pins, t, beep_after(pins, t, before)) == beep_after(pins, t, before),
    decreases pins.len(),
{
    if pins.len() > 0 {
        lemma_pins_settle(pins.drop_last(), t, before);
    }
}

proof fn lemma_runout_settles(sensors: Seq<(Seq<char>, Doc)>, before: bool)
    ensures
        runout_after(sensors, runout_after(sensors, before)) == runout_after(sensors, before),
    decreases sensors.len(),
{
    if sensors.len() > 0 {
        lemma_runout_settles(sensors.drop_last(), before);
    }
}

/// The same update applied twice does no more than once.
pub proof fn law_update_settles(s: AppStateView, e: Seq<(Seq<char>, Doc)>, t: Seq<Reading>)
    ensures
        applied(applied(s, e, t), e, t) == applied(s, e, t),
{
    lemma_pins_settle(attributes(e, "output_pin"@), t, s.light);
    lemma_pins_settle(attributes(e, "output_pin"@), t, s.beep);
    lemma_runout_settles(attributes(e, "runout_sensor"@), s.runout);
}

/// An update that has none of the known objects changes nothing.
pub proof fn law_unknown_objects_change_nothing(
    s: AppStateView,
    e: Seq<(Seq<char>, Doc)>,
    t: Seq<Reading>,
)
    requires
        object_at(e, "extruder"@) is None,
        object_at(e, "heater_bed"@) is None,
        object_at(e, "fan"@) is None,
        object_at(e, "heater_fan"@) is None,
        object_at(e, "print_stats"@) is None,
        object_at(e, "virtual_sdcard"@) is None,
        object_at(e, "gcode_move"@) is None,
        object_at(e, "output_pin"@) is None,
        object_at(e, "led"@) is None,
        object_at(e, "runout_sensor"@) is None,
        object_at(e, "bed_mesh"@) is None,
    ensures
        applied(s, e, t) == s,
{
}

fn object<'a>(map: &'a JsonMap<String, Value>, name: &str) -> (r: Option<
    &'a JsonMap<String, Value>,
>)
    ensures
        match r {
            Some(m) => object_at(json::entries(*map), name@) == Some(json::entries(*m)),
            None => object_at(json::entries(*map), name@) is None,
        },
{
    match json::entry(map, name) {
        Some(v) => json::as_entries(v),
        None => None,
    }
}

fn attribute_value<'a>(map: &'a JsonMap<String, Value>, name: &str, key: &str) -> (r: Option<
    &'a Value,
>)
    ensures
        json::opt_document(r) == attribute(json::entries(*map), name@, key@),
{
    match object(map, name) {
        Some(m) => json::entry(m, key),
        None => None,
    }
}

fn number(map: &JsonMap<String, Value>, name: &str, key: &str) -> (r: Option<u64>)
    ensures
        r == number_at(json::entries(*map), name@, key@),
{
    match attribute_value(map, name, key) {
        Some(v) => json::as_number(v),
        None => None,
    }
}

fn text_attribute<'a>(map: &'a JsonMap<String, Value>, name: &str, key: &str) -> (r: Option<
    &'a str,
>)
    ensures
        match r {
            Some(s) => text_at(json::entries(*map), name@, key@) == Some(s@),
            None => text_at(json::entries(*map), name@, key@) is None,
        },
{
    match attribute_value(map, name, key) {
        Some(v) => json::as_text(v),
        None => None,
    }
}

fn look_up(t: &[Reading], bits: Option<u64>) -> (r: Option<Reading>)
    ensures
        r == read(t@, bits),
{
    match bits {
        Some(b) => find_reading(t, b),
        None => None,
    }
}

fn reading(map: &JsonMap<String, Value>, name: &str, key: &str, t: &[Reading]) -> (r: Option<
    Reading,
>)
    ensures
        r == read(t@, number_at(json::entries(*map), name@, key@)),
{
    look_up(t, number(map, name, key))
}

fn origin(map: &JsonMap<String, Value>) -> (r: Option<u64>)
    ensures
        r == origin_height(json::entries(*map)),
{
    if let Some(v) = attribute_value(map, "gcode_move", "homing_origin") {
        if let Some(items) = json::as_items(v) {
            if items.len() >= 3 {
                assert(json::documents(items@)[2] == json::document(items@[2]));
                return json::as_number(&items[2]);
            }
        }
    }
    None
}

fn number_in(v: &Value, key: &str) -> (r: Option<u64>)
    ensures
        r == number_field(json::document(*v), key@),
{
    match json::get(v, key) {
        Some(n) => json::as_number(n),
        None => None,
    }
}

fn attribute_list<'a>(map: &'a JsonMap<String, Value>, name: &str) -> (list: Vec<
    (&'a str, &'a Value),
>)
    ensures
        json::entry_views(list@) == attributes(json::entries(*map), name@),
{
    match object(map, name) {
        Some(m) => json::entry_list(m),
        None => {
            let list: Vec<(&'a str, &'a Value)> = Vec::new();
            assert(json::entry_views(list@) =~= Seq::<(Seq<char>, Doc)>::empty());
            list
        },
    }
}

fn apply_pins(s: &mut AppState, map: &JsonMap<String, Value>, t: &[Reading])
    ensures
        final(s)@ == (AppStateView {
            light: light_after(attributes(json::entries(*map), "output_pin"@), t@, old(s).light),
            beep: beep_after(attributes(json::entries(*map), "output_pin"@), t@, old(s).beep),
            ..old(s)@
        }),
{
    let list: Vec<(&str, &Value)> = attribute_list(map, "output_pin");
    let ghost pins = json::entry_views(list@);
    let mut i: usize = 0;
    assert(pins.take(0) =~= Seq::<(Seq<char>, Doc)>::empty());
    while i < list.len()
        invariant
            i <= list@.len(),
            pins == json::entry_views(list@),
            s@ == (AppStateView {
                light: light_after(pins.take(i as int), t@, old(s).light),
                beep: beep_after(pins.take(i as int), t@, old(s).beep),
                ..old(s)@
            }),
        decreases list@.len() - i,
    {
        let name: &str = list[i].0;
        let pin: &Value = list[i].1;
        proof {
            let more = pins.take(i as int + 1);
            assert(more.drop_last() =~= pins.take(i as int));
            assert(more.last() == (name@, json::document(*pin)));
        }
        let on: bool = match look_up(t, number_in(pin, "value")) {
            Some(r) => r.over_half,
            None => false,
        };
        if text::contains(name, "light") {
            s.light = on;
        } else if text::contains(name, "beep") {
            s.beep = on;
        }
        i += 1;
    }
    assert(pins.take(i as int) =~= pins);
}

fn lamps_lit(map: &JsonMap<String, Value>) -> (r: bool)
    ensures
        r == any_lamp_lit(attributes(json::entries(*map), "led"@)),
{
    let list: Vec<(&str, &Value)> = attribute_list(map, "led");
    let ghost lamps = json::entry_views(list@);
    let mut i: usize = 0;
    while i < list.len()
        invariant
            i <= list@.len(),
            lamps == json::entry_views(list@),
            lamps == attributes(json::entries(*map), "led"@),
            forall|k: int| 0 <= k < i ==> !lamp_lit(#[trigger] lamps[k].1),
        decreases list@.len() - i,
    {
        assert(lamps[i as int].1 == json::document(*list@[i as int].1));
        if let Some(state) = json::get_text(list[i].1, "state") {
            if !text::same(state, "off") {
                assert(lamp_lit(lamps[i as int].1));
                return true;
            }
        }
        i += 1;
    }
    false
}

fn runout(map: &JsonMap<String, Value>, before: bool) -> (r: bool)
    ensures
        r == runout_after(attributes(json::entries(*map), "runout_sensor"@), before),
{
    let list: Vec<(&str, &Value)> = attribute_list(map, "runout_sensor");
    let ghost sensors = json::entry_views(list@);
    let mut r: bool = before;
    let mut i: usize = 0;
    assert(sensors.take(0) =~= Seq::<(Seq<char>, Doc)>::empty());
    while i < list.len()
        invariant
            i <= list@.len(),
            sensors == json::entry_views(list@),
            r == runout_after(sensors.take(i as int), before),
        decreases list@.len() - i,
    {
        proof {
            let more = sensors.take(i as int + 1);
            assert(more.drop_last() =~= sensors.take(i as int));
            assert(more.last().1 == json::document(*list@[i as int].1));
        }
        if let Some(v) = json::get(list[i].1, "runout") {
            if let Some(b) = json::as_boolean(v) {
                r = b;
            }
        }
        i += 1;
    }
    assert(sensors.take(i as int) =~= sensors);
    r
}

fn heated(before: Temperature, r: Option<Reading>) -> (t: Temperature)
    ensures
        t == heat(r, before),
{
    match r {
        Some(r) => r.temperature,
        None => before,
    }
}

fn in_percent(before: u8, r: Option<Reading>) -> (p: u8)
    ensures
        p == percent(r, before),
{
    match r {
        Some(r) => r.percent,
        None => before,
    }
}

fn print_state(map: &JsonMap<String, Value>, before: u8) -> (p: u8)
    ensures
        p == print_state_after(json::entries(*map), before),
{
    match text_attribute(map, "print_stats", "state") {
        Some(name) => PrintState::from_klipper(name).code(),
        None => before,
    }
}

fn apply_file(s: &mut AppState, map: &JsonMap<String, Value>)
    ensures
        final(s)@ == (AppStateView {
            current_file: file_after(json::entries(*map), old(s)@.current_file),
            ..old(s)@
        }),
{
    if let Some(f) = text_attribute(map, "print_stats", "filename") {
        if !f.is_empty() {
            s.current_file = f.to_owned();
        }
    }
}

fn seconds(before: u64, r: Option<Reading>) -> (n: u64)
    ensures
        n == elapsed_after(r, before),
{
    match r {
        Some(r) => r.seconds,
        None => before,
    }
}

fn seconds_left(before: u64, r: Option<Reading>, elapsed: u64) -> (n: u64)
    ensures
        n == remain_after(r, elapsed, before),
{
    match r {
        Some(r) => if r.seconds > elapsed {
            r.seconds - elapsed
        } else {
            0
        },
        None => before,
    }
}

fn level_found(map: &JsonMap<String, Value>, before: bool) -> (b: bool)
    ensures
        b == level_after(json::entries(*map), before),
{
    if let Some(v) = attribute_value(map, "bed_mesh", "profiles") {
        if let Some(profiles) = json::as_items(v) {
            return profiles.len() > 0;
        }
    }
    before
}

fn hundredths(before: i32, r: Option<Reading>) -> (n: i32)
    ensures
        n == height_after(r, before),
{
    match r {
        Some(r) => r.hundredths,
        None => before,
    }
}

/// Applies a status update of the printer. A number without a reading in the table is passed
/// over; [`numbers`] lists the numbers to read.
pub fn apply(s: &mut AppState, map: &JsonMap<String, Value>, readings: &[Reading])
    ensures
        final(s)@ == applied(old(s)@, json::entries(*map), readings@),
{
    let t: &[Reading] = readings;
    s.nozzle_actual = heated(s.nozzle_actual, reading(map, "extruder", "temperature", t));
    s.nozzle_target = heated(s.nozzle_target, reading(map, "extruder", "target", t));
    s.bed_actual = heated(s.bed_actual, reading(map, "heater_bed", "temperature", t));
    s.bed_target = heated(s.bed_target, reading(map, "heater_bed", "target", t));
    s.main_fan_pct = in_percent(s.main_fan_pct, reading(map, "fan", "speed", t));
    s.board_fan_pct = in_percent(s.board_fan_pct, reading(map, "heater_fan", "speed", t));
    s.print_state = print_state(map, s.print_state);
    apply_file(s, map);
    s.print_progress = in_percent(s.print_progress, reading(map, "print_stats", "progress", t));
    s.print_progress = in_percent(s.print_progress, reading(map, "virtual_sdcard", "progress", t));
    s.print_elapsed_secs =
    seconds(s.print_elapsed_secs, reading(map, "print_stats", "print_duration", t));
    s.print_remain_secs =
    seconds_left(
        s.print_remain_secs,
        reading(map, "print_stats", "total_duration", t),
        s.print_elapsed_secs,
    );
    s.sd_ok = if object(map, "virtual_sdcard").is_some() {
        s.moonraker_connected
    } else {
        s.sd_ok
    };
    s.zoffset_x100 = hundredths(s.zoffset_x100, look_up(t, origin(map)));
    apply_pins(s, map, t);
    s.breathing = lamps_lit(map) || s.breathing;
    s.runout = runout(map, s.runout);
    s.level_ok = level_found(map, s.level_ok);
}

/// An optional number as a list.
pub open spec fn listed(n: Option<u64>) -> Seq<u64> {
    match n {
        Some(b) => seq![b],
        None => Seq::empty(),
    }
}

/// The numbers of output pins.
pub open spec fn pin_numbers(pins: Seq<(Seq<char>, Doc)>) -> Seq<u64>
    decreases pins.len(),
{
    if pins.len() == 0 {
        Seq::empty()
    } else {
        pin_numbers(pins.drop_last()) + listed(number_field(pins.last().1, "value"@))
    }
}

/// The numbers of an update that [`apply`] looks at.
pub open spec fn numbers_in(e: Seq<(Seq<char>, Doc)>) -> Seq<u64> {
    listed(number_at(e, "extruder"@, "temperature"@)) + listed(
        number_at(e, "extruder"@, "target"@),
    ) + listed(number_at(e, "heater_bed"@, "temperature"@)) + listed(
        number_at(e, "heater_bed"@, "target"@),
    ) + listed(number_at(e, "fan"@, "speed"@)) + listed(number_at(e, "heater_fan"@, "speed"@))
        + listed(number_at(e, "print_stats"@, "progress"@)) + listed(
        number_at(e, "print_stats"@, "print_duration"@),
    ) + listed(number_at(e, "print_stats"@, "total_duration"@)) + listed(
        number_at(e, "virtual_sdcard"@, "progress"@),
    ) + listed(origin_height(e)) + pin_numbers(attributes(e, "output_pin"@))
}

fn add_number(list: &mut Vec<u64>, n: Option<u64>)
    ensures
        final(list)@ == old(list)@ + listed(n),
{
    if let Some(b) = n {
        list.push(b);
    }
    assert(list@ =~= old(list)@ + listed(n));
}

/// The numbers of an update that have to be read before it is applied.
pub fn numbers(map: &JsonMap<String, Value>) -> (list: Vec<u64>)
    ensures
        list@ == numbers_in(json::entries(*map)),
{
    let mut list: Vec<u64> = Vec::new();
    add_number(&mut list, number(map, "extruder", "temperature"));
    assert(list@ =~= listed(number_at(json::entries(*map), "extruder"@, "temperature"@)));
    add_number(&mut list, number(map, "extruder", "target"));
    add_number(&mut list, number(map, "heater_bed", "temperature"));
    add_number(&mut list, number(map, "heater_bed", "target"));
    add_number(&mut list, number(map, "fan", "speed"));
    add_number(&mut list, number(map, "heater_fan", "speed"));
    add_number(&mut list, number(map, "print_stats", "progress"));
    add_number(&mut list, number(map, "print_stats", "print_duration"));
    add_number(&mut list, number(map, "print_stats", "total_duration"));
    add_number(&mut list, number(map, "virtual_sdcard", "progress"));
    add_number(&mut list, origin(map));
    let ghost front = list@;
    let attrs: Vec<(&str, &Value)> = attribute_list(map, "output_pin");
    let ghost pins = json::entry_views(attrs@);
    let mut i: usize = 0;
    assert(pins.take(0) =~= Seq::<(Seq<char>, Doc)>::empty());
    assert(front + pin_numbers(pins.take(0)) =~= front);
    while i < attrs.len()
        invariant
            i <= attrs@.len(),
            pins == json::entry_views(attrs@),
            list@ == front + pin_numbers(pins.take(i as int)),
        decreases attrs@.len() - i,
    {
        proof {
            let more = pins.take(i as int + 1);
            assert(more.drop_last() =~= pins.take(i as int));
            assert(more.last().1 == json::document(*attrs@[i as int].1));
        }
        let ghost before = pin_numbers(pins.take(i as int));
        let n: Option<u64> = number_in(attrs[i].1, "value");
        add_number(&mut list, n);
        assert((front + before) + listed(n) =~= front + (before + listed(n)));
        i += 1;
    }
    assert(pins.take(i as int) =~= pins);
    list
}

} // verus!
