//! What the client knows of the printer.

use crate::text;
use vstd::prelude::*;

verus! {

/// The state of a print, as the cloud numbers it.
#[derive(Debug, Clone, Copy, PartialEq, Eq, Structural)]
pub enum PrintState {
    Idle,
    Printing,
    Complete,
    Paused,
    Error,
    Cancelled,
}

impl PrintState {
    /// The number of the state.
    pub open spec fn number(self) -> u8 {
        match self {
            PrintState::Idle => 0,
            PrintState::Printing => 1,
            PrintState::Complete => 2,
            PrintState::Paused => 3,
            PrintState::Error => 4,
            PrintState::Cancelled => 5,
        }
    }

    /// The number of the state.
    pub fn code(self) -> (n: u8)
        ensures
            n == self.number(),
    {
        match self {
            PrintState::Idle => 0,
            PrintState::Printing => 1,
            PrintState::Complete => 2,
            PrintState::Paused => 3,
            PrintState::Error => 4,
            PrintState::Cancelled => 5,
        }
    }

    /// The state that the printer's own name stands for; unknown names stand for idle.
    pub open spec fn named(s: Seq<char>) -> PrintState {
        if s == "printing"@ {
            PrintState::Printing
        } else if s == "paused"@ {
            PrintState::Paused
        } else if s == "complete"@ {
            PrintState::Complete
        } else if s == "cancelled"@ {
            PrintState::Cancelled
        } else if s == "error"@ {
            PrintState::Error
        } else {
            PrintState::Idle
        }
    }

    /// The state that the printer's own name stands for.
    pub fn from_klipper(s: &str) -> (p: Self)
        ensures
            p == PrintState::named(s@),
    {
        if text::same(s, "printing") {
            PrintState::Printing
        } else if text::same(s, "paused") {
            PrintState::Paused
        } else if text::same(s, "complete") {
            PrintState::Complete
        } else if text::same(s, "cancelled") {
            PrintState::Cancelled
        } else if text::same(s, "error") {
            PrintState::Error
        } else {
            PrintState::Idle
        }
    }
}

/// A temperature in degrees: the whole degrees, rounded towards zero, and whether the
/// temperature lies above them.
#[derive(Debug, Clone, Copy, PartialEq, Eq, Structural)]
pub struct Temperature {
    pub whole: i64,
    pub above: bool,
}

impl Temperature {
    /// Whether the temperature is higher than `limit` degrees.
    pub open spec fn exceeds(self, limit: i64) -> bool {
        self.whole > limit || self.whole == limit && self.above
    }

    /// Whether the temperature is higher than `limit` degrees.
    pub fn higher_than(self, limit: i64) -> (b: bool)
        ensures
            b == self.exceeds(limit),
    {
        self.whole > limit || (self.whole == limit && self.above)
    }

    /// A temperature of whole degrees.
    pub fn degrees(whole: i64) -> (t: Self)
        ensures
            t == (Temperature { whole, above: false }),
    {
        Temperature { whole, above: false }
    }
}

/// The printer as it last reported itself.
#[derive(Debug, Clone)]
pub struct AppState {
    pub moonraker_connected: bool,
    pub nozzle_actual: Temperature,
    pub nozzle_target: Temperature,
    pub bed_actual: Temperature,
    pub bed_target: Temperature,
    /// Fan speeds in percent.
    pub main_fan_pct: u8,
    pub board_fan_pct: u8,
    pub aux_fan_pct: u8,
    pub preheat_type: u8,
    pub preheat_state: u8,
    pub heat_state: u8,
    /// See [`PrintState`].
    pub print_state: u8,
    pub print_progress: u8,
    pub current_file: String,
    pub print_elapsed_secs: u64,
    pub print_remain_secs: u64,
    pub zoffset_x100: i32,
    pub leveling_status: u8,
    pub leveling_point: u8,
    pub leveling_total: u8,
    pub runout: bool,
    pub beep: bool,
    pub light: bool,
    pub breathing: bool,
    pub sd_ok: bool,
    pub level_ok: bool,
    pub door_open: bool,
}

/// The contents of an [`AppState`].
#[verifier::ext_equal]
pub struct AppStateView {
    pub moonraker_connected: bool,
    pub nozzle_actual: Temperature,
    pub nozzle_target: Temperature,
    pub bed_actual: Temperature,
    pub bed_target: Temperature,
    pub main_fan_pct: u8,
    pub board_fan_pct: u8,
    pub aux_fan_pct: u8,
    pub preheat_type: u8,
    pub preheat_state: u8,
    pub heat_state: u8,
    pub print_state: u8,
    pub print_progress: u8,
    pub current_file: Seq<char>,
    pub print_elapsed_secs: u64,
    pub print_remain_secs: u64,
    pub zoffset_x100: i32,
    pub leveling_status: u8,
    pub leveling_point: u8,
    pub leveling_total: u8,
    pub runout: bool,
    pub beep: bool,
    pub light: bool,
    pub breathing: bool,
    pub sd_ok: bool,
    pub level_ok: bool,
    pub door_open: bool,
}

impl View for AppState {
    type V = AppStateView;

    open spec fn view(&self) -> AppStateView {
        AppStateView {
            moonraker_connected: self.moonraker_connected,
            nozzle_actual: self.nozzle_actual,
            nozzle_target: self.nozzle_target,
            bed_actual: self.bed_actual,
            bed_target: self.bed_target,
            main_fan_pct: self.main_fan_pct,
            board_fan_pct: self.board_fan_pct,
            aux_fan_pct: self.aux_fan_pct,
            preheat_type: self.preheat_type,
            preheat_state: self.preheat_state,
            heat_state: self.heat_state,
            print_state: self.print_state,
            print_progress: self.print_progress,
            current_file: self.current_file@,
            print_elapsed_secs: self.print_elapsed_secs,
            print_remain_secs: self.print_remain_secs,
            zoffset_x100: self.zoffset_x100,
            leveling_status: self.leveling_status,
            leveling_point: self.leveling_point,
            leveling_total: self.leveling_total,
            runout: self.runout,
            beep: self.beep,
            light: self.light,
            breathing: self.breathing,
            sd_ok: self.sd_ok,
            level_ok: self.level_ok,
            door_open: self.door_open,
        }
    }
}

impl AppStateView {
    /// A printer of which nothing is known: everything is off, empty or zero.
    pub open spec fn unknown() -> AppStateView {
        let cold = Temperature { whole: 0, above: false };
        AppStateView {
            moonraker_connected: false,
            nozzle_actual: cold,
            nozzle_target: cold,
            bed_actual: cold,
            bed_target: cold,
            main_fan_pct: 0,
            board_fan_pct: 0,
            aux_fan_pct: 0,
            preheat_type: 0,
            preheat_state: 0,
            heat_state: 0,
            print_state: 0,
            print_progress: 0,
            current_file: Seq::empty(),
            print_elapsed_secs: 0,
            print_remain_secs: 0,
            zoffset_x100: 0,
            leveling_status: 0,
            leveling_point: 0,
            leveling_total: 0,
            runout: false,
            beep: false,
            light: false,
            breathing: false,
            sd_ok: false,
            level_ok: false,
            door_open: false,
        }
    }

    /// Whether the printer is printing, hot, or heating up.
    pub open spec fn busy(self) -> bool {
        ||| self.print_state != PrintState::Idle.number()
        ||| self.nozzle_actual.exceeds(40)
        ||| self.nozzle_target.exceeds(1)
        ||| self.bed_actual.exceeds(40)
        ||| self.bed_target.exceeds(1)
    }
}

impl Default for AppState {
    fn default() -> (s: Self)
        ensures
            s@ == AppStateView::unknown(),
    {
        let cold: Temperature = Temperature::degrees(0);
        AppState {
            moonraker_connected: false,
            nozzle_actual: cold,
            nozzle_target: cold,
            bed_actual: cold,
            bed_target: cold,
            main_fan_pct: 0,
            board_fan_pct: 0,
            aux_fan_pct: 0,
            preheat_type: 0,
            preheat_state: 0,
            heat_state: 0,
            print_state: 0,
            print_progress: 0,
            current_file: String::new(),
            print_elapsed_secs: 0,
            print_remain_secs: 0,
            zoffset_x100: 0,
            leveling_status: 0,
            leveling_point: 0,
            leveling_total: 0,
            runout: false,
            beep: false,
            light: false,
            breathing: false,
            sd_ok: false,
            level_ok: false,
            door_open: false,
        }
    }
}

impl AppState {
    /// Whether the printer is busy: its state is then reported more often.
    pub fn is_busy(&self) -> (b: bool)
        ensures
            b == self@.busy(),
    {
        self.print_state != PrintState::Idle.code() || self.nozzle_actual.higher_than(40)
            || self.nozzle_target.higher_than(1) || self.bed_actual.higher_than(40)
            || self.bed_target.higher_than(1)
    }
}

} // verus!
