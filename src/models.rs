//! The records exchanged between the engine, the health monitor, the print
//! controller and their callers.
use vstd::prelude::*;
use crate::decimal::Decimal;

verus! {

/// Connection and activity state of the printer.
#[derive(Clone, Copy, Debug, PartialEq, Eq, Structural)]
pub enum PrinterStatus {
    Disconnected,
    Active,
    Idle,
    Errored,
}

/// A signal that the printer itself raised in a response line.
#[derive(Clone, Copy, Debug, PartialEq, Eq, Structural)]
pub enum PrinterAction {
    Cancel,
    Pause,
    Resume,
}

/// A request sent to the print controller.
#[derive(Clone, Debug)]
pub enum Command {
    /// Set target temperatures (bed, extruder).
    SetTemps(u16, u16),
    /// Start printing the file at the given path.
    StartPrint(String),
    /// Stop the active print.
    StopPrint,
}

/// Kind of filament loaded for a print.
#[derive(Clone, Copy, Debug, PartialEq, Eq, Structural)]
pub enum FilamentType {
    PLA,
    PETG,
    ABS,
    TPU,
}

/// The file being printed. Times are milliseconds since the Unix epoch.
#[derive(Clone, Debug)]
pub struct GcodeFile {
    pub name: String,
    pub size: u64,
    pub last_modified: u128,
    pub start_time: u128,
}

impl GcodeFile {
    /// A copy of this record.
    pub fn duplicate(&self) -> (r: GcodeFile)
        ensures
            r == *self,
    {
        GcodeFile {
            name: self.name.clone(),
            size: self.size,
            last_modified: self.last_modified,
            start_time: self.start_time,
        }
    }

    pub open spec fn finished_spec(self, finish_time: u128) -> FinishedPrint {
        FinishedPrint {
            name: self.name,
            size: self.size,
            last_modified: self.last_modified,
            start_time: self.start_time,
            finish_time,
        }
    }

    /// The record of this print, ended at `finish_time`.
    pub fn finished(self, finish_time: u128) -> (r: FinishedPrint)
        ensures
            r == self.finished_spec(finish_time),
    {
        FinishedPrint {
            name: self.name,
            size: self.size,
            last_modified: self.last_modified,
            start_time: self.start_time,
            finish_time,
        }
    }
}

/// A print that has come to an end. Times are milliseconds since the Unix epoch.
#[derive(Clone, Debug)]
pub struct FinishedPrint {
    pub name: String,
    pub size: u64,
    pub last_modified: u128,
    pub start_time: u128,
    pub finish_time: u128,
}

/// How the serial device is chosen.
#[derive(Clone, Debug)]
pub enum SerialConnector {
    /// Take the first serial device found.
    Auto,
    /// Use this device path and baud rate.
    Manual(String, u32),
}

/// A temperature report: current bed and extruder temperatures, in degrees
/// Celsius, and the second (Unix time) it was read.
#[derive(Clone, Copy, Debug, PartialEq, Eq, Structural)]
pub struct Temperature {
    pub timestamp: u64,
    pub bed_temp: Decimal,
    pub ex_temp: Decimal,
}

impl Temperature {
    pub fn default() -> (r: Temperature)
        ensures
            r.timestamp == 0,
            r.bed_temp == Decimal::zero_spec(),
            r.ex_temp == Decimal::zero_spec(),
    {
        Temperature { timestamp: 0, bed_temp: Decimal::zero(), ex_temp: Decimal::zero() }
    }
}

/// Telemetry published on the action bus.
#[derive(Clone, Debug)]
pub enum TelemetryData {
    /// Current bed and extruder temperatures.
    Temps(Temperature),
    /// Commands left in the queue.
    Progress(u32),
    /// Percentage done of a print from the printer's own storage.
    PercentDone(u32),
    /// Minutes left of a print from the printer's own storage.
    MinsRemaining(u32),
    /// Number of commands queued for the active print.
    TotalCommandCount(u32),
    /// New extruder target temperature.
    TargetExtruderTemp(u32),
    /// New bed target temperature.
    TargetBedTemp(u32),
    /// New Z height of the nozzle.
    ZHeight(Decimal),
    /// Highest layer of the active print.
    MaxZHeight(Decimal),
    /// New fan duty as written in `M106 S<n>`, on the 0 to 255 scale: the
    /// fan runs at this value over 255 of its full speed.
    FanSpeed(Decimal),
    /// The active print file changed to this file, or to none.
    ActiveFileChange(Option<GcodeFile>),
    /// A print came to an end.
    PrintFinished(FinishedPrint),
}

/// A message on the action bus.
#[derive(Clone, Debug)]
pub enum Action {
    /// Telemetry from the engine or the controller.
    Telemetry(TelemetryData),
    /// The printer's status changed.
    StateChange(PrinterStatus),
    /// The printer raised a signal.
    PrinterAction(PrinterAction),
    /// A request to the controller.
    Command(Command),
}

} // verus!
