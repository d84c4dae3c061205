use vstd::prelude::*;

verus! {

/// Drive levels for the four motors: negative is reverse, zero is stop,
/// positive is forward; the magnitude is the intensity.
#[derive(Debug, Clone, Copy, PartialEq, Eq, Structural, Default)]
pub struct MotorCommand {
    pub a: i8,
    pub b: i8,
    pub c: i8,
    pub d: i8,
}

/// The status indicator on or off.
#[derive(Debug, Clone, Copy, PartialEq, Eq, Structural)]
pub struct LedCommand {
    pub status: bool,
}

/// One instruction to the device.
#[derive(Debug, Clone, Copy, PartialEq, Eq, Structural)]
pub enum Command {
    /// Restart the device in its firmware-update mode.
    ResetToUsbBoot,
    MotorCommand(MotorCommand),
    LedCommand(LedCommand),
}

/// All four motors at the same level.
pub open spec fn uniform_motor_spec(drive: i8) -> Command {
    Command::MotorCommand(MotorCommand { a: drive, b: drive, c: drive, d: drive })
}

/// A motor command with every level equal to `drive`.
pub fn uniform_motor(drive: i8) -> (r: Command)
    ensures
        r == uniform_motor_spec(drive),
{
    Command::MotorCommand(MotorCommand { a: drive, b: drive, c: drive, d: drive })
}

} // verus!
