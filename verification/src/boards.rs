//! Pin tables of the supported boards.

use crate::drivers::DisplayRotation;
use vstd::prelude::*;

verus! {

/// A GPIO pin, by its number.
#[derive(Clone, Copy, Debug, PartialEq, Eq, Structural)]
pub struct GpioPin(pub u8);

/// How the display is wired and how large it is.
#[derive(Clone, Copy, Debug, PartialEq, Eq)]
pub struct DisplayLayout {
    pub qspi_cs: GpioPin,
    pub qspi_sclk: GpioPin,
    pub qspi_sdo: GpioPin,
    pub qspi_sdi: GpioPin,
    pub reset: Option<GpioPin>,
    pub backlight: GpioPin,
    pub width: u16,
    pub height: u16,
}

/// How the touch controller is wired.
#[derive(Clone, Copy, Debug, PartialEq, Eq)]
pub struct TouchLayout {
    pub i2c_sda: GpioPin,
    pub i2c_scl: GpioPin,
    pub irq: GpioPin,
    pub reset: Option<GpioPin>,
}

/// How the audio codec and the motion sensor are wired.
#[derive(Clone, Copy, Debug, PartialEq, Eq, Structural)]
pub struct AudioPins {
    pub i2s_bclk: GpioPin,
    pub i2s_ws: GpioPin,
    pub i2s_sd: GpioPin,
    pub i2s_dout: GpioPin,
    pub imu_sda: GpioPin,
    pub imu_scl: GpioPin,
}

/// Everything the firmware needs to know of a board.
#[derive(Clone, Copy, Debug, PartialEq, Eq)]
pub struct BoardConfig {
    pub name: &'static str,
    pub display: DisplayLayout,
    pub touch: TouchLayout,
    pub audio: AudioPins,
    pub rotation: DisplayRotation,
}

/// The pin table of the Waveshare ESP32-S3-Touch-LCD 1.85C, third
/// revision: a 360 by 360 panel on QSPI, mounted upright, with the touch
/// controller and the motion sensor on one I2C bus.
pub open spec fn spec_waveshare_1_85c_v3() -> BoardConfig {
    BoardConfig {
        name: "Waveshare ESP32-S3-Touch-LCD 1.85C",
        display: DisplayLayout {
            qspi_cs: GpioPin(21),
            qspi_sclk: GpioPin(42),
            qspi_sdo: GpioPin(46),
            qspi_sdi: GpioPin(45),
            reset: None,
            backlight: GpioPin(5),
            width: 360,
            height: 360,
        },
        touch: TouchLayout {
            i2c_sda: GpioPin(11),
            i2c_scl: GpioPin(10),
            irq: GpioPin(4),
            reset: None,
        },
        audio: AudioPins {
            i2s_bclk: GpioPin(19),
            i2s_ws: GpioPin(20),
            i2s_sd: GpioPin(18),
            i2s_dout: GpioPin(17),
            imu_sda: GpioPin(11),
            imu_scl: GpioPin(10),
        },
        rotation: DisplayRotation::Portrait,
    }
}

/// The Waveshare ESP32-S3-Touch-LCD 1.85C, third revision.
pub fn waveshare_1_85c_v3() -> (board: BoardConfig)
    ensures
        board == spec_waveshare_1_85c_v3(),
{
    BoardConfig {
        name: "Waveshare ESP32-S3-Touch-LCD 1.85C",
        display: DisplayLayout {
            qspi_cs: GpioPin(21),
            qspi_sclk: GpioPin(42),
            qspi_sdo: GpioPin(46),
            qspi_sdi: GpioPin(45),
            reset: None,
            backlight: GpioPin(5),
            width: 360,
            height: 360,
        },
        touch: TouchLayout {
            i2c_sda: GpioPin(11),
            i2c_scl: GpioPin(10),
            irq: GpioPin(4),
            reset: None,
        },
        audio: AudioPins {
            i2s_bclk: GpioPin(19),
            i2s_ws: GpioPin(20),
            i2s_sd: GpioPin(18),
            i2s_dout: GpioPin(17),
            imu_sda: GpioPin(11),
            imu_scl: GpioPin(10),
        },
        rotation: DisplayRotation::Portrait,
    }
}

} // verus!
