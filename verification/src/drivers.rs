//! The contracts that the core offers to hardware drivers, and the host
//! stand-ins that feed it without hardware.

use crate::counting::saturating_succ_u64;
use crate::protocol::TouchEventPayload;
use vstd::prelude::*;

verus! {

/// How the panel is mounted.
#[derive(Clone, Copy, Debug, PartialEq, Eq, Structural)]
pub enum DisplayRotation {
    Portrait,
    Landscape,
    PortraitFlipped,
    LandscapeFlipped,
}

/// A rectangle on the canvas.
#[derive(Clone, Copy, Debug, PartialEq, Eq, Structural)]
pub struct Rect {
    pub x: u16,
    pub y: u16,
    pub w: u16,
    pub h: u16,
}

/// Why a driver could not do what it was asked.
#[derive(Clone, Copy, Debug, PartialEq, Eq, Structural)]
pub enum DriverError {
    NotReady,
    Bus,
    OutOfBounds,
}

/// A display that can be initialised, dimmed and painted by region.
pub trait DisplayDriver {
    fn init(&mut self) -> Result<(), DriverError>;

    fn set_brightness(&mut self, level: u8) -> Result<(), DriverError>;

    fn flush_region(&mut self, region: Rect, pixels: &[u8]) -> Result<(), DriverError>;

    fn width(&self) -> u16;

    fn height(&self) -> u16;
}

/// A source of raw touch samples: each call produces the batch of samples
/// that arrived since the last one.
pub trait TouchDriver {
    /// Whether `batch` is what this driver, as it stands, hands out at its
    /// next read. A driver that says nothing of its reads leaves this as it
    /// is.
    open spec fn produces(&self, batch: Seq<TouchEventPayload>) -> bool {
        true
    }

    fn read_batch(&mut self) -> (batch: Vec<TouchEventPayload>)
        ensures
            old(self).produces(batch@),
    ;
}

/// A touch source for the host: it produces the samples that were pushed
/// into it, in the order in which they were pushed.
pub struct HostTouchDriver {
    pending: Vec<TouchEventPayload>,
}

impl View for HostTouchDriver {
    type V = Seq<TouchEventPayload>;

    closed spec fn view(&self) -> Seq<TouchEventPayload> {
        self.pending@
    }
}

impl HostTouchDriver {
    pub fn new() -> (driver: Self)
        ensures
            driver@ == Seq::<TouchEventPayload>::empty(),
    {
        HostTouchDriver { pending: Vec::new() }
    }

    /// Queues `payload` for the next batch.
    pub fn push_payload(&mut self, payload: TouchEventPayload)
        ensures
            final(self)@ == old(self)@.push(payload),
    {
        self.pending.push(payload);
    }
}

impl TouchDriver for HostTouchDriver {
    /// The host driver hands out exactly the samples that were pushed into
    /// it since the last read.
    open spec fn produces(&self, batch: Seq<TouchEventPayload>) -> bool {
        batch == self@
    }

    fn read_batch(&mut self) -> (batch: Vec<TouchEventPayload>)
        ensures
            batch@ == old(self)@,
            final(self)@ == Seq::<TouchEventPayload>::empty(),
    {
        let mut batch: Vec<TouchEventPayload> = Vec::new();
        core::mem::swap(&mut self.pending, &mut batch);
        batch
    }
}

/// A display for the host: it remembers its size, whether it was
/// initialised, its brightness and how many regions were painted, and
/// paints nothing.
pub struct HostDisplayDriver {
    width: u16,
    height: u16,
    ready: bool,
    brightness: u8,
    flushes: u64,
}

/// What a [`HostDisplayDriver`] holds.
pub struct HostDisplayModel {
    pub width: u16,
    pub height: u16,
    pub ready: bool,
    pub brightness: u8,
    pub flushes: u64,
}

impl HostDisplayModel {
    /// A panel of this size before it is initialised: dark, nothing
    /// painted.
    pub open spec fn fresh(width: u16, height: u16) -> HostDisplayModel {
        HostDisplayModel { width, height, ready: false, brightness: 0, flushes: 0 }
    }

    /// Whether `region` lies on the panel.
    pub open spec fn holds(self, region: Rect) -> bool {
        region.x + region.w <= self.width && region.y + region.h <= self.height
    }

    /// What painting `region` answers: a panel that is not initialised
    /// refuses every region, an initialised one refuses a region that
    /// reaches beyond it.
    pub open spec fn flush_outcome(self, region: Rect) -> Result<(), DriverError> {
        if !self.ready {
            Err(DriverError::NotReady)
        } else if !self.holds(region) {
            Err(DriverError::OutOfBounds)
        } else {
            Ok(())
        }
    }

    /// The panel after it was asked to paint `region`: a painted region is
    /// counted, a refused one changes nothing.
    pub open spec fn flushed(self, region: Rect) -> HostDisplayModel {
        if self.flush_outcome(region) is Ok {
            HostDisplayModel { flushes: saturating_succ_u64(self.flushes), ..self }
        } else {
            self
        }
    }
}

impl View for HostDisplayDriver {
    type V = HostDisplayModel;

    closed spec fn view(&self) -> HostDisplayModel {
        HostDisplayModel {
            width: self.width,
            height: self.height,
            ready: self.ready,
            brightness: self.brightness,
            flushes: self.flushes,
        }
    }
}

impl HostDisplayDriver {
    pub fn new(width: u16, height: u16) -> (driver: Self)
        ensures
            driver@ == HostDisplayModel::fresh(width, height),
    {
        HostDisplayDriver { width, height, ready: false, brightness: 0, flushes: 0 }
    }

    /// Whether the panel was initialised.
    pub fn is_ready(&self) -> (ready: bool)
        ensures
            ready == self@.ready,
    {
        self.ready
    }

    /// The brightness that was set last.
    pub fn brightness(&self) -> (level: u8)
        ensures
            level == self@.brightness,
    {
        self.brightness
    }

    /// How many regions were painted so far.
    pub fn flushes(&self) -> (count: u64)
        ensures
            count == self@.flushes,
    {
        self.flushes
    }
}

impl DisplayDriver for HostDisplayDriver {
    /// Makes the panel ready to be painted; nothing else changes.
    fn init(&mut self) -> (done: Result<(), DriverError>)
        ensures
            done == Ok::<(), DriverError>(()),
            final(self)@ == (HostDisplayModel { ready: true, ..old(self)@ }),
    {
        self.ready = true;
        Ok(())
    }

    /// Sets the brightness to `level`; nothing else changes.
    fn set_brightness(&mut self, level: u8) -> (done: Result<(), DriverError>)
        ensures
            done == Ok::<(), DriverError>(()),
            final(self)@ == (HostDisplayModel { brightness: level, ..old(self)@ }),
    {
        self.brightness = level;
        Ok(())
    }

    /// Counts a region that lies on the panel as painted; refuses one that
    /// does not, and every region before the panel is initialised.
    fn flush_region(&mut self, region: Rect, pixels: &[u8]) -> (done: Result<(), DriverError>)
        ensures
            done == old(self)@.flush_outcome(region),
            final(self)@ == old(self)@.flushed(region),
    {
        if !self.ready {
            return Err(DriverError::NotReady);
        }
        if region.x as u32 + region.w as u32 > self.width as u32 || region.y as u32 + region.h as u32
            > self.height as u32 {
            return Err(DriverError::OutOfBounds);
        }
        if self.flushes < u64::MAX {
            self.flushes = self.flushes + 1;
        }
        Ok(())
    }

    fn width(&self) -> (width: u16)
        ensures
            width == self@.width,
    {
        self.width
    }

    fn height(&self) -> (height: u16)
        ensures
            height == self@.height,
    {
        self.height
    }
}

} // verus!
