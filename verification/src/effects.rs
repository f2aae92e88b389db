//! Display-effect vocabulary of the panel: entry and exit effects, the
//! waiting mode and speed, and the waiting time, each with its fixed
//! wire character. The tables are total: every variant has exactly one
//! wire byte, stated by a spec function next to the variant list.

use vstd::prelude::*;

verus! {

/// Leading effects: how content appears on the panel when first displayed.
#[derive(Clone, Copy, Debug, PartialEq, Eq, Structural)]
pub enum Leading {
    /// 8-pixel-wide display blocks move in from right to left one by one.
    BlockMove,
    /// Image is shown line by line from top to bottom.
    CurtainDown,
    /// Image is shown line by line from bottom to top.
    CurtainUp,
    /// The previous screen is kept.
    Hold,
    /// Image appears immediately.
    Immediate,
    /// Pen writing 'Amplus'.
    PenAmplus,
    /// Pen writing 'Hello World'.
    PenHelloWorld,
    /// Pen writing 'Welcome'.
    PenWelcome,
    /// Random pixels appear and build up the image.
    Random,
    /// Image scrolls in from top to bottom.
    ScrollDown,
    /// Image scrolls in from right to left.
    ScrollLeft,
    /// Image scrolls in from left to right.
    ScrollRight,
    /// Image scrolls in from bottom to top.
    ScrollUp,
    /// Pixels drop down from the top and stack up to build the image.
    Snow,
    /// A blank diagonal line scrolls over the image.
    Twinkle,
    /// Image is shown from top and bottom towards the center line by line.
    Vclose,
    /// Image is shown from the center towards top and bottom line by line.
    Vopen,
    /// Image is shown from the center and extends to all four sides.
    Xopen,
}

/// The fixed wire character of each leading effect, as a byte.
pub open spec fn leading_wire(l: Leading) -> u8 {
    match l {
        Leading::Immediate => 0x41,  // A
        Leading::Xopen => 0x42,  // B
        Leading::CurtainUp => 0x43,  // C
        Leading::CurtainDown => 0x44,  // D
        Leading::ScrollLeft => 0x45,  // E
        Leading::ScrollRight => 0x46,  // F
        Leading::Vopen => 0x47,  // G
        Leading::Vclose => 0x48,  // H
        Leading::ScrollUp => 0x49,  // I
        Leading::ScrollDown => 0x4A,  // J
        Leading::Hold => 0x4B,  // K
        Leading::Snow => 0x4C,  // L
        Leading::Twinkle => 0x4D,  // M
        Leading::BlockMove => 0x4E,  // N
        Leading::Random => 0x50,  // P
        Leading::PenHelloWorld => 0x51,  // Q
        Leading::PenWelcome => 0x52,  // R
        Leading::PenAmplus => 0x53,  // S
    }
}

impl Leading {
    /// The wire character sent for this effect.
    pub fn wire_byte(&self) -> (r: u8)
        ensures
            r == leading_wire(*self),
    {
        match self {
            Leading::Immediate => 0x41,
            Leading::Xopen => 0x42,
            Leading::CurtainUp => 0x43,
            Leading::CurtainDown => 0x44,
            Leading::ScrollLeft => 0x45,
            Leading::ScrollRight => 0x46,
            Leading::Vopen => 0x47,
            Leading::Vclose => 0x48,
            Leading::ScrollUp => 0x49,
            Leading::ScrollDown => 0x4A,
            Leading::Hold => 0x4B,
            Leading::Snow => 0x4C,
            Leading::Twinkle => 0x4D,
            Leading::BlockMove => 0x4E,
            Leading::Random => 0x50,
            Leading::PenHelloWorld => 0x51,
            Leading::PenWelcome => 0x52,
            Leading::PenAmplus => 0x53,
        }
    }
}

impl Default for Leading {
    /// Content appears immediately unless asked otherwise.
    fn default() -> (r: Self)
        ensures
            r == Leading::Immediate,
    {
        Leading::Immediate
    }
}

/// Lagging effects: how content disappears from the panel when removed.
#[derive(Clone, Copy, Debug, PartialEq, Eq, Structural)]
pub enum Lagging {
    /// Image disappears line by line from top to bottom.
    CurtainDown,
    /// Image disappears line by line from bottom to top.
    CurtainUp,
    /// The screen is kept.
    Hold,
    /// Image disappears immediately.
    Immediate,
    /// Image scrolls out towards the bottom.
    ScrollDown,
    /// Image scrolls out to the left.
    ScrollLeft,
    /// Image scrolls out to the right.
    ScrollRight,
    /// Image scrolls out towards the top.
    ScrollUp,
    /// Image disappears from top and bottom towards the center.
    Vclose,
    /// Image disappears from the center towards top and bottom.
    Vopen,
    /// Image disappears from the center towards all four sides.
    Xopen,
}

/// The fixed wire character of each lagging effect, as a byte.
pub open spec fn lagging_wire(l: Lagging) -> u8 {
    match l {
        Lagging::Immediate => 0x41,  // A
        Lagging::Xopen => 0x42,  // B
        Lagging::CurtainUp => 0x43,  // C
        Lagging::CurtainDown => 0x44,  // D
        Lagging::ScrollLeft => 0x45,  // E
        Lagging::ScrollRight => 0x46,  // F
        Lagging::Vopen => 0x47,  // G
        Lagging::Vclose => 0x48,  // H
        Lagging::ScrollUp => 0x49,  // I
        Lagging::ScrollDown => 0x4A,  // J
        Lagging::Hold => 0x4B,  // K
    }
}

impl Lagging {
    /// The wire character sent for this effect.
    pub fn wire_byte(&self) -> (r: u8)
        ensures
            r == lagging_wire(*self),
    {
        match self {
            Lagging::Immediate => 0x41,
            Lagging::Xopen => 0x42,
            Lagging::CurtainUp => 0x43,
            Lagging::CurtainDown => 0x44,
            Lagging::ScrollLeft => 0x45,
            Lagging::ScrollRight => 0x46,
            Lagging::Vopen => 0x47,
            Lagging::Vclose => 0x48,
            Lagging::ScrollUp => 0x49,
            Lagging::ScrollDown => 0x4A,
            Lagging::Hold => 0x4B,
        }
    }
}

impl Default for Lagging {
    /// The screen is kept unless asked otherwise.
    fn default() -> (r: Self)
        ensures
            r == Lagging::Hold,
    {
        Lagging::Hold
    }
}

/// Behaviour while a page is being displayed: one of four speed tiers,
/// each steady, blinking, or playing one of three pre-defined songs.
#[derive(Clone, Copy, Debug, PartialEq, Eq, Structural)]
pub enum WaitingModeAndSpeed {
    /// Blinking display at the fastest speed.
    FastestBlinking,
    /// Steady display at the fastest speed.
    FastestNormal,
    /// Pre-defined song 1 at the fastest speed.
    FastestSong1,
    /// Pre-defined song 2 at the fastest speed.
    FastestSong2,
    /// Pre-defined song 3 at the fastest speed.
    FastestSong3,
    /// Blinking display at the middle-fast speed.
    MiddleFastBlinking,
    /// Steady display at the middle-fast speed.
    MiddleFastNormal,
    /// Pre-defined song 1 at the middle-fast speed.
    MiddleFastSong1,
    /// Pre-defined song 2 at the middle-fast speed.
    MiddleFastSong2,
    /// Pre-defined song 3 at the middle-fast speed.
    MiddleFastSong3,
    /// Blinking display at the middle-slow speed.
    MiddleSlowBlinking,
    /// Steady display at the middle-slow speed.
    MiddleSlowNormal,
    /// Pre-defined song 1 at the middle-slow speed.
    MiddleSlowSong1,
    /// Pre-defined song 2 at the middle-slow speed.
    MiddleSlowSong2,
    /// Pre-defined song 3 at the middle-slow speed.
    MiddleSlowSong3,
    /// Blinking display at the slowest speed.
    SlowestBlinking,
    /// Steady display at the slowest speed.
    SlowestNormal,
    /// Pre-defined song 1 at the slowest speed.
    SlowestSong1,
    /// Pre-defined song 2 at the slowest speed.
    SlowestSong2,
    /// Pre-defined song 3 at the slowest speed.
    SlowestSong3,
}

/// The fixed wire character of each waiting mode and speed, as a byte.
/// The tiers map to the letter groups A-E, Q-U, a-e and q-u.
pub open spec fn waiting_wire(w: WaitingModeAndSpeed) -> u8 {
    match w {
        WaitingModeAndSpeed::FastestNormal => 0x41,  // A
        WaitingModeAndSpeed::FastestBlinking => 0x42,  // B
        WaitingModeAndSpeed::FastestSong1 => 0x43,  // C
        WaitingModeAndSpeed::FastestSong2 => 0x44,  // D
        WaitingModeAndSpeed::FastestSong3 => 0x45,  // E
        WaitingModeAndSpeed::MiddleFastNormal => 0x51,  // Q
        WaitingModeAndSpeed::MiddleFastBlinking => 0x52,  // R
        WaitingModeAndSpeed::MiddleFastSong1 => 0x53,  // S
        WaitingModeAndSpeed::MiddleFastSong2 => 0x54,  // T
        WaitingModeAndSpeed::MiddleFastSong3 => 0x55,  // U
        WaitingModeAndSpeed::MiddleSlowNormal => 0x61,  // a
        WaitingModeAndSpeed::MiddleSlowBlinking => 0x62,  // b
        WaitingModeAndSpeed::MiddleSlowSong1 => 0x63,  // c
        WaitingModeAndSpeed::MiddleSlowSong2 => 0x64,  // d
        WaitingModeAndSpeed::MiddleSlowSong3 => 0x65,  // e
        WaitingModeAndSpeed::SlowestNormal => 0x71,  // q
        WaitingModeAndSpeed::SlowestBlinking => 0x72,  // r
        WaitingModeAndSpeed::SlowestSong1 => 0x73,  // s
        WaitingModeAndSpeed::SlowestSong2 => 0x74,  // t
        WaitingModeAndSpeed::SlowestSong3 => 0x75,  // u
    }
}

impl WaitingModeAndSpeed {
    /// The wire character sent for this mode and speed.
    pub fn wire_byte(&self) -> (r: u8)
        ensures
            r == waiting_wire(*self),
    {
        match self {
            WaitingModeAndSpeed::FastestNormal => 0x41,
            WaitingModeAndSpeed::FastestBlinking => 0x42,
            WaitingModeAndSpeed::FastestSong1 => 0x43,
            WaitingModeAndSpeed::FastestSong2 => 0x44,
            WaitingModeAndSpeed::FastestSong3 => 0x45,
            WaitingModeAndSpeed::MiddleFastNormal => 0x51,
            WaitingModeAndSpeed::MiddleFastBlinking => 0x52,
            WaitingModeAndSpeed::MiddleFastSong1 => 0x53,
            WaitingModeAndSpeed::MiddleFastSong2 => 0x54,
            WaitingModeAndSpeed::MiddleFastSong3 => 0x55,
            WaitingModeAndSpeed::MiddleSlowNormal => 0x61,
            WaitingModeAndSpeed::MiddleSlowBlinking => 0x62,
            WaitingModeAndSpeed::MiddleSlowSong1 => 0x63,
            WaitingModeAndSpeed::MiddleSlowSong2 => 0x64,
            WaitingModeAndSpeed::MiddleSlowSong3 => 0x65,
            WaitingModeAndSpeed::SlowestNormal => 0x71,
            WaitingModeAndSpeed::SlowestBlinking => 0x72,
            WaitingModeAndSpeed::SlowestSong1 => 0x73,
            WaitingModeAndSpeed::SlowestSong2 => 0x74,
            WaitingModeAndSpeed::SlowestSong3 => 0x75,
        }
    }
}

impl Default for WaitingModeAndSpeed {
    /// A steady display at the fastest speed unless asked otherwise.
    fn default() -> (r: Self)
        ensures
            r == WaitingModeAndSpeed::FastestNormal,
    {
        WaitingModeAndSpeed::FastestNormal
    }
}

/// The waiting time between the leading and the lagging effect, in
/// half-second steps: 0 means 0.5 s, the maximum of 25 means 12.5 s.
#[derive(Clone, Copy, Debug, PartialEq, Eq, Structural)]
pub struct WaitingTime(u8);

/// The largest waiting-time step the panel accepts.
pub const MAX_WAITING_TIME: u8 = 25;

impl WaitingTime {
    /// The step count held by this waiting time, always at most 25.
    pub closed spec fn value(self) -> u8 {
        self.0
    }

    /// The step count never exceeds the panel's maximum.
    #[verifier::type_invariant]
    spec fn bounded(self) -> bool {
        self.0 <= MAX_WAITING_TIME
    }

    /// Builds a waiting time from a step count, saturating at the maximum
    /// of 25.
    pub fn new(value: u8) -> (r: Self)
        ensures
            r.value() == if value >= MAX_WAITING_TIME {
                MAX_WAITING_TIME
            } else {
                value
            },
            r.value() <= MAX_WAITING_TIME,
    {
        if value >= MAX_WAITING_TIME {
            WaitingTime(MAX_WAITING_TIME)
        } else {
            WaitingTime(value)
        }
    }

    /// The step count as a plain number.
    pub fn steps(&self) -> (r: u8)
        ensures
            r == self.value(),
            r <= MAX_WAITING_TIME,
    {
        proof {
            use_type_invariant(self);
        }
        self.0
    }

    /// The wire character sent for this waiting time: the letter `A`
    /// shifted by the step count.
    pub fn wire_byte(&self) -> (r: u8)
        ensures
            r == 0x41 + self.value(),
            r <= 0x5A,
    {
        proof {
            use_type_invariant(self);
        }
        0x41 + self.0
    }
}

/// Two waiting times with the same step count are the same value.
pub proof fn lemma_waiting_time_eq(a: WaitingTime, b: WaitingTime)
    requires
        a.value() == b.value(),
    ensures
        a == b,
{
}

impl Default for WaitingTime {
    /// Half a second unless asked otherwise.
    fn default() -> (r: Self)
        ensures
            r.value() == 0,
    {
        WaitingTime(0)
    }
}

} // verus!
