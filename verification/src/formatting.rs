//! In-message formatting inserts: font selection, column positioning,
//! and the panel's built-in clock display, each a fixed byte sequence
//! that can be embedded in a page's message text.

use vstd::prelude::*;

use crate::codec::two_hex;

verus! {

/// Font sizes available for text on the LED panel.
#[derive(Clone, Copy, Debug, PartialEq, Eq, Structural)]
pub enum Font {
    /// Normal size (5x7).
    Normal,
    /// Bold size (6x7).
    Bold,
    /// Narrow size (4x7).
    Narrow,
    /// Large size (7x13), for displays 16 pixels high or more.
    Large,
    /// Long size (5x8), only for displays more than 7 pixels high.
    Long,
}

/// The fixed insert of each font: `<AA>` through `<AE>`.
pub open spec fn font_insert(f: Font) -> Seq<u8> {
    match f {
        Font::Normal => seq![0x3Cu8, 0x41u8, 0x41u8, 0x3Eu8],  // <AA>
        Font::Bold => seq![0x3Cu8, 0x41u8, 0x42u8, 0x3Eu8],  // <AB>
        Font::Narrow => seq![0x3Cu8, 0x41u8, 0x43u8, 0x3Eu8],  // <AC>
        Font::Large => seq![0x3Cu8, 0x41u8, 0x44u8, 0x3Eu8],  // <AD>
        Font::Long => seq![0x3Cu8, 0x41u8, 0x45u8, 0x3Eu8],  // <AE>
    }
}

impl Font {
    /// The four insert bytes for this font.
    pub fn insert_bytes(&self) -> (r: Vec<u8>)
        ensures
            r@ == font_insert(*self),
    {
        let mut out: Vec<u8> = Vec::new();
        out.push(0x3C);
        out.push(0x41);
        out.push(match self {
            Font::Normal => 0x41,
            Font::Bold => 0x42,
            Font::Narrow => 0x43,
            Font::Large => 0x44,
            Font::Long => 0x45,
        });
        out.push(0x3E);
        proof {
            assert(out@ =~= font_insert(*self));
        }
        out
    }
}

/// The starting column for the text that follows: `<N{column:02X}>`.
#[derive(Clone, Copy, Debug, PartialEq, Eq, Structural)]
pub struct ColumnStart(pub u8);

/// The fixed insert of a column start.
pub open spec fn column_start_insert(c: ColumnStart) -> Seq<u8> {
    seq![0x3Cu8, 0x4Eu8] + two_hex(c.0) + seq![0x3Eu8]
}

impl ColumnStart {
    /// The five insert bytes for this column start.
    pub fn insert_bytes(&self) -> (r: Vec<u8>)
        ensures
            r@ == column_start_insert(*self),
    {
        let mut out: Vec<u8> = Vec::new();
        out.push(0x3C);
        out.push(0x4E);
        let hi = self.0 / 16;
        let lo = self.0 % 16;
        out.push(if hi < 10 {
            0x30 + hi
        } else {
            0x41 + (hi - 10)
        });
        out.push(if lo < 10 {
            0x30 + lo
        } else {
            0x41 + (lo - 10)
        });
        out.push(0x3E);
        proof {
            assert(out@ =~= column_start_insert(*self));
        }
        out
    }
}

/// Clock display formats for the LED panel.
#[derive(Clone, Copy, Debug, PartialEq, Eq, Structural)]
pub enum Clock {
    /// Date in the format [DD/MM/YY].
    Date,
    /// Time in the format [hh:mm].
    Time,
}

/// The fixed insert of each clock display: `<KD>` or `<KT>`.
pub open spec fn clock_insert(c: Clock) -> Seq<u8> {
    match c {
        Clock::Date => seq![0x3Cu8, 0x4Bu8, 0x44u8, 0x3Eu8],  // <KD>
        Clock::Time => seq![0x3Cu8, 0x4Bu8, 0x54u8, 0x3Eu8],  // <KT>
    }
}

impl Clock {
    /// The four insert bytes for this clock display.
    pub fn insert_bytes(&self) -> (r: Vec<u8>)
        ensures
            r@ == clock_insert(*self),
    {
        let mut out: Vec<u8> = Vec::new();
        out.push(0x3C);
        out.push(0x4B);
        out.push(match self {
            Clock::Date => 0x44,
            Clock::Time => 0x54,
        });
        out.push(0x3E);
        proof {
            assert(out@ =~= clock_insert(*self));
        }
        out
    }
}

} // verus!
