//! What the redraw loop puts on the screen, as far as it is computed from the
//! view state: the title of the input box with its busy indicator, the place
//! of the cursor, and the texts of the cells of a row.

use crate::search::Package;
use crate::state::{State, StateView, SPINNER_FRAMES};
use crate::trusted::{display_width, utc_display, utc_text, width_of};
use vstd::prelude::*;
use vstd::string::StringExecFns;

verus! {

/// The frames of the busy indicator, in the order in which they are drawn.
pub open spec fn spinner_glyph(frame: nat) -> char {
    if frame == 0 {
        '\u{28FE}'
    } else if frame == 1 {
        '\u{28FD}'
    } else if frame == 2 {
        '\u{28FB}'
    } else if frame == 3 {
        '\u{28BF}'
    } else if frame == 4 {
        '\u{287F}'
    } else if frame == 5 {
        '\u{28DF}'
    } else if frame == 6 {
        '\u{28EF}'
    } else {
        '\u{28F7}'
    }
}

/// The frame of the busy indicator with the given number.
pub fn spinner_frame(frame: usize) -> (glyph: char)
    requires
        frame < SPINNER_FRAMES,
    ensures
        glyph == spinner_glyph(frame as nat),
{
    if frame == 0 {
        '\u{28FE}'
    } else if frame == 1 {
        '\u{28FD}'
    } else if frame == 2 {
        '\u{28FB}'
    } else if frame == 3 {
        '\u{28BF}'
    } else if frame == 4 {
        '\u{287F}'
    } else if frame == 5 {
        '\u{28DF}'
    } else if frame == 6 {
        '\u{28EF}'
    } else {
        '\u{28F7}'
    }
}

/// The title of the input box: its name, and while a lookup is in flight a
/// space and the present frame of the busy indicator.
pub open spec fn title_of(v: StateView) -> Seq<char> {
    if v.pending > 0 {
        "Search"@ + seq![' ', spinner_glyph(v.spinner)]
    } else {
        "Search"@
    }
}

/// The frame that is drawn at the next redraw: the one after the present
/// frame, the first after the last, while a lookup is in flight; the first
/// frame when none is.
pub open spec fn spinner_after(v: StateView) -> nat {
    if v.pending > 0 {
        (v.spinner + 1) % (SPINNER_FRAMES as nat)
    } else {
        0
    }
}

/// Whether the cursor has a place on the screen behind a text of `width`
/// columns, in an input box whose corner is at `left` and `top`. The width
/// counts modulo 65536.
pub open spec fn cursor_fits(left: u16, top: u16, width: usize) -> bool {
    left + width % 0x1_0000 + 1 <= u16::MAX && top + 1 <= u16::MAX
}

/// The column and the row of the cursor: inside the border of the input box,
/// behind the text.
pub open spec fn cursor_of(left: u16, top: u16, width: usize) -> (u16, u16) {
    ((left + width % 0x1_0000 + 1) as u16, (top + 1) as u16)
}

/// The place of the cursor behind a text of `width` columns.
pub fn cursor_at(left: u16, top: u16, width: usize) -> (at: (u16, u16))
    requires
        cursor_fits(left, top, width),
    ensures
        at == cursor_of(left, top, width),
{
    let columns = (width % 0x1_0000) as u16;
    (left + columns + 1, top + 1)
}

impl State {
    /// The title of the input box for this redraw. Each call moves the busy
    /// indicator on by one frame while a lookup is in flight, and back to its
    /// first frame when none is.
    pub fn input_title(&mut self) -> (title: String)
        requires
            old(self).pending_searches > 0 ==> old(self).spinner_index < SPINNER_FRAMES,
        ensures
            title@ == title_of(old(self)@),
            final(self)@ == (StateView { spinner: spinner_after(old(self)@), ..old(self)@ }),
            final(self).spinner_index < SPINNER_FRAMES,
    {
        let mut title = String::from_str("Search");
        if self.pending_searches > 0 {
            let frame = self.spinner_index;
            title.push(' ');
            title.push(spinner_frame(frame));
            self.spinner_index = (frame + 1) % SPINNER_FRAMES;
        } else if self.spinner_index > 0 {
            self.spinner_index = 0;
        }
        title
    }

    /// The place of the cursor behind the live query, in an input box whose
    /// corner is at `left` and `top`; `None` where it would lie off the screen.
    pub fn input_cursor(&self, left: u16, top: u16) -> (at: Option<(u16, u16)>)
        ensures
            at == if cursor_fits(left, top, display_width(self.input@)) {
                Some(cursor_of(left, top, display_width(self.input@)))
            } else {
                None
            },
    {
        let width = width_of(self.input.as_str());
        let columns = (width % 0x1_0000) as u16;
        if top < u16::MAX && columns < u16::MAX && left <= u16::MAX - 1 - columns {
            Some(cursor_at(left, top, width))
        } else {
            None
        }
    }
}

impl Package {
    /// The text of the description cell: the description, or nothing where
    /// the record has none.
    pub fn description_text(&self) -> (text: String)
        ensures
            text@ == match self.description {
                Some(description) => description@,
                None => Seq::<char>::empty(),
            },
    {
        match &self.description {
            Some(description) => description.clone(),
            None => String::new(),
        }
    }

    /// The text of the cell that says when the record was last modified: the
    /// UTC time, or `None` for a timestamp that is no time.
    pub fn last_modified_text(&self) -> (text: Option<String>)
        ensures
            match text {
                Some(written) => utc_display(self.last_modified) == Some(written@),
                None => utc_display(self.last_modified).is_none(),
            },
    {
        utc_text(self.last_modified)
    }
}

} // verus!
