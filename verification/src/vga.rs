//! VGA output: the 80x25 text screen with its scrolling, the colour tags
//! that log lines carry, and the 320x200 256-colour graphics mode.
use crate::io::PortOp;
use vstd::slice::slice_subrange;
use vstd::prelude::*;
use vstd::string::StringSliceAdditionalSpecFns;

verus! {

/// Columns of the text screen.
pub const BUFFER_WIDTH: usize = 80;

/// Rows of the text screen.
pub const BUFFER_HEIGHT: usize = 25;

/// Cells of the text screen.
pub const BUFFER_CELLS: usize = 2000;

/// A blank cell: a space with no colour attribute.
pub const BLANK: u16 = 0x20;

/// The sixteen text colours.
#[derive(Debug, Clone, Copy, PartialEq, Eq, Structural)]
pub enum Color {
    Black,
    Blue,
    Green,
    Cyan,
    Red,
    Magenta,
    Brown,
    LightGray,
    DarkGray,
    LightBlue,
    LightGreen,
    LightCyan,
    LightRed,
    Pink,
    Yellow,
    White,
}

/// The palette index of a colour.
pub open spec fn color_code(c: Color) -> u8 {
    match c {
        Color::Black => 0u8,
        Color::Blue => 1u8,
        Color::Green => 2u8,
        Color::Cyan => 3u8,
        Color::Red => 4u8,
        Color::Magenta => 5u8,
        Color::Brown => 6u8,
        Color::LightGray => 7u8,
        Color::DarkGray => 8u8,
        Color::LightBlue => 9u8,
        Color::LightGreen => 10u8,
        Color::LightCyan => 11u8,
        Color::LightRed => 12u8,
        Color::Pink => 13u8,
        Color::Yellow => 14u8,
        Color::White => 15u8,
    }
}

/// The colours are the VGA text-mode palette: black 0, blue 1, green 2,
/// cyan 3, red 4, magenta 5, brown 6, light gray 7, and their bright forms
/// 8 to 15 (dark gray, light blue, light green, light cyan, light red,
/// pink, yellow, white), each eight above its dark form; no two colours
/// share an index.
pub proof fn lemma_vga_palette()
    ensures
        color_code(Color::Black) == 0,
        color_code(Color::Blue) == 1,
        color_code(Color::Green) == 2,
        color_code(Color::Cyan) == 3,
        color_code(Color::Red) == 4,
        color_code(Color::Magenta) == 5,
        color_code(Color::Brown) == 6,
        color_code(Color::LightGray) == 7,
        color_code(Color::DarkGray) == 8,
        color_code(Color::LightBlue) == 9,
        color_code(Color::LightGreen) == 10,
        color_code(Color::LightCyan) == 11,
        color_code(Color::LightRed) == 12,
        color_code(Color::Pink) == 13,
        color_code(Color::Yellow) == 14,
        color_code(Color::White) == 15,
        forall|a: Color, b: Color| #[trigger] color_code(a) == #[trigger] color_code(b) ==> a == b,
{
}

/// A character cell holds the character in its low byte, the foreground's
/// palette index in bits 8 to 11 and the background's in bits 12 to 15.
pub proof fn lemma_cell_layout(ch: u8, fg: Color, bg: Color)
    ensures
        cell(ch, fg, bg) as u8 == ch,
        (cell(ch, fg, bg) >> 8u16) & 0xF == color_code(fg),
        cell(ch, fg, bg) >> 12u16 == color_code(bg),
{
    lemma_vga_palette();
    let f = color_code(fg) as u16;
    let b = color_code(bg) as u16;
    let c = cell(ch, fg, bg);
    assert(c == ch as u16 + 256 * (f + 16 * b));
    let chv = ch as u16;
    assert(c as u8 == chv as u8 && (c >> 8u16) & 0xF == f && c >> 12u16 == b) by (bit_vector)
        requires
            chv < 256,
            f < 16,
            b < 16,
            c == chv + 256 * (f + 16 * b),
    ;
}

impl Color {
    /// The palette index.
    pub fn value(self) -> (r: u8)
        ensures
            r == color_code(self),
            r < 16,
    {
        match self {
            Color::Black => 0,
            Color::Blue => 1,
            Color::Green => 2,
            Color::Cyan => 3,
            Color::Red => 4,
            Color::Magenta => 5,
            Color::Brown => 6,
            Color::LightGray => 7,
            Color::DarkGray => 8,
            Color::LightBlue => 9,
            Color::LightGreen => 10,
            Color::LightCyan => 11,
            Color::LightRed => 12,
            Color::Pink => 13,
            Color::Yellow => 14,
            Color::White => 15,
        }
    }
}

/// The screen cell for a character: the character in the low byte, the
/// foreground colour in bits 8-11 and the background in bits 12-15.
pub open spec fn cell(ch: u8, fg: Color, bg: Color) -> u16 {
    (ch as int + 256 * (color_code(fg) as int + 16 * color_code(bg) as int)) as u16
}

/// The screen scrolled up one row: the top row goes, the others move up,
/// and the bottom row is blank.
pub open spec fn scrolled(cells: Seq<u16>) -> Seq<u16> {
    Seq::new(
        BUFFER_CELLS as nat,
        |i: int|
            if i < (BUFFER_CELLS - BUFFER_WIDTH) as int {
                cells[i + BUFFER_WIDTH]
            } else {
                BLANK
            },
    )
}

/// The screen and the output column after writing one byte: a newline
/// scrolls; another byte goes to the bottom row at the column, after a
/// scroll when the row is full.
pub open spec fn screen_after(cells: Seq<u16>, col: int, ch: u8, fg: Color, bg: Color) -> (
    Seq<u16>,
    int,
) {
    if ch == 10 {
        (scrolled(cells), 0)
    } else {
        let (c, k) = if col >= BUFFER_WIDTH {
            (scrolled(cells), 0int)
        } else {
            (cells, col)
        };
        (c.update((BUFFER_CELLS - BUFFER_WIDTH) + k, cell(ch, fg, bg)), k + 1)
    }
}

/// The screen and column after writing bytes in order, all with the same
/// colours.
pub open spec fn screen_after_bytes(
    cells: Seq<u16>,
    col: int,
    bytes: Seq<u8>,
    fg: Color,
    bg: Color,
) -> (Seq<u16>, int)
    decreases bytes.len(),
{
    if bytes.len() == 0 {
        (cells, col)
    } else {
        let (c, k) = screen_after_bytes(cells, col, bytes.drop_last(), fg, bg);
        screen_after(c, k, bytes.last(), fg, bg)
    }
}

/// The screen and column after writing coloured bytes in order on black.
pub open spec fn screen_after_writes(screen: (Seq<u16>, int), writes: Seq<(u8, Color)>) -> (
    Seq<u16>,
    int,
)
    decreases writes.len(),
{
    if writes.len() == 0 {
        screen
    } else {
        let (c, k) = screen_after_writes(screen, writes.drop_last());
        screen_after(c, k, writes.last().0, writes.last().1, Color::Black)
    }
}

/// Writing two runs of coloured bytes one after the other is writing their
/// concatenation.
pub proof fn lemma_screen_after_writes_append(
    screen: (Seq<u16>, int),
    a: Seq<(u8, Color)>,
    b: Seq<(u8, Color)>,
)
    ensures
        screen_after_writes(screen, a + b) == screen_after_writes(
            screen_after_writes(screen, a),
            b,
        ),
    decreases b.len(),
{
    if b.len() == 0 {
        assert(a + b =~= a);
    } else {
        assert((a + b).drop_last() =~= a + b.drop_last());
        lemma_screen_after_writes_append(screen, a, b.drop_last());
    }
}

/// The text screen: its 2000 cells, row by row, and the column where the
/// bottom row continues.
pub struct VGATextBuffer {
    col_pos: usize,
    cells: Vec<u16>,
}

impl VGATextBuffer {
    #[verifier::type_invariant]
    closed spec fn inv(self) -> bool {
        self.cells.len() == BUFFER_CELLS && self.col_pos <= BUFFER_WIDTH
    }

    /// The cells, row by row.
    pub closed spec fn spec_cells(&self) -> Seq<u16> {
        self.cells@
    }

    /// The output column on the bottom row.
    pub closed spec fn spec_col(&self) -> int {
        self.col_pos as int
    }

    /// The cells and the output column together.
    pub open spec fn screen(&self) -> (Seq<u16>, int) {
        (self.spec_cells(), self.spec_col())
    }

    /// A screen holding `cells` (row by row), written from the start of the
    /// bottom row.
    pub fn new(cells: Vec<u16>) -> (r: Self)
        requires
            cells.len() == BUFFER_CELLS,
        ensures
            r.spec_cells() == cells@,
            r.spec_col() == 0,
    {
        Self { col_pos: 0, cells }
    }

    /// The cells, row by row, for copying to the screen memory.
    pub fn cells(&self) -> (r: &Vec<u16>)
        ensures
            r@ == self.spec_cells(),
            r@.len() == BUFFER_CELLS,
    {
        proof {
            use_type_invariant(self);
        }
        &self.cells
    }

    /// Writes one byte: a newline starts a new line, anything else goes to
    /// the bottom row in the given colours, wrapping to a new line when the
    /// row is full.
    pub fn write(&mut self, ch: u8, fg: Color, bg: Color)
        ensures
            (final(self).spec_cells(), final(self).spec_col()) == screen_after(
                old(self).spec_cells(),
                old(self).spec_col(),
                ch,
                fg,
                bg,
            ),
    {
        proof {
            use_type_invariant(&*self);
        }
        if ch == 10 {
            self.new_line();
            return;
        }
        if self.col_pos >= BUFFER_WIDTH {
            self.new_line();
        }
        proof {
            use_type_invariant(&*self);
        }
        let col = self.col_pos;
        let f = fg.value() as u16;
        let b = bg.value() as u16;
        let c = ch as u16;
        let color = (b << 4u16) | f;
        let entry = (color << 8u16) | c;
        assert(entry == c + 256 * (f + 16 * b)) by (bit_vector)
            requires
                f < 16,
                b < 16,
                c < 256,
                color == (b << 4u16) | f,
                entry == (color << 8u16) | c,
        ;
        let mut cells = self.cells.clone();
        cells.set(BUFFER_CELLS - BUFFER_WIDTH + col, entry);
        *self = Self { col_pos: col + 1, cells };
    }

    /// Writes the bytes of `s` in order, in the given colours.
    pub fn write_str(&mut self, s: &str, fg: Color, bg: Color)
        ensures
            (final(self).spec_cells(), final(self).spec_col()) == screen_after_bytes(
                old(self).spec_cells(),
                old(self).spec_col(),
                s.spec_bytes(),
                fg,
                bg,
            ),
    {
        let bytes = s.as_bytes();
        let mut i: usize = 0;
        while i < bytes.len()
            invariant
                i <= bytes@.len(),
                bytes@ == s.spec_bytes(),
                (self.spec_cells(), self.spec_col()) == screen_after_bytes(
                    old(self).spec_cells(),
                    old(self).spec_col(),
                    bytes@.subrange(0, i as int),
                    fg,
                    bg,
                ),
            decreases bytes@.len() - i,
        {
            self.write(bytes[i], fg, bg);
            proof {
                assert(bytes@.subrange(0, i + 1).drop_last() == bytes@.subrange(0, i as int));
            }
            i = i + 1;
        }
        proof {
            assert(bytes@.subrange(0, bytes@.len() as int) == bytes@);
        }
    }

    /// Scrolls up one row and returns to the start of the bottom row.
    pub fn new_line(&mut self)
        ensures
            final(self).spec_cells() == scrolled(old(self).spec_cells()),
            final(self).spec_col() == 0,
    {
        proof {
            use_type_invariant(&*self);
        }
        let mut cells: Vec<u16> = Vec::new();
        let mut i: usize = 0;
        while i < BUFFER_CELLS
            invariant
                i <= BUFFER_CELLS,
                self.cells@.len() == BUFFER_CELLS,
                cells@.len() == i,
                forall|j: int| 0 <= j < i ==> #[trigger] cells@[j] == scrolled(self.cells@)[j],
            decreases BUFFER_CELLS - i,
        {
            if i < BUFFER_CELLS - BUFFER_WIDTH {
                cells.push(self.cells[i + BUFFER_WIDTH]);
            } else {
                cells.push(BLANK);
            }
            i = i + 1;
        }
        proof {
            assert(cells@ =~= scrolled(self.cells@));
        }
        *self = Self { col_pos: 0, cells };
    }
}

/// The most bytes a colour tag may hold between `<` and `>`.
pub const MAX_TAG_LEN: usize = 16;

/// The lower-case name of a colour, as written in a tag (ASCII bytes).
pub open spec fn color_name(c: Color) -> Seq<u8> {
    match c {
        Color::Black => seq![0x62u8, 0x6cu8, 0x61u8, 0x63u8, 0x6bu8],
        Color::Blue => seq![0x62u8, 0x6cu8, 0x75u8, 0x65u8],
        Color::Green => seq![0x67u8, 0x72u8, 0x65u8, 0x65u8, 0x6eu8],
        Color::Cyan => seq![0x63u8, 0x79u8, 0x61u8, 0x6eu8],
        Color::Red => seq![0x72u8, 0x65u8, 0x64u8],
        Color::Magenta => seq![0x6du8, 0x61u8, 0x67u8, 0x65u8, 0x6eu8, 0x74u8, 0x61u8],
        Color::Brown => seq![0x62u8, 0x72u8, 0x6fu8, 0x77u8, 0x6eu8],
        Color::LightGray => seq![0x6cu8, 0x69u8, 0x67u8, 0x68u8, 0x74u8, 0x67u8, 0x72u8, 0x61u8, 0x79u8],
        Color::DarkGray => seq![0x64u8, 0x61u8, 0x72u8, 0x6bu8, 0x67u8, 0x72u8, 0x61u8, 0x79u8],
        Color::LightBlue => seq![0x6cu8, 0x69u8, 0x67u8, 0x68u8, 0x74u8, 0x62u8, 0x6cu8, 0x75u8, 0x65u8],
        Color::LightGreen => seq![0x6cu8, 0x69u8, 0x67u8, 0x68u8, 0x74u8, 0x67u8, 0x72u8, 0x65u8, 0x65u8, 0x6eu8],
        Color::LightCyan => seq![0x6cu8, 0x69u8, 0x67u8, 0x68u8, 0x74u8, 0x63u8, 0x79u8, 0x61u8, 0x6eu8],
        Color::LightRed => seq![0x6cu8, 0x69u8, 0x67u8, 0x68u8, 0x74u8, 0x72u8, 0x65u8, 0x64u8],
        Color::Pink => seq![0x70u8, 0x69u8, 0x6eu8, 0x6bu8],
        Color::Yellow => seq![0x79u8, 0x65u8, 0x6cu8, 0x6cu8, 0x6fu8, 0x77u8],
        Color::White => seq![0x77u8, 0x68u8, 0x69u8, 0x74u8, 0x65u8],
    }
}

/// The colour a tag selects: `/` goes back to white, a colour's name
/// selects that colour, and anything else selects none.
pub open spec fn tag_color(tag: Seq<u8>) -> Option<Color> {
    if tag == seq![0x2fu8] {
        Some(Color::White)
    } else if tag == color_name(Color::Black) {
        Some(Color::Black)
    } else if tag == color_name(Color::Blue) {
        Some(Color::Blue)
    } else if tag == color_name(Color::Green) {
        Some(Color::Green)
    } else if tag == color_name(Color::Cyan) {
        Some(Color::Cyan)
    } else if tag == color_name(Color::Red) {
        Some(Color::Red)
    } else if tag == color_name(Color::Magenta) {
        Some(Color::Magenta)
    } else if tag == color_name(Color::Brown) {
        Some(Color::Brown)
    } else if tag == color_name(Color::LightGray) {
        Some(Color::LightGray)
    } else if tag == color_name(Color::DarkGray) {
        Some(Color::DarkGray)
    } else if tag == color_name(Color::LightBlue) {
        Some(Color::LightBlue)
    } else if tag == color_name(Color::LightGreen) {
        Some(Color::LightGreen)
    } else if tag == color_name(Color::LightCyan) {
        Some(Color::LightCyan)
    } else if tag == color_name(Color::LightRed) {
        Some(Color::LightRed)
    } else if tag == color_name(Color::Pink) {
        Some(Color::Pink)
    } else if tag == color_name(Color::Yellow) {
        Some(Color::Yellow)
    } else if tag == color_name(Color::White) {
        Some(Color::White)
    } else {
        None
    }
}

/// Whether two byte strings are equal.
fn same_bytes(a: &[u8], b: &[u8]) -> (r: bool)
    ensures
        r == (a@ == b@),
{
    if a.len() != b.len() {
        return false;
    }
    let mut i: usize = 0;
    while i < a.len()
        invariant
            i <= a@.len(),
            a@.len() == b@.len(),
            forall|j: int| 0 <= j < i ==> a@[j] == b@[j],
        decreases a@.len() - i,
    {
        if a[i] != b[i] {
            assert(a@[i as int] != b@[i as int]);
            return false;
        }
        i = i + 1;
    }
    assert(a@ =~= b@);
    true
}

/// The colour named by the bytes of a tag, if any.
pub fn color_from_tag(tag: &[u8]) -> (r: Option<Color>)
    ensures
        r == tag_color(tag@),
{
    let slash: [u8; 1] = [0x2fu8];
    let black: [u8; 5] = [0x62u8, 0x6cu8, 0x61u8, 0x63u8, 0x6bu8];
    let blue: [u8; 4] = [0x62u8, 0x6cu8, 0x75u8, 0x65u8];
    let green: [u8; 5] = [0x67u8, 0x72u8, 0x65u8, 0x65u8, 0x6eu8];
    let cyan: [u8; 4] = [0x63u8, 0x79u8, 0x61u8, 0x6eu8];
    let red: [u8; 3] = [0x72u8, 0x65u8, 0x64u8];
    let magenta: [u8; 7] = [0x6du8, 0x61u8, 0x67u8, 0x65u8, 0x6eu8, 0x74u8, 0x61u8];
    let brown: [u8; 5] = [0x62u8, 0x72u8, 0x6fu8, 0x77u8, 0x6eu8];
    let lightgray: [u8; 9] = [0x6cu8, 0x69u8, 0x67u8, 0x68u8, 0x74u8, 0x67u8, 0x72u8, 0x61u8, 0x79u8];
    let darkgray: [u8; 8] = [0x64u8, 0x61u8, 0x72u8, 0x6bu8, 0x67u8, 0x72u8, 0x61u8, 0x79u8];
    let lightblue: [u8; 9] = [0x6cu8, 0x69u8, 0x67u8, 0x68u8, 0x74u8, 0x62u8, 0x6cu8, 0x75u8, 0x65u8];
    let lightgreen: [u8; 10] = [0x6cu8, 0x69u8, 0x67u8, 0x68u8, 0x74u8, 0x67u8, 0x72u8, 0x65u8, 0x65u8, 0x6eu8];
    let lightcyan: [u8; 9] = [0x6cu8, 0x69u8, 0x67u8, 0x68u8, 0x74u8, 0x63u8, 0x79u8, 0x61u8, 0x6eu8];
    let lightred: [u8; 8] = [0x6cu8, 0x69u8, 0x67u8, 0x68u8, 0x74u8, 0x72u8, 0x65u8, 0x64u8];
    let pink: [u8; 4] = [0x70u8, 0x69u8, 0x6eu8, 0x6bu8];
    let yellow: [u8; 6] = [0x79u8, 0x65u8, 0x6cu8, 0x6cu8, 0x6fu8, 0x77u8];
    let white: [u8; 5] = [0x77u8, 0x68u8, 0x69u8, 0x74u8, 0x65u8];
    assert(slash@ =~= seq![0x2fu8]);
    assert(black@ =~= color_name(Color::Black));
    assert(blue@ =~= color_name(Color::Blue));
    assert(green@ =~= color_name(Color::Green));
    assert(cyan@ =~= color_name(Color::Cyan));
    assert(red@ =~= color_name(Color::Red));
    assert(magenta@ =~= color_name(Color::Magenta));
    assert(brown@ =~= color_name(Color::Brown));
    assert(lightgray@ =~= color_name(Color::LightGray));
    assert(darkgray@ =~= color_name(Color::DarkGray));
    assert(lightblue@ =~= color_name(Color::LightBlue));
    assert(lightgreen@ =~= color_name(Color::LightGreen));
    assert(lightcyan@ =~= color_name(Color::LightCyan));
    assert(lightred@ =~= color_name(Color::LightRed));
    assert(pink@ =~= color_name(Color::Pink));
    assert(yellow@ =~= color_name(Color::Yellow));
    assert(white@ =~= color_name(Color::White));
    if same_bytes(tag, &slash) {
        Some(Color::White)
    } else if same_bytes(tag, &black) {
        Some(Color::Black)
    } else if same_bytes(tag, &blue) {
        Some(Color::Blue)
    } else if same_bytes(tag, &green) {
        Some(Color::Green)
    } else if same_bytes(tag, &cyan) {
        Some(Color::Cyan)
    } else if same_bytes(tag, &red) {
        Some(Color::Red)
    } else if same_bytes(tag, &magenta) {
        Some(Color::Magenta)
    } else if same_bytes(tag, &brown) {
        Some(Color::Brown)
    } else if same_bytes(tag, &lightgray) {
        Some(Color::LightGray)
    } else if same_bytes(tag, &darkgray) {
        Some(Color::DarkGray)
    } else if same_bytes(tag, &lightblue) {
        Some(Color::LightBlue)
    } else if same_bytes(tag, &lightgreen) {
        Some(Color::LightGreen)
    } else if same_bytes(tag, &lightcyan) {
        Some(Color::LightCyan)
    } else if same_bytes(tag, &lightred) {
        Some(Color::LightRed)
    } else if same_bytes(tag, &pink) {
        Some(Color::Pink)
    } else if same_bytes(tag, &yellow) {
        Some(Color::Yellow)
    } else if same_bytes(tag, &white) {
        Some(Color::White)
    } else {
        None
    }
}

/// The state a colour writer carries from byte to byte: the foreground
/// colour, whether a tag has been opened with `<`, and the bytes of the open
/// tag so far.
pub struct ColorWriterView {
    pub foreground: Color,
    pub in_tag: bool,
    pub tag: Seq<u8>,
}

/// A writer with no open tag, writing in `fg`.
pub open spec fn closed_writer(fg: Color) -> ColorWriterView {
    ColorWriterView { foreground: fg, in_tag: false, tag: Seq::empty() }
}

/// The states a colour writer can be in: a tag holds at most
/// [`MAX_TAG_LEN`] bytes, and none is kept while no tag is open.
pub open spec fn writer_ok(w: ColorWriterView) -> bool {
    w.tag.len() <= MAX_TAG_LEN && (!w.in_tag ==> w.tag.len() == 0)
}

/// Bytes, each to be written in `fg`.
pub open spec fn colored(bytes: Seq<u8>, fg: Color) -> Seq<(u8, Color)> {
    bytes.map_values(|b: u8| (b, fg))
}

/// An open tag as plain text: `<` and the tag's bytes.
pub open spec fn tag_text(tag: Seq<u8>) -> Seq<u8> {
    seq![0x3cu8] + tag
}

/// One byte of tagged text: the writer's next state and what it prints.
/// Outside a tag, `<` opens one and any other byte is printed in the
/// foreground colour. Inside a tag, `>` closes it: a colour tag changes the
/// foreground and prints nothing, any other tag is printed as it was
/// written. A byte that does not fit in the tag closes it too: the tag and
/// the byte are printed as text.
pub open spec fn rich_step(w: ColorWriterView, byte: u8) -> (ColorWriterView, Seq<(u8, Color)>) {
    if w.in_tag {
        if byte == 0x3e {
            match tag_color(w.tag) {
                Some(c) => (closed_writer(c), Seq::empty()),
                None => (
                    closed_writer(w.foreground),
                    colored(tag_text(w.tag).push(0x3eu8), w.foreground),
                ),
            }
        } else if w.tag.len() < MAX_TAG_LEN {
            (ColorWriterView { foreground: w.foreground, in_tag: true, tag: w.tag.push(byte) }, Seq::empty())
        } else {
            (closed_writer(w.foreground), colored(tag_text(w.tag).push(byte), w.foreground))
        }
    } else if byte == 0x3c {
        (ColorWriterView { foreground: w.foreground, in_tag: true, tag: Seq::empty() }, Seq::empty())
    } else {
        (w, seq![(byte, w.foreground)])
    }
}

/// Bytes of tagged text in order: the writer's final state and everything
/// printed.
pub open spec fn rich_run(w: ColorWriterView, bytes: Seq<u8>) -> (ColorWriterView, Seq<(u8, Color)>)
    decreases bytes.len(),
{
    if bytes.len() == 0 {
        (w, Seq::empty())
    } else {
        let (v, out) = rich_run(w, bytes.drop_last());
        let (u, more) = rich_step(v, bytes.last());
        (u, out + more)
    }
}

/// What a flush prints: a tag still open is printed as text.
pub open spec fn flush_output(w: ColorWriterView) -> Seq<(u8, Color)> {
    if w.in_tag {
        colored(tag_text(w.tag), w.foreground)
    } else {
        Seq::empty()
    }
}

/// Everything a whole piece of tagged text prints, starting in white and
/// flushing at the end.
pub open spec fn rich_output(bytes: Seq<u8>) -> Seq<(u8, Color)> {
    rich_run(closed_writer(Color::White), bytes).1 + flush_output(
        rich_run(closed_writer(Color::White), bytes).0,
    )
}

/// Writes text with colour tags such as `<red>` and `</>` to a text
/// screen, on a black background.
pub struct ColorWriter {
    foreground: Color,
    tag_buffer: Vec<u8>,
    in_tag: bool,
}

impl View for ColorWriter {
    type V = ColorWriterView;

    closed spec fn view(&self) -> ColorWriterView {
        ColorWriterView { foreground: self.foreground, in_tag: self.in_tag, tag: self.tag_buffer@ }
    }
}

impl ColorWriter {
    #[verifier::type_invariant]
    closed spec fn inv(self) -> bool {
        writer_ok(self@)
    }

    /// A writer in white with no open tag.
    pub fn new() -> (r: Self)
        ensures
            r@ == closed_writer(Color::White),
    {
        Self { foreground: Color::White, tag_buffer: Vec::new(), in_tag: false }
    }

    fn write_byte(&self, buffer: &mut VGATextBuffer, byte: u8)
        ensures
            final(buffer).screen() == screen_after_writes(
                old(buffer).screen(),
                seq![(byte, self@.foreground)],
            ),
    {
        let ghost start = buffer.screen();
        buffer.write(byte, self.foreground, Color::Black);
        proof {
            let w = seq![(byte, self@.foreground)];
            assert(w.drop_last() =~= Seq::<(u8, Color)>::empty());
            assert(screen_after_writes(start, w.drop_last()) == start);
            assert(w.last() == (byte, self@.foreground));
        }
    }

    /// Prints the open tag as text (with the closing `>` when `has_end`)
    /// and closes it.
    fn write_tag_as_text(&mut self, buffer: &mut VGATextBuffer, has_end: bool)
        ensures
            final(self)@ == closed_writer(old(self)@.foreground),
            final(buffer).screen() == screen_after_writes(
                old(buffer).screen(),
                colored(
                    if has_end {
                        tag_text(old(self)@.tag).push(0x3eu8)
                    } else {
                        tag_text(old(self)@.tag)
                    },
                    old(self)@.foreground,
                ),
            ),
    {
        let ghost start = buffer.screen();
        let ghost fg = self@.foreground;
        let ghost tag = self@.tag;
        self.write_byte(buffer, 0x3c);
        proof {
            assert(colored(tag_text(tag.subrange(0, 0)), fg) =~= seq![(0x3cu8, fg)]);
        }
        let mut i: usize = 0;
        while i < self.tag_buffer.len()
            invariant
                *self == *old(self),
                fg == self@.foreground,
                tag == self@.tag,
                i <= tag.len(),
                buffer.screen() == screen_after_writes(
                    start,
                    colored(tag_text(tag.subrange(0, i as int)), fg),
                ),
            decreases tag.len() - i,
        {
            let byte = self.tag_buffer[i];
            self.write_byte(buffer, byte);
            proof {
                lemma_screen_after_writes_append(
                    start,
                    colored(tag_text(tag.subrange(0, i as int)), fg),
                    seq![(byte, fg)],
                );
                assert(colored(tag_text(tag.subrange(0, i + 1)), fg) =~= colored(
                    tag_text(tag.subrange(0, i as int)),
                    fg,
                ) + seq![(byte, fg)]);
            }
            i = i + 1;
        }
        proof {
            assert(tag.subrange(0, tag.len() as int) =~= tag);
        }
        if has_end {
            self.write_byte(buffer, 0x3e);
            proof {
                lemma_screen_after_writes_append(
                    start,
                    colored(tag_text(tag), fg),
                    seq![(0x3eu8, fg)],
                );
                assert(colored(tag_text(tag).push(0x3eu8), fg) =~= colored(tag_text(tag), fg) + seq![
                    (0x3eu8, fg),
                ]);
            }
        }
        *self = Self { foreground: self.foreground, tag_buffer: Vec::new(), in_tag: false };
    }

    /// Adds a byte to the open tag; when the tag is full, prints it and the
    /// byte as text instead.
    fn push_tag_byte(&mut self, buffer: &mut VGATextBuffer, byte: u8)
        requires
            old(self)@.in_tag,
            byte != 0x3e,
        ensures
            final(self)@ == rich_step(old(self)@, byte).0,
            final(buffer).screen() == screen_after_writes(
                old(buffer).screen(),
                rich_step(old(self)@, byte).1,
            ),
    {
        proof {
            use_type_invariant(&*self);
        }
        if self.tag_buffer.len() < MAX_TAG_LEN {
            let mut tag = self.tag_buffer.clone();
            tag.push(byte);
            proof {
                assert(tag@ =~= old(self)@.tag.push(byte));
                assert(Seq::<(u8, Color)>::empty().len() == 0);
            }
            *self = Self { foreground: self.foreground, tag_buffer: tag, in_tag: true };
            return;
        }
        let ghost start = buffer.screen();
        let ghost w = self@;
        self.write_tag_as_text(buffer, false);
        self.write_byte(buffer, byte);
        proof {
            lemma_screen_after_writes_append(
                start,
                colored(tag_text(w.tag), w.foreground),
                seq![(byte, w.foreground)],
            );
            assert(colored(tag_text(w.tag).push(byte), w.foreground) =~= colored(
                tag_text(w.tag),
                w.foreground,
            ) + seq![(byte, w.foreground)]);
        }
    }

    /// Closes the open tag: a colour tag selects its colour, any other tag
    /// is printed as text.
    fn finish_tag(&mut self, buffer: &mut VGATextBuffer)
        requires
            old(self)@.in_tag,
        ensures
            final(self)@ == rich_step(old(self)@, 0x3eu8).0,
            final(buffer).screen() == screen_after_writes(
                old(buffer).screen(),
                rich_step(old(self)@, 0x3eu8).1,
            ),
    {
        match color_from_tag(self.tag_buffer.as_slice()) {
            Some(color) => {
                *self = Self { foreground: color, tag_buffer: Vec::new(), in_tag: false };
                proof {
                    assert(final(self)@ == closed_writer(color));
                }
            },
            None => {
                self.write_tag_as_text(buffer, true);
            },
        }
    }

    /// Writes one byte of tagged text.
    pub fn write_rich_byte(&mut self, buffer: &mut VGATextBuffer, byte: u8)
        ensures
            final(self)@ == rich_step(old(self)@, byte).0,
            final(buffer).screen() == screen_after_writes(
                old(buffer).screen(),
                rich_step(old(self)@, byte).1,
            ),
    {
        proof {
            use_type_invariant(&*self);
        }
        if self.in_tag {
            if byte == 0x3e {
                self.finish_tag(buffer);
            } else {
                self.push_tag_byte(buffer, byte);
            }
            return;
        }
        if byte == 0x3c {
            *self = Self { foreground: self.foreground, tag_buffer: Vec::new(), in_tag: true };
            proof {
                assert(Seq::<(u8, Color)>::empty().len() == 0);
            }
        } else {
            self.write_byte(buffer, byte);
        }
    }

    /// Writes the bytes of `s` as tagged text.
    pub fn write_str(&mut self, buffer: &mut VGATextBuffer, s: &str)
        ensures
            final(self)@ == rich_run(old(self)@, s.spec_bytes()).0,
            final(buffer).screen() == screen_after_writes(
                old(buffer).screen(),
                rich_run(old(self)@, s.spec_bytes()).1,
            ),
    {
        let bytes = s.as_bytes();
        let ghost start = buffer.screen();
        let ghost w0 = self@;
        let mut i: usize = 0;
        proof {
            assert(bytes@.subrange(0, 0) =~= Seq::<u8>::empty());
        }
        while i < bytes.len()
            invariant
                i <= bytes@.len(),
                bytes@ == s.spec_bytes(),
                self@ == rich_run(w0, bytes@.subrange(0, i as int)).0,
                buffer.screen() == screen_after_writes(
                    start,
                    rich_run(w0, bytes@.subrange(0, i as int)).1,
                ),
            decreases bytes@.len() - i,
        {
            let ghost before = buffer.screen();
            self.write_rich_byte(buffer, bytes[i]);
            proof {
                let next = bytes@.subrange(0, i + 1);
                assert(next.drop_last() =~= bytes@.subrange(0, i as int));
                assert(next.last() == bytes@[i as int]);
                lemma_screen_after_writes_append(
                    start,
                    rich_run(w0, bytes@.subrange(0, i as int)).1,
                    rich_step(rich_run(w0, bytes@.subrange(0, i as int)).0, bytes@[i as int]).1,
                );
            }
            i = i + 1;
        }
        proof {
            assert(bytes@.subrange(0, bytes@.len() as int) =~= bytes@);
        }
    }

    /// Prints a tag left open as text and closes it.
    pub fn flush(&mut self, buffer: &mut VGATextBuffer)
        ensures
            final(self)@ == closed_writer(old(self)@.foreground),
            final(buffer).screen() == screen_after_writes(
                old(buffer).screen(),
                flush_output(old(self)@),
            ),
    {
        proof {
            use_type_invariant(&*self);
        }
        if self.in_tag {
            self.write_tag_as_text(buffer, false);
        } else {
            proof {
                assert(self.tag_buffer@ =~= Seq::<u8>::empty());
                assert(self@ == closed_writer(old(self)@.foreground));
            }
        }
    }
}

/// Prints a piece of tagged text: it starts in white, colour tags change
/// the colour, and a tag left open at the end is printed as text.
pub fn print_rich(buffer: &mut VGATextBuffer, text: &str)
    ensures
        final(buffer).screen() == screen_after_writes(old(buffer).screen(), rich_output(text.spec_bytes())),
{
    let ghost start = buffer.screen();
    let mut writer = ColorWriter::new();
    writer.write_str(buffer, text);
    let ghost mid = writer@;
    writer.flush(buffer);
    proof {
        lemma_screen_after_writes_append(
            start,
            rich_run(closed_writer(Color::White), text.spec_bytes()).1,
            flush_output(mid),
        );
    }
}

/// Every step keeps a writer in the states of [`writer_ok`].
pub proof fn lemma_rich_step_keeps_writer_ok(w: ColorWriterView, byte: u8)
    requires
        writer_ok(w),
    ensures
        writer_ok(rich_step(w, byte).0),
{
}

/// Text without `<` is printed byte for byte in the current colour, and the
/// writer is left as it was.
pub proof fn lemma_plain_text_passes_through(w: ColorWriterView, bytes: Seq<u8>)
    requires
        writer_ok(w),
        !w.in_tag,
        forall|i: int| 0 <= i < bytes.len() ==> bytes[i] != 0x3cu8,
    ensures
        rich_run(w, bytes) == (w, colored(bytes, w.foreground)),
    decreases bytes.len(),
{
    if bytes.len() > 0 {
        lemma_plain_text_passes_through(w, bytes.drop_last());
        assert(colored(bytes, w.foreground) =~= colored(bytes.drop_last(), w.foreground) + seq![
            (bytes.last(), w.foreground),
        ]);
    } else {
        assert(colored(bytes, w.foreground) =~= Seq::<(u8, Color)>::empty());
    }
}

/// `<` followed by tag bytes that fit and hold no `>` opens a tag holding
/// them and prints nothing.
proof fn lemma_open_tag(w: ColorWriterView, tag: Seq<u8>)
    requires
        writer_ok(w),
        !w.in_tag,
        tag.len() <= MAX_TAG_LEN,
        forall|i: int| 0 <= i < tag.len() ==> tag[i] != 0x3eu8,
    ensures
        rich_run(w, tag_text(tag)) == (
            ColorWriterView { foreground: w.foreground, in_tag: true, tag },
            Seq::<(u8, Color)>::empty(),
        ),
    decreases tag.len(),
{
    if tag.len() == 0 {
        assert(tag_text(tag) =~= seq![0x3cu8]);
        assert(tag_text(tag).drop_last() =~= Seq::<u8>::empty());
        assert(rich_run(w, tag_text(tag).drop_last()) == (w, Seq::<(u8, Color)>::empty()));
        assert(tag =~= Seq::<u8>::empty());
        assert(tag_text(tag).last() == 0x3cu8);
        assert(Seq::<(u8, Color)>::empty() + Seq::<(u8, Color)>::empty() =~= Seq::<
            (u8, Color),
        >::empty());
    } else {
        lemma_open_tag(w, tag.drop_last());
        assert(tag_text(tag).drop_last() =~= tag_text(tag.drop_last()));
        assert(tag.drop_last().push(tag.last()) =~= tag);
        assert(tag_text(tag).last() == tag.last());
        assert(tag[tag.len() - 1] != 0x3eu8);
        let prev = ColorWriterView { foreground: w.foreground, in_tag: true, tag: tag.drop_last() };
        assert(rich_step(prev, tag.last()).0 == ColorWriterView {
            foreground: w.foreground,
            in_tag: true,
            tag,
        });
        assert(Seq::<(u8, Color)>::empty() + Seq::<(u8, Color)>::empty() =~= Seq::<
            (u8, Color),
        >::empty());
    }
}

/// A whole tag `<...>` (at most [`MAX_TAG_LEN`] bytes, no `>` inside)
/// written outside a tag: a colour tag selects its colour and prints
/// nothing; any other tag is printed as written and changes nothing.
pub proof fn lemma_whole_tag(w: ColorWriterView, tag: Seq<u8>)
    requires
        writer_ok(w),
        !w.in_tag,
        tag.len() <= MAX_TAG_LEN,
        forall|i: int| 0 <= i < tag.len() ==> tag[i] != 0x3eu8,
    ensures
        rich_run(w, tag_text(tag).push(0x3eu8)) == match tag_color(tag) {
            Some(c) => (closed_writer(c), Seq::<(u8, Color)>::empty()),
            None => (w, colored(tag_text(tag).push(0x3eu8), w.foreground)),
        },
{
    lemma_open_tag(w, tag);
    assert(tag_text(tag).push(0x3eu8).drop_last() =~= tag_text(tag));
    assert(w.tag =~= Seq::<u8>::empty());
    assert(w == closed_writer(w.foreground));
    assert(Seq::<(u8, Color)>::empty() + Seq::<(u8, Color)>::empty() =~= Seq::<(u8, Color)>::empty());
    assert(Seq::<(u8, Color)>::empty() + colored(tag_text(tag).push(0x3eu8), w.foreground)
        =~= colored(tag_text(tag).push(0x3eu8), w.foreground));
}

/// Each colour's name is a tag that selects that colour.
pub proof fn lemma_color_name_is_tag(c: Color)
    ensures
        tag_color(color_name(c)) == Some(c),
        color_name(c).len() <= MAX_TAG_LEN,
        forall|i: int| 0 <= i < color_name(c).len() ==> color_name(c)[i] != 0x3eu8,
{
    let n = color_name(c);
    assert(n.len() != 1 || n[0] != 0x2fu8);
    assert(n != seq![0x2fu8]);
    match c {
        Color::Black => {},
        Color::Blue => {
            assert(n != color_name(Color::Black));
        },
        Color::Green => {
            assert(n != color_name(Color::Black));
            assert(n != color_name(Color::Blue));
        },
        _ => {
            assert(n[0] != 0x2fu8);
        },
    }
}

/// Text without `<` prints unchanged, in white.
pub proof fn lemma_plain_text_prints_in_white(bytes: Seq<u8>)
    requires
        forall|i: int| 0 <= i < bytes.len() ==> bytes[i] != 0x3cu8,
    ensures
        rich_output(bytes) == colored(bytes, Color::White),
{
    lemma_plain_text_passes_through(closed_writer(Color::White), bytes);
    assert(colored(bytes, Color::White) + Seq::<(u8, Color)>::empty() =~= colored(
        bytes,
        Color::White,
    ));
}

/// Register values of the 320x200 256-colour mode, in the order they are
/// written: the miscellaneous output register, the sequencer registers
/// 0x00..=0x04, the CRT controller registers 0x00..=0x18, the graphics
/// controller registers 0x00..=0x08 and the attribute controller registers
/// 0x00..=0x14.
pub const MODE_320X200X256: [u8; 61] = [
    0x63,
    0x03, 0x01, 0x0F, 0x00, 0x0E,
    0x5F, 0x4F, 0x50, 0x82, 0x54, 0x80, 0xBF, 0x1F, 0x00, 0x41, 0x00, 0x00, 0x00, 0x00, 0x00,
    0x00, 0x9C, 0x0E, 0x8F, 0x28, 0x40, 0x96, 0xB9, 0xA3, 0xFF,
    0x00, 0x00, 0x00, 0x00, 0x00, 0x40, 0x05, 0x0F, 0xFF,
    0x00, 0x01, 0x02, 0x03, 0x04, 0x05, 0x06, 0x07, 0x08, 0x09, 0x0A, 0x0B, 0x0C, 0x0D, 0x0E,
    0x0F, 0x41, 0x00, 0x0F, 0x00, 0x00,
];

/// First palette entry of the 6x6x6 colour cube set up by
/// [`set_mode_320x200x256`].
pub const PALETTE_START_INDEX: u8 = 16;

/// A colour with 8 bits per channel.
#[derive(Debug, Clone, Copy, PartialEq, Eq, Structural)]
pub struct Rgb {
    pub red: u8,
    pub green: u8,
    pub blue: u8,
}

/// How pixels are stored in a frame buffer.
#[derive(Debug, Clone, Copy, PartialEq, Eq, Structural)]
pub enum PixelFormat {
    /// One byte per pixel: a palette index into a 6x6x6 colour cube that
    /// starts at `palette_start_index`.
    IndexedRgb666 { palette_start_index: u8 },
}

/// A channel reduced to one of the six levels of the colour cube, rounded
/// to the nearest.
pub open spec fn cube_level(channel: u8) -> int {
    (channel * 5 + 127) / 255
}

/// The colour-cube entry of a colour, counted from the cube's start.
pub open spec fn cube_index(color: Rgb) -> int {
    cube_level(color.red) * 36 + cube_level(color.green) * 6 + cube_level(color.blue)
}

/// Whether the palette index of `color` fits in a byte.
pub open spec fn pixel_fits(format: PixelFormat, color: Rgb) -> bool {
    match format {
        PixelFormat::IndexedRgb666 { palette_start_index } => palette_start_index + cube_index(color) <= 255,
    }
}

/// The byte stored for `color`.
pub open spec fn pixel_byte(format: PixelFormat, color: Rgb) -> int {
    match format {
        PixelFormat::IndexedRgb666 { palette_start_index } => palette_start_index + cube_index(color),
    }
}

/// Bytes per pixel.
pub open spec fn pixel_size(format: PixelFormat) -> int {
    match format {
        PixelFormat::IndexedRgb666 { .. } => 1,
    }
}

/// Reduces a channel to a level of the colour cube.
fn channel_level(channel: u8) -> (r: u8)
    ensures
        r == cube_level(channel),
        r <= 5,
{
    (((channel as u16) * 5 + 127) / 255) as u8
}

impl PixelFormat {
    /// Bytes per pixel.
    pub fn bytes_per_pixel(self) -> (r: usize)
        ensures
            r == pixel_size(self),
    {
        match self {
            PixelFormat::IndexedRgb666 { .. } => 1,
        }
    }

    /// The byte to store for a pixel of `color`.
    pub fn pixel_value(self, color: Rgb) -> (r: u8)
        requires
            pixel_fits(self, color),
        ensures
            r == pixel_byte(self, color),
    {
        match self {
            PixelFormat::IndexedRgb666 { palette_start_index } => {
                let red = channel_level(color.red);
                let green = channel_level(color.green);
                let blue = channel_level(color.blue);
                palette_start_index + red * 36 + green * 6 + blue
            },
        }
    }
}

/// A linear frame buffer: its size in pixels, the bytes from one row to
/// the next, where it starts and how pixels are stored.
#[derive(Debug, Clone, Copy, PartialEq, Eq)]
pub struct GraphicsMode {
    width: usize,
    height: usize,
    stride_bytes: usize,
    framebuffer_address: usize,
    pixel_format: PixelFormat,
}

impl GraphicsMode {
    pub closed spec fn spec_width(self) -> usize {
        self.width
    }

    pub closed spec fn spec_height(self) -> usize {
        self.height
    }

    pub closed spec fn spec_stride_bytes(self) -> usize {
        self.stride_bytes
    }

    pub closed spec fn spec_framebuffer_address(self) -> usize {
        self.framebuffer_address
    }

    pub closed spec fn spec_pixel_format(self) -> PixelFormat {
        self.pixel_format
    }

    pub fn new(
        width: usize,
        height: usize,
        stride_bytes: usize,
        framebuffer_address: usize,
        pixel_format: PixelFormat,
    ) -> (r: Self)
        ensures
            r.spec_width() == width,
            r.spec_height() == height,
            r.spec_stride_bytes() == stride_bytes,
            r.spec_framebuffer_address() == framebuffer_address,
            r.spec_pixel_format() == pixel_format,
    {
        Self { width, height, stride_bytes, framebuffer_address, pixel_format }
    }

    /// The address of pixel (`x`, `y`), when it lies inside the buffer and
    /// the address is representable.
    pub open spec fn pixel_address(self, x: usize, y: usize) -> Option<int> {
        let address = self.spec_framebuffer_address() + y * self.spec_stride_bytes() + x * pixel_size(
            self.spec_pixel_format(),
        );
        if x < self.spec_width() && y < self.spec_height() && address <= usize::MAX {
            Some(address)
        } else {
            None
        }
    }

    /// Where to store which byte to set pixel (`x`, `y`) to `color`: `None`
    /// for a pixel outside the buffer or an address past the end of memory,
    /// which are left alone.
    pub fn set_pixel(self, x: usize, y: usize, color: Rgb) -> (r: Option<(usize, u8)>)
        requires
            self.pixel_address(x, y) is Some ==> pixel_fits(self.spec_pixel_format(), color),
        ensures
            r == match self.pixel_address(x, y) {
                Some(address) => Some((address as usize, pixel_byte(self.spec_pixel_format(), color) as u8)),
                None => None::<(usize, u8)>,
            },
    {
        if x >= self.width || y >= self.height {
            return None;
        }
        let row_offset = match y.checked_mul(self.stride_bytes) {
            Some(v) => v,
            None => {
                proof {
                    assert(y * self.stride_bytes + x * 1 >= y * self.stride_bytes)
                        by (nonlinear_arith);
                }
                return None;
            },
        };
        let pixel_offset = match x.checked_mul(self.pixel_format.bytes_per_pixel()) {
            Some(v) => v,
            None => return None,
        };
        let offset = match row_offset.checked_add(pixel_offset) {
            Some(v) => v,
            None => return None,
        };
        let address = match self.framebuffer_address.checked_add(offset) {
            Some(v) => v,
            None => return None,
        };
        Some((address, self.pixel_format.pixel_value(color)))
    }
}

/// The writes of `values` to consecutive registers of an indexed register
/// file: the register number to `address_port`, then the value to
/// `data_port`, for each register from 0 up.
pub open spec fn indexed_register_writes(address_port: u16, data_port: u16, values: Seq<u8>) -> Seq<PortOp>
    decreases values.len(),
{
    if values.len() == 0 {
        Seq::empty()
    } else {
        indexed_register_writes(address_port, data_port, values.drop_last()) + seq![
            PortOp::WriteU8 { port: address_port, value: (values.len() - 1) as u8 },
            PortOp::WriteU8 { port: data_port, value: values.last() },
        ]
    }
}

/// The attribute controller shares one port for register numbers and
/// values: reading the input status port (0x3DA) resets it to expect a
/// register number, then the number and the value follow on port 0x3C0.
pub open spec fn attribute_register_writes(values: Seq<u8>) -> Seq<PortOp>
    decreases values.len(),
{
    if values.len() == 0 {
        Seq::empty()
    } else {
        attribute_register_writes(values.drop_last()) + seq![
            PortOp::ReadU8 { port: 0x3DA },
            PortOp::WriteU8 { port: 0x3C0, value: (values.len() - 1) as u8 },
            PortOp::WriteU8 { port: 0x3C0, value: values.last() },
        ]
    }
}

/// Lifts the write protection of the CRT controller registers: sets bit 7
/// of register 0x03 and clears bit 7 of register 0x11.
pub open spec fn crt_unlock_ops() -> Seq<PortOp> {
    seq![
        PortOp::WriteU8 { port: 0x3D4, value: 0x03 },
        PortOp::UpdateU8 { port: 0x3D5, set: 0x80, clear: 0 },
        PortOp::WriteU8 { port: 0x3D4, value: 0x11 },
        PortOp::UpdateU8 { port: 0x3D5, set: 0, clear: 0x80 },
    ]
}

/// Turns the display back on through the attribute controller.
pub open spec fn display_enable_ops() -> Seq<PortOp> {
    seq![PortOp::ReadU8 { port: 0x3DA }, PortOp::WriteU8 { port: 0x3C0, value: 0x20 }]
}

/// The port accesses that load a mode's 61 register values (laid out as
/// [`MODE_320X200X256`]).
pub open spec fn mode_ops(registers: Seq<u8>) -> Seq<PortOp> {
    seq![PortOp::WriteU8 { port: 0x3C2, value: registers[0] }] + indexed_register_writes(
        0x3C4,
        0x3C5,
        registers.subrange(1, 6),
    ) + crt_unlock_ops() + indexed_register_writes(0x3D4, 0x3D5, registers.subrange(6, 31))
        + indexed_register_writes(0x3CE, 0x3CF, registers.subrange(31, 40))
        + attribute_register_writes(registers.subrange(40, 61)) + display_enable_ops()
}

/// The DAC value (0..=63) of a colour-cube level (0..=5).
pub open spec fn dac_level(level: int) -> u8 {
    (level * 63 / 5) as u8
}

/// The DAC writes of the first `entries` colour-cube entries: red, green
/// and blue of each, entry `e` having levels `e / 36`, `e / 6 % 6` and
/// `e % 6`.
pub open spec fn palette_entry_writes(entries: nat) -> Seq<PortOp>
    decreases entries,
{
    if entries == 0 {
        Seq::empty()
    } else {
        let e = entries - 1;
        palette_entry_writes((entries - 1) as nat) + seq![
            PortOp::WriteU8 { port: 0x3C9, value: dac_level(e / 36) },
            PortOp::WriteU8 { port: 0x3C9, value: dac_level(e / 6 % 6) },
            PortOp::WriteU8 { port: 0x3C9, value: dac_level(e % 6) },
        ]
    }
}

/// Loads the 216 colours of the cube into the palette from entry `start`.
pub open spec fn palette_ops(start: u8) -> Seq<PortOp> {
    seq![PortOp::WriteU8 { port: 0x3C8, value: start }] + palette_entry_writes(216)
}

fn push_indexed_register_writes(
    ops: &mut Vec<PortOp>,
    address_port: u16,
    data_port: u16,
    values: &[u8],
)
    requires
        values@.len() <= 256,
    ensures
        final(ops)@ == old(ops)@ + indexed_register_writes(address_port, data_port, values@),
{
    let ghost start = ops@;
    let mut i: usize = 0;
    while i < values.len()
        invariant
            i <= values@.len(),
            values@.len() <= 256,
            ops@ == start + indexed_register_writes(address_port, data_port, values@.subrange(0, i as int)),
        decreases values@.len() - i,
    {
        ops.push(PortOp::WriteU8 { port: address_port, value: i as u8 });
        ops.push(PortOp::WriteU8 { port: data_port, value: values[i] });
        proof {
            let next = values@.subrange(0, i + 1);
            assert(next.drop_last() =~= values@.subrange(0, i as int));
            assert(ops@ =~= start + indexed_register_writes(address_port, data_port, next));
        }
        i = i + 1;
    }
    proof {
        assert(values@.subrange(0, values@.len() as int) =~= values@);
    }
}

fn push_attribute_register_writes(ops: &mut Vec<PortOp>, values: &[u8])
    requires
        values@.len() <= 256,
    ensures
        final(ops)@ == old(ops)@ + attribute_register_writes(values@),
{
    let ghost start = ops@;
    let mut i: usize = 0;
    while i < values.len()
        invariant
            i <= values@.len(),
            values@.len() <= 256,
            ops@ == start + attribute_register_writes(values@.subrange(0, i as int)),
        decreases values@.len() - i,
    {
        ops.push(PortOp::ReadU8 { port: 0x3DA });
        ops.push(PortOp::WriteU8 { port: 0x3C0, value: i as u8 });
        ops.push(PortOp::WriteU8 { port: 0x3C0, value: values[i] });
        proof {
            let next = values@.subrange(0, i + 1);
            assert(next.drop_last() =~= values@.subrange(0, i as int));
            assert(ops@ =~= start + attribute_register_writes(next));
        }
        i = i + 1;
    }
    proof {
        assert(values@.subrange(0, values@.len() as int) =~= values@);
    }
}

/// The port accesses that load a mode's register values.
pub fn write_mode(registers: &[u8; 61]) -> (r: Vec<PortOp>)
    ensures
        r@ == mode_ops(registers@),
{
    let regs = registers.as_slice();
    let mut ops: Vec<PortOp> = Vec::new();
    ops.push(PortOp::WriteU8 { port: 0x3C2, value: regs[0] });
    push_indexed_register_writes(&mut ops, 0x3C4, 0x3C5, slice_subrange(regs, 1, 6));
    ops.push(PortOp::WriteU8 { port: 0x3D4, value: 0x03 });
    ops.push(PortOp::UpdateU8 { port: 0x3D5, set: 0x80, clear: 0 });
    ops.push(PortOp::WriteU8 { port: 0x3D4, value: 0x11 });
    ops.push(PortOp::UpdateU8 { port: 0x3D5, set: 0, clear: 0x80 });
    push_indexed_register_writes(&mut ops, 0x3D4, 0x3D5, slice_subrange(regs, 6, 31));
    push_indexed_register_writes(&mut ops, 0x3CE, 0x3CF, slice_subrange(regs, 31, 40));
    push_attribute_register_writes(&mut ops, slice_subrange(regs, 40, 61));
    ops.push(PortOp::ReadU8 { port: 0x3DA });
    ops.push(PortOp::WriteU8 { port: 0x3C0, value: 0x20 });
    proof {
        assert(ops@ =~= mode_ops(registers@));
    }
    ops
}

/// Switches the VGA to 320x200 pixels with 256 colours: the port accesses
/// that load the mode and a 6x6x6 colour cube into the palette from entry
/// [`PALETTE_START_INDEX`], and the frame buffer they set up at 0xA0000.
pub fn set_mode_320x200x256() -> (r: (GraphicsMode, Vec<PortOp>))
    ensures
        r.1@ == mode_ops(MODE_320X200X256@) + palette_ops(PALETTE_START_INDEX),
        r.0.spec_width() == 320,
        r.0.spec_height() == 200,
        r.0.spec_stride_bytes() == 320,
        r.0.spec_framebuffer_address() == 0xA0000,
        r.0.spec_pixel_format() == (PixelFormat::IndexedRgb666 {
            palette_start_index: PALETTE_START_INDEX,
        }),
{
    let mode = MODE_320X200X256;
    let mut ops = write_mode(&mode);
    let ghost mode_part = ops@;
    ops.push(PortOp::WriteU8 { port: 0x3C8, value: PALETTE_START_INDEX });
    let mut entry: u16 = 0;
    while entry < 216
        invariant
            entry <= 216,
            ops@ == mode_part + seq![PortOp::WriteU8 { port: 0x3C8, value: PALETTE_START_INDEX }]
                + palette_entry_writes(entry as nat),
        decreases 216 - entry,
    {
        let red = entry / 36;
        let green = entry / 6 % 6;
        let blue = entry % 6;
        ops.push(PortOp::WriteU8 { port: 0x3C9, value: (red * 63 / 5) as u8 });
        ops.push(PortOp::WriteU8 { port: 0x3C9, value: (green * 63 / 5) as u8 });
        ops.push(PortOp::WriteU8 { port: 0x3C9, value: (blue * 63 / 5) as u8 });
        proof {
            assert(ops@ =~= mode_part + seq![
                PortOp::WriteU8 { port: 0x3C8, value: PALETTE_START_INDEX },
            ] + palette_entry_writes((entry + 1) as nat));
        }
        entry = entry + 1;
    }
    proof {
        assert(ops@ =~= mode_ops(MODE_320X200X256@) + palette_ops(PALETTE_START_INDEX));
    }
    (
        GraphicsMode::new(
            320,
            200,
            320,
            0xA0000,
            PixelFormat::IndexedRgb666 { palette_start_index: PALETTE_START_INDEX },
        ),
        ops,
    )
}

} // verus!
