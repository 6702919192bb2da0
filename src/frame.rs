use vstd::prelude::*;

use crate::text::chars_of;

verus! {

/// The colour of a box title. `Plain` is any name outside the palette.
#[derive(Clone, Copy, Debug, PartialEq, Eq, Structural)]
pub enum TitleColor {
    Plain,
    Red,
    Green,
    Blue,
    Yellow,
    Purple,
    White,
}

/// The corner style of a box: rounded for a frame, square for a window.
#[derive(Clone, Copy, Debug, PartialEq, Eq, Structural)]
pub enum BoxStyle {
    Rounded,
    Square,
}

/// The box-drawing characters of one style.
#[derive(Clone, Copy, Debug, PartialEq, Eq, Structural)]
pub struct Glyphs {
    pub top_left: char,
    pub top_right: char,
    pub bottom_left: char,
    pub bottom_right: char,
    pub horizontal: char,
    pub vertical: char,
}

/// Why a box cannot be drawn.
#[derive(Clone, Copy, Debug, PartialEq, Eq, Structural)]
pub enum GeometryError {
    /// Narrower than 2 columns or lower than 1 row.
    TooSmall,
    /// Some cell of the box lies past the largest terminal coordinate.
    OffScreen,
    /// Larger than the terminal it is to be centred in.
    LargerThanTerminal,
}

/// Text to print with its first character at column `col` of row `row`.
#[derive(Debug)]
pub struct Segment {
    pub col: u16,
    pub row: u16,
    pub text: Vec<char>,
}

/// A box ready to print: its rows from top to bottom, then its title, if any,
/// over the top edge in `title_color`.
#[derive(Debug)]
pub struct Drawing {
    pub rows: Vec<Segment>,
    pub title: Option<Segment>,
    pub title_color: TitleColor,
}

/// A centred dialog box, and where its prompt goes.
#[derive(Debug)]
pub struct Dialog {
    pub drawing: Drawing,
    pub prompt_col: u16,
    pub prompt_row: u16,
}

/// A box with rounded corners; `title_color` names its title's colour.
pub struct Frame {
    pub title: String,
    pub title_color: String,
    pub x: u16,
    pub y: u16,
    pub w: u16,
    pub h: u16,
}

/// A box with square corners; `title_color` names its title's colour.
pub struct Window {
    pub x: u16,
    pub y: u16,
    pub w: u16,
    pub h: u16,
    pub title: String,
    pub title_color: String,
}

pub open spec fn color_named(name: Seq<char>) -> TitleColor {
    if name == seq!['r', 'e', 'd'] {
        TitleColor::Red
    } else if name == seq!['g', 'r', 'e', 'e', 'n'] {
        TitleColor::Green
    } else if name == seq!['b', 'l', 'u', 'e'] {
        TitleColor::Blue
    } else if name == seq!['y', 'e', 'l', 'l', 'o', 'w'] {
        TitleColor::Yellow
    } else if name == seq!['p', 'u', 'r', 'p', 'l', 'e'] {
        TitleColor::Purple
    } else if name == seq!['w', 'h', 'i', 't', 'e'] {
        TitleColor::White
    } else {
        TitleColor::Plain
    }
}

pub open spec fn style_glyphs(style: BoxStyle) -> Glyphs {
    match style {
        BoxStyle::Rounded => Glyphs {
            top_left: '\u{256d}',
            top_right: '\u{256e}',
            bottom_left: '\u{2570}',
            bottom_right: '\u{256f}',
            horizontal: '\u{2500}',
            vertical: '\u{2502}',
        },
        BoxStyle::Square => Glyphs {
            top_left: '\u{250c}',
            top_right: '\u{2510}',
            bottom_left: '\u{2514}',
            bottom_right: '\u{2518}',
            horizontal: '\u{2500}',
            vertical: '\u{2502}',
        },
    }
}

/// `left`, then `width - 2` copies of `fill`, then `right`.
pub open spec fn edge_text(left: char, fill: char, right: char, width: nat) -> Seq<char> {
    seq![left] + Seq::new((width - 2) as nat, |_j: int| fill) + seq![right]
}

/// Row `i` (0 to `height`) of a box `width` wide whose bottom edge lies
/// `height` rows below its top edge.
pub open spec fn box_row(g: Glyphs, width: nat, height: nat, i: int) -> Seq<char> {
    if i == 0 {
        edge_text(g.top_left, g.horizontal, g.top_right, width)
    } else if i == height {
        edge_text(g.bottom_left, g.horizontal, g.bottom_right, width)
    } else {
        edge_text(g.vertical, ' ', g.vertical, width)
    }
}

/// The error, if any, for a box at (`x`, `y`) of `width` by `height`.
pub open spec fn box_error(x: u16, y: u16, width: u16, height: u16) -> Option<GeometryError> {
    if width < 2 || height < 1 {
        Some(GeometryError::TooSmall)
    } else if x + width > 65536 || y + height > 65535 {
        Some(GeometryError::OffScreen)
    } else {
        None
    }
}

/// `rows` are the rows of the box, each starting in column `x`, the first in row `y`.
pub open spec fn rows_of_box(
    rows: Seq<Segment>,
    x: u16,
    y: u16,
    g: Glyphs,
    width: nat,
    height: nat,
) -> bool {
    &&& rows.len() == height + 1
    &&& forall|i: int|
        0 <= i <= height ==> {
            &&& (#[trigger] rows[i]).col == x
            &&& rows[i].row == y + i
            &&& rows[i].text@ == box_row(g, width, height, i)
        }
}

/// `t` is the title segment for `title` over a top edge at (`x`, `y`):
/// ` title ` two columns in, when the title is not empty and that column exists.
pub open spec fn title_placed(t: Option<Segment>, x: u16, y: u16, title: Seq<char>) -> bool {
    if title.len() > 0 && x + 2 <= 65535 {
        &&& t is Some
        &&& t->0.col == x + 2
        &&& t->0.row == y
        &&& t->0.text@ == seq![' '] + title + seq![' ']
    } else {
        t is None
    }
}

/// `d` draws the box at (`x`, `y`) of `width` by `height` in `style`, with `title` in `color`.
pub open spec fn draws_box(
    d: Drawing,
    x: u16,
    y: u16,
    width: u16,
    height: u16,
    style: BoxStyle,
    title: Seq<char>,
    color: TitleColor,
) -> bool {
    &&& rows_of_box(d.rows@, x, y, style_glyphs(style), width as nat, height as nat)
    &&& title_placed(d.title, x, y, title)
    &&& d.title_color == color
}

/// Where something of size `size` starts when centred in `total` cells.
pub open spec fn centered(total: u16, size: u16) -> int {
    (total - size) / 2
}

fn same_chars(a: &Vec<char>, b: &Vec<char>) -> (r: bool)
    ensures
        r == (a@ == b@),
{
    if a.len() != b.len() {
        return false;
    }
    let mut i: usize = 0;
    while i < a.len()
        invariant
            a@.len() == b@.len(),
            i <= a@.len(),
            forall|j: int| 0 <= j < i ==> a@[j] == b@[j],
        decreases a@.len() - i,
    {
        if a[i] != b[i] {
            return false;
        }
        i += 1;
    }
    assert(a@ =~= b@);
    true
}

/// The title colour that `name` stands for; `Plain` for a name outside the palette.
pub fn title_color_from_name(name: &str) -> (r: TitleColor)
    ensures
        r == color_named(name@),
{
    let n = chars_of(name);
    if same_chars(&n, &vec!['r', 'e', 'd']) {
        TitleColor::Red
    } else if same_chars(&n, &vec!['g', 'r', 'e', 'e', 'n']) {
        TitleColor::Green
    } else if same_chars(&n, &vec!['b', 'l', 'u', 'e']) {
        TitleColor::Blue
    } else if same_chars(&n, &vec!['y', 'e', 'l', 'l', 'o', 'w']) {
        TitleColor::Yellow
    } else if same_chars(&n, &vec!['p', 'u', 'r', 'p', 'l', 'e']) {
        TitleColor::Purple
    } else if same_chars(&n, &vec!['w', 'h', 'i', 't', 'e']) {
        TitleColor::White
    } else {
        TitleColor::Plain
    }
}

/// The box-drawing characters of `style`.
pub fn glyphs(style: BoxStyle) -> (r: Glyphs)
    ensures
        r == style_glyphs(style),
{
    match style {
        BoxStyle::Rounded => Glyphs {
            top_left: '\u{256d}',
            top_right: '\u{256e}',
            bottom_left: '\u{2570}',
            bottom_right: '\u{256f}',
            horizontal: '\u{2500}',
            vertical: '\u{2502}',
        },
        BoxStyle::Square => Glyphs {
            top_left: '\u{250c}',
            top_right: '\u{2510}',
            bottom_left: '\u{2514}',
            bottom_right: '\u{2518}',
            horizontal: '\u{2500}',
            vertical: '\u{2502}',
        },
    }
}

fn edge(left: char, fill: char, right: char, width: u16) -> (r: Vec<char>)
    requires
        width >= 2,
    ensures
        r@ == edge_text(left, fill, right, width as nat),
{
    let mut r: Vec<char> = vec![left];
    let mut i: u16 = 2;
    while i < width
        invariant
            2 <= i <= width,
            r@ == seq![left] + Seq::new((i - 2) as nat, |_j: int| fill),
        decreases width - i,
    {
        r.push(fill);
        i += 1;
        assert(r@ =~= seq![left] + Seq::new((i - 2) as nat, |_j: int| fill));
    }
    r.push(right);
    assert(r@ =~= edge_text(left, fill, right, width as nat));
    r
}

/// The rows of a box at (`x`, `y`) of `width` by `height` drawn with `g`:
/// a top edge, `height - 1` side walls with a blank inside, and a bottom edge
/// `height` rows below the top.
pub fn box_segments(x: u16, y: u16, width: u16, height: u16, g: Glyphs) -> (r: Result<
    Vec<Segment>,
    GeometryError,
>)
    ensures
        match box_error(x, y, width, height) {
            Some(e) => r == Err::<Vec<Segment>, GeometryError>(e),
            None => r is Ok && rows_of_box(r->Ok_0@, x, y, g, width as nat, height as nat),
        },
{
    if width < 2 || height < 1 {
        return Err(GeometryError::TooSmall);
    }
    if x as u32 + width as u32 > 65536 || y as u32 + height as u32 > 65535 {
        return Err(GeometryError::OffScreen);
    }
    let mut rows: Vec<Segment> = Vec::new();
    let mut i: u32 = 0;
    while i <= height as u32
        invariant
            width >= 2,
            height >= 1,
            y + height <= 65535,
            i <= height + 1,
            rows@.len() == i,
            forall|j: int|
                0 <= j < i ==> {
                    &&& (#[trigger] rows@[j]).col == x
                    &&& rows@[j].row == y + j
                    &&& rows@[j].text@ == box_row(g, width as nat, height as nat, j)
                },
        decreases height + 1 - i,
    {
        let text = if i == 0 {
            edge(g.top_left, g.horizontal, g.top_right, width)
        } else if i == height as u32 {
            edge(g.bottom_left, g.horizontal, g.bottom_right, width)
        } else {
            edge(g.vertical, ' ', g.vertical, width)
        };
        rows.push(Segment { col: x, row: y + i as u16, text });
        i += 1;
    }
    Ok(rows)
}

/// The title ` title ` two columns right of the corner at (`x`, `y`); `None`
/// for an empty title or when that column does not exist.
pub fn title_segment(x: u16, y: u16, title: &str) -> (r: Option<Segment>)
    ensures
        title_placed(r, x, y, title@),
{
    if title.unicode_len() == 0 || x > 65533 {
        return None;
    }
    let mut text: Vec<char> = vec![' '];
    let mut t = chars_of(title);
    text.append(&mut t);
    text.push(' ');
    assert(text@ =~= seq![' '] + title@ + seq![' ']);
    Some(Segment { col: x + 2, row: y, text })
}

/// The drawing of a box at (`x`, `y`) of `width` by `height` in `style`, with
/// `title` in `color` over its top edge.
pub fn draw_box(
    x: u16,
    y: u16,
    width: u16,
    height: u16,
    style: BoxStyle,
    title: &str,
    color: TitleColor,
) -> (r: Result<Drawing, GeometryError>)
    ensures
        match box_error(x, y, width, height) {
            Some(e) => r == Err::<Drawing, GeometryError>(e),
            None => r is Ok && draws_box(r->Ok_0, x, y, width, height, style, title@, color),
        },
{
    let g = glyphs(style);
    match box_segments(x, y, width, height, g) {
        Err(e) => Err(e),
        Ok(rows) => Ok(Drawing { rows, title: title_segment(x, y, title), title_color: color }),
    }
}

impl Frame {
    /// The drawing of this frame: rounded corners, the title in the colour
    /// that `title_color` names.
    pub fn display(&self) -> (r: Result<Drawing, GeometryError>)
        ensures
            match box_error(self.x, self.y, self.w, self.h) {
                Some(e) => r == Err::<Drawing, GeometryError>(e),
                None => r is Ok && draws_box(
                    r->Ok_0,
                    self.x,
                    self.y,
                    self.w,
                    self.h,
                    BoxStyle::Rounded,
                    self.title@,
                    color_named(self.title_color@),
                ),
            },
    {
        let color = title_color_from_name(self.title_color.as_str());
        draw_box(self.x, self.y, self.w, self.h, BoxStyle::Rounded, self.title.as_str(), color)
    }
}

/// The drawing of a window: square corners, the title in the colour that
/// `title_color` names.
pub fn window(wdw: &Window) -> (r: Result<Drawing, GeometryError>)
    ensures
        match box_error(wdw.x, wdw.y, wdw.w, wdw.h) {
            Some(e) => r == Err::<Drawing, GeometryError>(e),
            None => r is Ok && draws_box(
                r->Ok_0,
                wdw.x,
                wdw.y,
                wdw.w,
                wdw.h,
                BoxStyle::Square,
                wdw.title@,
                color_named(wdw.title_color@),
            ),
        },
{
    let color = title_color_from_name(wdw.title_color.as_str());
    draw_box(wdw.x, wdw.y, wdw.w, wdw.h, BoxStyle::Square, wdw.title.as_str(), color)
}

/// Where something of size `size` starts when centred in `total` cells;
/// `None` when it does not fit.
pub fn center_offset(total: u16, size: u16) -> (r: Option<u16>)
    ensures
        r == (if size <= total {
            Some(centered(total, size) as u16)
        } else {
            None::<u16>
        }),
{
    if size <= total {
        Some((total - size) / 2)
    } else {
        None
    }
}

/// A rounded box of `width` by `height` centred in a terminal of
/// `term_width` by `term_height`, with `title` in red, and its prompt three
/// columns right of and two rows below the top-left corner.
pub fn dialog_layout(term_width: u16, term_height: u16, width: u16, height: u16, title: &str) -> (r:
    Result<Dialog, GeometryError>)
    ensures
        width < 2 || height < 1 ==> r == Err::<Dialog, GeometryError>(GeometryError::TooSmall),
        width >= 2 && height >= 1 && (width > term_width || height > term_height) ==> r == Err::<
            Dialog,
            GeometryError,
        >(GeometryError::LargerThanTerminal),
        width >= 2 && height >= 1 && width <= term_width && height <= term_height ==> {
            let x = centered(term_width, width) as u16;
            let y = centered(term_height, height) as u16;
            &&& r is Ok
            &&& draws_box(
                r->Ok_0.drawing,
                x,
                y,
                width,
                height,
                BoxStyle::Rounded,
                title@,
                TitleColor::Red,
            )
            &&& r->Ok_0.prompt_col == x + 3
            &&& r->Ok_0.prompt_row == y + 2
        },
{
    if width < 2 || height < 1 {
        return Err(GeometryError::TooSmall);
    }
    let x = match center_offset(term_width, width) {
        Some(x) => x,
        None => return Err(GeometryError::LargerThanTerminal),
    };
    let y = match center_offset(term_height, height) {
        Some(y) => y,
        None => return Err(GeometryError::LargerThanTerminal),
    };
    match draw_box(x, y, width, height, BoxStyle::Rounded, title, TitleColor::Red) {
        Err(e) => Err(e),
        Ok(drawing) => Ok(Dialog { drawing, prompt_col: x + 3, prompt_row: y + 2 }),
    }
}

/// Every row of a box of at least 2 by 1 is exactly `width` wide, there are
/// `height + 1` of them, the top and bottom edges are one run of the
/// horizontal glyph between their corners, and each wall row has the vertical
/// glyph on both sides.
pub proof fn box_shape(g: Glyphs, width: nat, height: nat)
    requires
        width >= 2,
        height >= 1,
    ensures
        forall|i: int| 0 <= i <= height ==> (#[trigger] box_row(g, width, height, i)).len() == width,
        forall|j: int|
            1 <= j < width - 1 ==> #[trigger] box_row(g, width, height, 0)[j] == g.horizontal
                && box_row(g, width, height, height as int)[j] == g.horizontal,
        forall|i: int|
            0 < i < height ==> (#[trigger] box_row(g, width, height, i))[0] == g.vertical
                && box_row(g, width, height, i)[width - 1] == g.vertical,
{
    assert forall|j: int| 1 <= j < width - 1 implies #[trigger] box_row(g, width, height, 0)[j]
        == g.horizontal && box_row(g, width, height, height as int)[j] == g.horizontal by {
        let fill = Seq::new((width - 2) as nat, |_k: int| g.horizontal);
        assert(box_row(g, width, height, 0)[j] == fill[j - 1]);
        assert(box_row(g, width, height, height as int)[j] == fill[j - 1]);
    }
}

} // verus!
