//! A type that represents a command for this remarkable app.
use vstd::prelude::*;

verus! {

/// Width of the canvas in pixels.
pub const CANVAS_WIDTH: usize = 1000;

/// Height of the canvas in pixels.
pub const CANVAS_HEIGHT: usize = 1000;

/// Paint the pixel at (`x`, `y`) with the colour `rgb`.
#[derive(Debug, Clone, Copy, PartialEq, Eq)]
pub struct Command {
    pub x: u16,
    pub y: u16,
    pub rgb: (u8, u8, u8),
}

/// The commands found in one block.
pub struct Chunk {
    pub block_num: u64,
    pub cmds: Vec<Command>,
}

/// The two bytes that open every command.
pub open spec fn has_magic(data: Seq<u8>) -> bool {
    data.len() >= 2 && data[0] == 0x13 && data[1] == 0x37
}

/// The hexadecimal digits of bytes 2, 3 and 4, most significant first: the six characters that
/// the coordinates are read from.
pub open spec fn coord_digit(data: Seq<u8>, i: int) -> int {
    let b = data[2 + i / 2];
    if i % 2 == 0 {
        (b / 16) as int
    } else {
        (b % 16) as int
    }
}

/// Each of the six coordinate digits is a decimal digit.
pub open spec fn coord_digits_decimal(data: Seq<u8>) -> bool {
    forall|i: int| 0 <= i < 6 ==> #[trigger] coord_digit(data, i) < 10
}

/// What a remark means as a command: two magic bytes, three bytes whose six hexadecimal digits
/// read as two three-digit decimal numbers `x` and `y`, and three colour bytes.
pub open spec fn spec_parse_command(data: Seq<u8>) -> Option<Command> {
    if has_magic(data) && data.len() == 8 && coord_digits_decimal(data) {
        Some(
            Command {
                x: (100 * coord_digit(data, 0) + 10 * coord_digit(data, 1) + coord_digit(data, 2)) as u16,
                y: (100 * coord_digit(data, 3) + 10 * coord_digit(data, 4) + coord_digit(data, 5)) as u16,
                rgb: (data[5], data[6], data[7]),
            },
        )
    } else {
        None
    }
}

impl Command {
    /// Parses a command out of a remark.
    pub fn parse(data: &[u8]) -> (r: Option<Self>)
        ensures
            r == spec_parse_command(data@),
    {
        if data.len() < 2 || data[0] != 0x13 || data[1] != 0x37 {
            return None;
        }
        if data.len() != 8 {
            return None;
        }
        let d0: u8 = data[2] / 16;
        let d1: u8 = data[2] % 16;
        let d2: u8 = data[3] / 16;
        let d3: u8 = data[3] % 16;
        let d4: u8 = data[4] / 16;
        let d5: u8 = data[4] % 16;
        assert(coord_digit(data@, 0) == d0 && coord_digit(data@, 1) == d1);
        assert(coord_digit(data@, 2) == d2 && coord_digit(data@, 3) == d3);
        assert(coord_digit(data@, 4) == d4 && coord_digit(data@, 5) == d5);
        if d0 >= 10 || d1 >= 10 || d2 >= 10 || d3 >= 10 || d4 >= 10 || d5 >= 10 {
            return None;
        }
        assert(coord_digits_decimal(data@)) by {
            assert forall|i: int| 0 <= i < 6 implies #[trigger] coord_digit(data@, i) < 10 by {
                if i == 0 {
                } else if i == 1 {
                } else if i == 2 {
                } else if i == 3 {
                } else if i == 4 {
                } else {
                }
            }
        }
        let x: u16 = 100 * d0 as u16 + 10 * d1 as u16 + d2 as u16;
        let y: u16 = 100 * d3 as u16 + 10 * d4 as u16 + d5 as u16;
        Some(Command { x, y, rgb: (data[5], data[6], data[7]) })
    }
}

/// A command parsed from a remark always lies on the canvas: both coordinates are three decimal
/// digits, so at most 999.
pub proof fn lemma_parsed_command_on_canvas(data: Seq<u8>)
    ensures
        spec_parse_command(data) matches Some(c) ==> c.x < CANVAS_WIDTH && c.y < CANVAS_HEIGHT,
{
    if spec_parse_command(data) is Some {
        assert(coord_digit(data, 0) < 10 && coord_digit(data, 1) < 10 && coord_digit(data, 2) < 10);
        assert(coord_digit(data, 3) < 10 && coord_digit(data, 4) < 10 && coord_digit(data, 5) < 10);
        assert(coord_digit(data, 0) >= 0 && coord_digit(data, 1) >= 0 && coord_digit(data, 2) >= 0);
        assert(coord_digit(data, 3) >= 0 && coord_digit(data, 4) >= 0 && coord_digit(data, 5) >= 0);
    }
}

/// The eight bytes of a remark that commands the pixel at (`x`, `y`) to take the colour `rgb`:
/// the magic bytes, then the six decimal digits of `x` and `y` (three each, most significant
/// first) packed two to a byte, high nibble first, then the colour.
pub open spec fn command_bytes(x: nat, y: nat, rgb: (u8, u8, u8)) -> Seq<u8> {
    seq![
        0x13u8,
        0x37u8,
        (16 * (x / 100) + (x / 10) % 10) as u8,
        (16 * (x % 10) + y / 100) as u8,
        (16 * ((y / 10) % 10) + y % 10) as u8,
        rgb.0,
        rgb.1,
        rgb.2,
    ]
}

/// Every pixel of the canvas and every colour can be commanded: the remark that writes the
/// coordinates as decimal digits parses back to exactly that command.
pub proof fn lemma_command_bytes_parse(x: nat, y: nat, rgb: (u8, u8, u8))
    requires
        x < 1000,
        y < 1000,
    ensures
        spec_parse_command(command_bytes(x, y, rgb)) == Some(
            Command { x: x as u16, y: y as u16, rgb },
        ),
{
    let d = command_bytes(x, y, rgb);
    let (x2, x1, x0) = (x / 100, (x / 10) % 10, x % 10);
    let (y2, y1, y0) = (y / 100, (y / 10) % 10, y % 10);
    assert(x2 < 10 && x1 < 10 && x0 < 10 && x == 100 * x2 + 10 * x1 + x0) by (nonlinear_arith)
        requires
            x < 1000,
            x2 == x / 100,
            x1 == (x / 10) % 10,
            x0 == x % 10,
    ;
    assert(y2 < 10 && y1 < 10 && y0 < 10 && y == 100 * y2 + 10 * y1 + y0) by (nonlinear_arith)
        requires
            y < 1000,
            y2 == y / 100,
            y1 == (y / 10) % 10,
            y0 == y % 10,
    ;
    assert forall|h: nat, l: nat| h < 16 && l < 16 implies #[trigger] ((16 * h + l) / 16) == h
        && (16 * h + l) % 16 == l by {
        assert((16 * h + l) / 16 == h && (16 * h + l) % 16 == l) by (nonlinear_arith)
            requires
                h < 16,
                l < 16,
        ;
    }
    assert(((16 * x2 + x1) / 16) == x2);
    assert(((16 * x0 + y2) / 16) == x0);
    assert(((16 * y1 + y0) / 16) == y1);
    assert(coord_digit(d, 0) == x2 && coord_digit(d, 1) == x1 && coord_digit(d, 2) == x0);
    assert(coord_digit(d, 3) == y2 && coord_digit(d, 4) == y1 && coord_digit(d, 5) == y0);
    assert(coord_digits_decimal(d)) by {
        assert forall|i: int| 0 <= i < 6 implies #[trigger] coord_digit(d, i) < 10 by {
            if i == 0 {
            } else if i == 1 {
            } else if i == 2 {
            } else if i == 3 {
            } else if i == 4 {
            } else {
            }
        }
    }
}

/// A remark parses only if it is such an encoding: the command it gives is the one whose
/// encoding the remark is. In particular the colour is the last three bytes, unchanged.
pub proof fn lemma_parsed_command_is_encoded(data: Seq<u8>)
    ensures
        spec_parse_command(data) matches Some(c) ==> {
            &&& c.x < 1000
            &&& c.y < 1000
            &&& c.rgb == (data[5], data[6], data[7])
            &&& data =~= command_bytes(c.x as nat, c.y as nat, c.rgb)
        },
{
    if spec_parse_command(data) is Some {
        let c = spec_parse_command(data)->0;
        let (a, b, e) = (data[2], data[3], data[4]);
        let (x2, x1, x0) = (a / 16, a % 16, b / 16);
        let (y2, y1, y0) = (b % 16, e / 16, e % 16);
        assert(coord_digit(data, 0) == x2 && coord_digit(data, 1) == x1 && coord_digit(data, 2) == x0);
        assert(coord_digit(data, 3) == y2 && coord_digit(data, 4) == y1 && coord_digit(data, 5) == y0);
        assert(x2 < 10 && x1 < 10 && x0 < 10 && y2 < 10 && y1 < 10 && y0 < 10);
        let x: nat = (100 * x2 + 10 * x1 + x0) as nat;
        let y: nat = (100 * y2 + 10 * y1 + y0) as nat;
        assert(c.x == x && c.y == y);
        assert(x / 100 == x2 && (x / 10) % 10 == x1 && x % 10 == x0) by (nonlinear_arith)
            requires
                x == 100 * x2 + 10 * x1 + x0,
                x2 < 10,
                x1 < 10,
                x0 < 10,
        ;
        assert(y / 100 == y2 && (y / 10) % 10 == y1 && y % 10 == y0) by (nonlinear_arith)
            requires
                y == 100 * y2 + 10 * y1 + y0,
                y2 < 10,
                y1 < 10,
                y0 < 10,
        ;
        assert(a == 16 * x2 + x1 && b == 16 * x0 + y2 && e == 16 * y1 + y0);
        assert(data =~= command_bytes(x, y, c.rgb));
    }
}

} // verus!
