//! The picture, byte for byte: what each pixel shows, in terms of video memory, object memory and
//! the display's registers.

use vstd::prelude::*;

use crate::laws::law_picture_is_gray_and_opaque;
use crate::machine::MachineState;
use crate::render::{intensity_of, tile_color};

verus! {

/// A bit of a byte, as a number.
pub open spec fn digit(value: u8, bit: int) -> int {
    value as int / seq![1int, 2, 4, 8, 16, 32, 64, 128][bit] % 2
}

/// The brightness that a palette gives to a color: each two bits of it choose one of four shades.
pub open spec fn shade_of(color: int, palette: u8) -> u8 {
    let choice = palette as int / seq![1int, 4, 16, 64][color] % 4;
    seq![0xE0u8, 0xA8, 0x60, 0x18][choice]
}

proof fn lemma_digits(value: u8, palette: u8, bit: u8)
    requires
        bit < 8,
    ensures
        (value >> bit) & 1 == digit(value, bit as int),
        value & 0x01 != 0 <==> digit(value, 0) == 1,
        value & 0x02 != 0 <==> digit(value, 1) == 1,
        value & 0x04 != 0 <==> digit(value, 2) == 1,
        value & 0x08 != 0 <==> digit(value, 3) == 1,
        value & 0x10 != 0 <==> digit(value, 4) == 1,
        value & 0x20 != 0 <==> digit(value, 5) == 1,
        value & 0x40 != 0 <==> digit(value, 6) == 1,
        value & 0x80 != 0 <==> digit(value, 7) == 1,
        (palette >> 0u8) & 0x03 == palette as int % 4,
        (palette >> 2u8) & 0x03 == palette as int / 4 % 4,
        (palette >> 4u8) & 0x03 == palette as int / 16 % 4,
        (palette >> 6u8) & 0x03 == palette as int / 64 % 4,
{
    assert((bit == 0 ==> (value >> bit) & 1 == value % 2) && (bit == 1 ==> (value >> bit) & 1 == (
    value / 2) % 2) && (bit == 2 ==> (value >> bit) & 1 == (value / 4) % 2) && (bit == 3 ==> (value
        >> bit) & 1 == (value / 8) % 2) && (bit == 4 ==> (value >> bit) & 1 == (value / 16) % 2) && (
    bit == 5 ==> (value >> bit) & 1 == (value / 32) % 2) && (bit == 6 ==> (value >> bit) & 1 == (
    value / 64) % 2) && (bit == 7 ==> (value >> bit) & 1 == (value / 128) % 2) && (value & 0x01 != 0
        <==> value % 2 == 1) && (value & 0x02 != 0 <==> (value / 2) % 2 == 1) && (value & 0x04 != 0
        <==> (value / 4) % 2 == 1) && (value & 0x08 != 0 <==> (value / 8) % 2 == 1) && (value & 0x10
        != 0 <==> (value / 16) % 2 == 1) && (value & 0x20 != 0 <==> (value / 32) % 2 == 1) && (value
        & 0x40 != 0 <==> (value / 64) % 2 == 1) && (value & 0x80 != 0 <==> (value / 128) % 2 == 1)
        && ((palette >> 0u8) & 0x03 == palette % 4) && ((palette >> 2u8) & 0x03 == (palette / 4) % 4)
        && ((palette >> 4u8) & 0x03 == (palette / 16) % 4) && ((palette >> 6u8) & 0x03 == (palette / 64)
        % 4)) by (bit_vector)
        requires
            bit < 8,
    ;
}

impl MachineState {
    /// A bit of the display's control register.
    pub open spec fn display_bit(self, bit: int) -> bool {
        digit(self.io[0x40], bit) == 1
    }

    /// The color of a row of a tile, whose two bytes are there, at a column: one bit of each, the
    /// highest at the left.
    pub open spec fn row_color(self, row: int, column: int) -> int {
        2 * digit(self.vram[row + 1], 7 - column) + digit(self.vram[row], 7 - column)
    }

    /// The color of one of the two maps of 256 by 256 pixels: 32 by 32 tiles of 8 by 8, whose numbers
    /// are unsigned or signed.
    pub open spec fn map_color(self, second: bool, x: int, y: int) -> int {
        let number = self.vram[(if second { 0x1C00int } else { 0x1800 }) + 32 * (y / 8) + x / 8];
        let tile = if self.display_bit(4) {
            16 * number
        } else if number < 128 {
            0x1000 + 16 * number
        } else {
            16 * number
        };
        self.row_color(tile + 2 * (y % 8), x % 8)
    }

    /// The first column of the window.
    pub open spec fn window_column(self) -> int {
        if self.io[0x4B] < 7 {
            0
        } else {
            self.io[0x4B] - 7
        }
    }

    /// Whether the window covers a pixel: it is on, and reaches from its corner to the right and down.
    pub open spec fn window_covers(self, x: int, y: int) -> bool {
        self.display_bit(5) && y >= self.io[0x4A] && x >= self.window_column()
    }

    /// The color behind the sprites: that of the window where it covers the pixel, else of the
    /// background, which the scroll registers move around; none where both are off.
    pub open spec fn backdrop(self, x: int, y: int) -> Option<int> {
        if !self.display_bit(0) {
            None
        } else if self.window_covers(x, y) {
            Some(
                self.map_color(
                    self.display_bit(6),
                    x - self.window_column(),
                    y - self.io[0x4A],
                ),
            )
        } else {
            Some(
                self.map_color(
                    self.display_bit(3),
                    (x + self.io[0x43]) % 256,
                    (y + self.io[0x42]) % 256,
                ),
            )
        }
    }

    pub open spec fn backdrop_shade(self, x: int, y: int) -> u8 {
        match self.backdrop(x, y) {
            Some(color) => shade_of(color, self.io[0x47]),
            None => 0xE0,
        }
    }
}

proof fn lemma_tile_color(data1: u8, data2: u8, bit: u8)
    requires
        bit < 8,
    ensures
        tile_color(data1, data2, bit) == 2 * digit(data2, bit as int) + digit(data1, bit as int),
{
    lemma_digits(data1, 0, bit);
    lemma_digits(data2, 0, bit);
}

proof fn lemma_shade(color: u8, palette: u8)
    requires
        color <= 3,
    ensures
        intensity_of(color, palette) == shade_of(color as int, palette),
{
    lemma_digits(0, palette, 0);
    let choices = seq![1int, 4, 16, 64];
    assert(choices[0] == 1 && choices[1] == 4 && choices[2] == 16 && choices[3] == 64);
    let shades = seq![0xE0u8, 0xA8, 0x60, 0x18];
    assert(shades[0] == 0xE0 && shades[1] == 0xA8 && shades[2] == 0x60 && shades[3] == 0x18);
    if color == 0 {
        assert((color * 2) as u8 == 0);
    } else if color == 1 {
        assert((color * 2) as u8 == 2);
    } else if color == 2 {
        assert((color * 2) as u8 == 4);
    } else {
        assert((color * 2) as u8 == 6);
    }
}

proof fn lemma_map(machine: MachineState, second: bool, x: int, y: int)
    requires
        0 <= x < 256,
        0 <= y < 256,
    ensures
        machine.map_pixel(x, y, second) == machine.map_color(second, x, y),
        0 <= machine.map_color(second, x, y) <= 3,
{
    reveal(MachineState::map_pixel);
    lemma_digits(machine.io[0x40], 0, 0);
    let number = machine.vram[(if second { 0x1C00int } else { 0x1800 }) + 32 * (y / 8) + x / 8];
    let tile = if machine.display_bit(4) {
        16 * number
    } else if number < 128 {
        0x1000 + 16 * number
    } else {
        16 * number
    };
    let row = tile + 2 * (y % 8);
    lemma_tile_color(machine.vram[row], machine.vram[row + 1], (7 - x % 8) as u8);
}

proof fn lemma_backdrop(machine: MachineState, x: int, y: int)
    requires
        0 <= x < 160,
        0 <= y < 144,
    ensures
        match machine.background_color(x, y) {
            Some(color) => machine.backdrop(x, y) == Some(color as int) && color <= 3,
            None => machine.backdrop(x, y) is None,
        },
{
    reveal(MachineState::background_color);
    lemma_digits(machine.io[0x40], 0, 0);
    if machine.window_covers(x, y) {
        lemma_map(
            machine,
            machine.display_bit(6),
            x - machine.window_column(),
            y - machine.io[0x4A],
        );
    } else {
        lemma_map(
            machine,
            machine.display_bit(3),
            (x + machine.io[0x43]) % 256,
            (y + machine.io[0x42]) % 256,
        );
    }
}

/// Where sprites and window are off, a pixel of the frame is the shade of the background, scrolled by
/// `SCX` and `SCY` around its 256 by 256 map: of the tile that the map names there, one bit of each of
/// the two bytes of the row.
pub proof fn law_background_is_scrolled(machine: MachineState, x: int, y: int)
    requires
        0 <= x < 160,
        0 <= y < 144,
        machine.display_bit(7),
        machine.display_bit(0),
        !machine.display_bit(1),
        !machine.display_bit(5),
    ensures
        ({
            let column = (x + machine.io[0x43]) % 256;
            let line = (y + machine.io[0x42]) % 256;
            let map: int = if machine.display_bit(3) { 0x1C00 } else { 0x1800 };
            let number = machine.vram[map + 32 * (line / 8) + column / 8];
            let tile = if machine.display_bit(4) || number >= 128 {
                16 * number
            } else {
                0x1000 + 16 * number
            };
            let lower = machine.vram[tile + 2 * (line % 8)];
            let upper = machine.vram[tile + 2 * (line % 8) + 1];
            let color = 2 * digit(upper, 7 - column % 8) + digit(lower, 7 - column % 8);
            machine.frame_bytes(4 * 160 * 144)[4 * (160 * y + x)] == shade_of(color, machine.io[0x47])
        }),
{
    reveal(MachineState::pixel);
    law_picture_is_gray_and_opaque(machine, x, y);
    lemma_backdrop(machine, x, y);
    lemma_digits(machine.io[0x40], 0, 0);
    let color = machine.background_color(x, y)->0;
    lemma_shade(color, machine.io[0x47]);
}

/// Two machines that differ only in the scroll registers show the same picture, moved: what the one
/// shows at a pixel, the other shows where the difference in scroll takes it.
pub proof fn law_scrolling_moves_the_picture(
    machine: MachineState,
    scroll_x: u8,
    scroll_y: u8,
    x: int,
    y: int,
    x2: int,
    y2: int,
)
    requires
        machine.io.len() == 0x80,
        0 <= x < 160,
        0 <= y < 144,
        0 <= x2 < 160,
        0 <= y2 < 144,
        (x + machine.io[0x43]) % 256 == (x2 + scroll_x) % 256,
        (y + machine.io[0x42]) % 256 == (y2 + scroll_y) % 256,
        machine.display_bit(7),
        machine.display_bit(0),
        !machine.display_bit(1),
        !machine.display_bit(5),
    ensures
        ({
            let other = MachineState {
                io: machine.io.update(0x42, scroll_y).update(0x43, scroll_x),
                ..machine
            };
            machine.frame_bytes(4 * 160 * 144)[4 * (160 * y + x)] == other.frame_bytes(
                4 * 160 * 144,
            )[4 * (160 * y2 + x2)]
        }),
{
    let other = MachineState {
        io: machine.io.update(0x42, scroll_y).update(0x43, scroll_x),
        ..machine
    };
    law_background_is_scrolled(machine, x, y);
    law_background_is_scrolled(other, x2, y2);
}

impl MachineState {
    /// The height of all sprites.
    pub open spec fn object_height(self) -> int {
        if self.display_bit(2) {
            16
        } else {
            8
        }
    }

    /// The row of a sprite on a line; its first byte is its top edge and 16 more.
    pub open spec fn object_row(self, sprite: int, y: int) -> int {
        (y + 16 - self.oam[4 * sprite]) % 256
    }

    /// The column of a sprite at a pixel; its second byte is its left edge and 8 more.
    pub open spec fn object_column(self, sprite: int, x: int) -> int {
        (x + 8 - self.oam[4 * sprite + 1]) % 256
    }

    pub open spec fn crosses(self, sprite: int, y: int) -> bool {
        self.object_row(sprite, y) < self.object_height()
    }

    /// How many of the first sprites cross a line.
    pub open spec fn crossing(self, count: int, y: int) -> int
        decreases count,
    {
        if count <= 0 {
            0
        } else {
            self.crossing(count - 1, y) + (if self.crosses(count - 1, y) { 1int } else { 0 })
        }
    }

    /// The color of a sprite where it covers a pixel: its third byte is its tile, of a tall sprite the
    /// pair that the even number begins; its fourth mirrors it by bits 5 and 6.
    pub open spec fn object_color(self, sprite: int, x: int, y: int) -> int {
        let attributes = self.oam[4 * sprite + 3];
        let row = if digit(attributes, 6) == 1 {
            self.object_height() - 1 - self.object_row(sprite, y)
        } else {
            self.object_row(sprite, y)
        };
        let column = if digit(attributes, 5) == 1 {
            7 - self.object_column(sprite, x)
        } else {
            self.object_column(sprite, x)
        };
        let tile = if self.display_bit(2) {
            self.oam[4 * sprite + 2] - self.oam[4 * sprite + 2] % 2
        } else {
            self.oam[4 * sprite + 2] as int
        };
        self.row_color(16 * tile + 2 * row, column)
    }

    /// Whether a sprite is drawn at a pixel: it is among the first ten on the line, covers the pixel,
    /// has a color other than 0 there, and is not behind a backdrop with one.
    pub open spec fn drawn(self, sprite: int, x: int, y: int) -> bool {
        &&& 0 <= sprite < 40
        &&& self.crosses(sprite, y)
        &&& self.crossing(sprite, y) < 10
        &&& self.object_column(sprite, x) < 8
        &&& self.object_color(sprite, x, y) != 0
        &&& digit(self.oam[4 * sprite + 3], 7) == 0 || self.backdrop(x, y) is None || self.backdrop(
            x,
            y,
        ) == Some(0int)
    }

    /// Of two sprites the one further left is in front, and of two at one place the earlier.
    pub open spec fn before(self, first: int, second: int) -> bool {
        let left = (self.oam[4 * first + 1] - 8) % 256;
        let other = (self.oam[4 * second + 1] - 8) % 256;
        left < other || left == other && first <= second
    }
}

proof fn lemma_crossing(machine: MachineState, count: int, y: int)
    requires
        count <= 40,
    ensures
        machine.sprites_on_line(count, y) == machine.crossing(count, y),
    decreases count,
{
    lemma_digits(machine.io[0x40], 0, 0);
    if count > 0 {
        lemma_crossing(machine, count - 1, y);
        lemma_crosses(machine, count - 1, y);
    }
}

proof fn lemma_crosses(machine: MachineState, sprite: int, y: int)
    ensures
        machine.sprite_height() == machine.object_height(),
        machine.sprite_row(sprite, y) == machine.object_row(sprite, y),
        machine.on_line(sprite, y) == machine.crosses(sprite, y),
{
    lemma_digits(machine.io[0x40], 0, 0);
    assert(sprite * 4 == 4 * sprite);
}

proof fn lemma_object_color(machine: MachineState, sprite: int, x: int, y: int)
    requires
        0 <= sprite < 40,
        machine.crosses(sprite, y),
        machine.object_column(sprite, x) < 8,
    ensures
        machine.sprite_color(sprite, x, y) == machine.object_color(sprite, x, y),
        0 <= machine.object_color(sprite, x, y) <= 3,
        machine.sprite_column(sprite, x) == machine.object_column(sprite, x),
{
    reveal(MachineState::sprite_color);
    lemma_crosses(machine, sprite, y);
    lemma_digits(machine.io[0x40], 0, 0);
    lemma_digits(machine.oam[4 * sprite + 3], 0, 0);
    lemma_column(machine, sprite, x);
    let attributes = machine.oam[4 * sprite + 3];
    let row = if digit(attributes, 6) == 1 {
        machine.object_height() - 1 - machine.object_row(sprite, y)
    } else {
        machine.object_row(sprite, y)
    };
    let column = if digit(attributes, 5) == 1 {
        7 - machine.object_column(sprite, x)
    } else {
        machine.object_column(sprite, x)
    };
    let number = machine.oam[4 * sprite + 2];
    let tile = if machine.display_bit(2) {
        number / 2 * 2 + row / 8
    } else {
        number as int
    };
    let place = tile * 16 + row % 8 * 2;
    assert(0 <= row < 16 && 0 <= column < 8);
    lemma_tile_color(machine.vram[place], machine.vram[place + 1], (7 - column) as u8);
    assert(place == 16 * (if machine.display_bit(2) { number - number % 2 } else { number as int })
        + 2 * row);
}

proof fn lemma_column(machine: MachineState, sprite: int, x: int)
    ensures
        machine.sprite_column(sprite, x) == machine.object_column(sprite, x),
        machine.sprite_left(sprite) == (machine.oam[4 * sprite + 1] - 8) % 256,
{
    let edge = machine.oam[4 * sprite + 1] - 8;
    assert((x - edge % 256) % 256 == (x - edge) % 256);
}

proof fn lemma_drawn(machine: MachineState, sprite: int, x: int, y: int)
    requires
        0 <= x < 160,
        0 <= y < 144,
    ensures
        machine.sprite_visible(sprite, x, y) == machine.drawn(sprite, x, y),
{
    lemma_backdrop(machine, x, y);
    if 0 <= sprite < 40 {
        lemma_crosses(machine, sprite, y);
        lemma_crossing(machine, sprite, y);
        lemma_column(machine, sprite, x);
        lemma_digits(machine.oam[4 * sprite + 3], 0, 0);
        if machine.crosses(sprite, y) && machine.object_column(sprite, x) < 8 {
            lemma_object_color(machine, sprite, x, y);
        }
    }
}

/// A pixel shows the frontmost sprite that is drawn there, in the shade that one of the two sprite
/// palettes gives its color, as its attributes choose.
pub proof fn law_frontmost_sprite_is_shown(machine: MachineState, sprite: int, x: int, y: int)
    requires
        0 <= x < 160,
        0 <= y < 144,
        machine.display_bit(7),
        machine.display_bit(1),
        machine.drawn(sprite, x, y),
        forall|other: int| #[trigger]
            machine.drawn(other, x, y) ==> machine.before(sprite, other),
    ensures
        machine.frame_bytes(4 * 160 * 144)[4 * (160 * y + x)] == shade_of(
            machine.object_color(sprite, x, y),
            if digit(machine.oam[4 * sprite + 3], 4) == 1 {
                machine.io[0x49]
            } else {
                machine.io[0x48]
            },
        ),
{
    reveal(MachineState::pixel);
    law_picture_is_gray_and_opaque(machine, x, y);
    lemma_digits(machine.io[0x40], 0, 0);
    lemma_digits(machine.oam[4 * sprite + 3], 0, 0);
    lemma_drawn(machine, sprite, x, y);
    assert forall|other: int| #[trigger] machine.sprite_visible(other, x, y) implies machine.in_front(
        sprite,
        other,
    ) by {
        lemma_drawn(machine, other, x, y);
        lemma_column(machine, sprite, x);
        lemma_column(machine, other, x);
        assert(machine.before(sprite, other));
    }
    assert(machine.is_top_sprite(sprite, x, y));
    let chosen = choose|chosen: int| machine.is_top_sprite(chosen, x, y);
    assert(machine.in_front(sprite, chosen) && machine.in_front(chosen, sprite));
    assert(chosen == sprite);
    lemma_object_color(machine, sprite, x, y);
    lemma_shade(
        machine.sprite_color(sprite, x, y),
        if digit(machine.oam[4 * sprite + 3], 4) == 1 {
            machine.io[0x49]
        } else {
            machine.io[0x48]
        },
    );
}

/// A pixel with no sprite drawn, or with sprites switched off, shows window or background; with the
/// display off every pixel is of the lightest shade.
pub proof fn law_backdrop_is_shown(machine: MachineState, x: int, y: int)
    requires
        0 <= x < 160,
        0 <= y < 144,
    ensures
        ({
            let byte = machine.frame_bytes(4 * 160 * 144)[4 * (160 * y + x)];
            &&& machine.display_bit(7) && (!machine.display_bit(1) || forall|sprite: int|
                !#[trigger] machine.drawn(sprite, x, y)) ==> byte == machine.backdrop_shade(x, y)
            &&& !machine.display_bit(7) ==> byte == 0xE0
        }),
{
    reveal(MachineState::pixel);
    law_picture_is_gray_and_opaque(machine, x, y);
    lemma_digits(machine.io[0x40], 0, 0);
    lemma_backdrop(machine, x, y);
    if machine.background_color(x, y) is Some {
        lemma_shade(machine.background_color(x, y)->0, machine.io[0x47]);
    }
    if forall|sprite: int| !#[trigger] machine.drawn(sprite, x, y) {
        assert forall|sprite: int| !#[trigger] machine.is_top_sprite(sprite, x, y) by {
            lemma_drawn(machine, sprite, x, y);
            assert(!machine.drawn(sprite, x, y));
        }
    }
}

} // verus!
