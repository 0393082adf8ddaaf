//! The picture: background, window and sprites, pixel by pixel.

use vstd::prelude::*;

use crate::alu::signed;
use crate::interface::FrameBuffer;
use crate::machine::{GbMachine, MachineState, FRAME_HEIGHT, FRAME_WIDTH, LCDC_REGISTER, SCROLL_X};

verus! {

pub const SCROLL_Y: u16 = 0xFF42;

pub const BG_PALETTE: u16 = 0xFF47;

pub const OBJ_PALETTE_0: u16 = 0xFF48;

pub const OBJ_PALETTE_1: u16 = 0xFF49;

pub const WINDOW_Y: u16 = 0xFF4A;

pub const WINDOW_X: u16 = 0xFF4B;

/// The brightness of the lightest shade, which an empty screen shows.
pub const LIGHTEST: u8 = 0xE0;

/// The number of sprites in object memory.
pub const SPRITES: usize = 40;

/// The number of sprites that a line shows.
pub const SPRITES_PER_LINE: usize = 10;

/// The brightness that a palette gives to a color.
pub open spec fn intensity_of(color: u8, palette: u8) -> u8 {
    let shade = (palette >> ((color * 2) as u8)) & 0x03;
    if shade == 0 {
        LIGHTEST
    } else if shade == 1 {
        0xA8
    } else if shade == 2 {
        0x60
    } else {
        0x18
    }
}

/// The color of a pixel in a row of a tile: one bit of each of the row's two bytes.
pub open spec fn tile_color(data1: u8, data2: u8, bit: u8) -> u8 {
    (((data2 >> bit) & 1) * 2 + ((data1 >> bit) & 1)) as u8
}

impl MachineState {
    /// A pixel of a tile, the tiles taken in the order of their data.
    pub open spec fn tile_pixel(self, tile: int, line: int, column: int) -> u8 {
        tile_color(
            self.vram[tile * 16 + line * 2],
            self.vram[tile * 16 + line * 2 + 1],
            (7 - column) as u8,
        )
    }

    /// The color of a pixel of one of the two maps.
    #[verifier::opaque]
    pub open spec fn map_pixel(self, x: int, y: int, map_high: bool) -> u8 {
        let map_base: int = if map_high {
            0x1C00
        } else {
            0x1800
        };
        let number = self.vram[map_base + y / 8 * 32 + x / 8];
        let tile = if self.reg(LCDC_REGISTER) & 0x10 != 0 {
            number as int
        } else {
            256 + signed(number)
        };
        self.tile_pixel(tile, y % 8, x % 8)
    }

    /// The left edge of the window.
    pub open spec fn window_left(self) -> int {
        if self.reg(WINDOW_X) <= 7 {
            0
        } else {
            self.reg(WINDOW_X) - 7
        }
    }

    pub open spec fn in_window(self, x: int, y: int) -> bool {
        &&& self.reg(LCDC_REGISTER) & 0x20 != 0
        &&& y >= self.reg(WINDOW_Y)
        &&& x >= self.window_left()
    }

    /// The color of background or window, where they are shown at all.
    #[verifier::opaque]
    pub open spec fn background_color(self, x: int, y: int) -> Option<u8> {
        let lcdc = self.reg(LCDC_REGISTER);
        if lcdc & 0x01 == 0 {
            None
        } else if self.in_window(x, y) {
            Some(
                self.map_pixel(
                    x - self.window_left(),
                    y - self.reg(WINDOW_Y),
                    lcdc & 0x40 != 0,
                ),
            )
        } else {
            Some(
                self.map_pixel(
                    (x + self.reg(SCROLL_X)) % 256,
                    (y + self.reg(SCROLL_Y)) % 256,
                    lcdc & 0x08 != 0,
                ),
            )
        }
    }

    pub open spec fn sprite_height(self) -> int {
        if self.reg(LCDC_REGISTER) & 0x04 != 0 {
            16
        } else {
            8
        }
    }

    /// The left edge of a sprite; edges beyond the left of the screen wrap.
    pub open spec fn sprite_left(self, sprite: int) -> int {
        (self.oam[sprite * 4 + 1] - 8) % 256
    }

    /// The row of a sprite that a line crosses.
    pub open spec fn sprite_row(self, sprite: int, y: int) -> int {
        (y - (self.oam[sprite * 4] - 16)) % 256
    }

    pub open spec fn sprite_column(self, sprite: int, x: int) -> int {
        (x - self.sprite_left(sprite)) % 256
    }

    pub open spec fn sprite_flags(self, sprite: int) -> u8 {
        self.oam[sprite * 4 + 3]
    }

    pub open spec fn on_line(self, sprite: int, y: int) -> bool {
        self.sprite_row(sprite, y) < self.sprite_height()
    }

    /// How many of the first sprites are on a line.
    pub open spec fn sprites_on_line(self, count: int, y: int) -> int
        decreases count,
    {
        if count <= 0 {
            0
        } else if self.on_line(count - 1, y) {
            self.sprites_on_line(count - 1, y) + 1
        } else {
            self.sprites_on_line(count - 1, y)
        }
    }

    /// A line shows the first ten of its sprites.
    pub open spec fn line_shows(self, sprite: int, y: int) -> bool {
        &&& 0 <= sprite < SPRITES
        &&& self.on_line(sprite, y)
        &&& self.sprites_on_line(sprite, y) < SPRITES_PER_LINE
    }

    /// The color of a sprite at a pixel that it covers.
    #[verifier::opaque]
    pub open spec fn sprite_color(self, sprite: int, x: int, y: int) -> u8 {
        let flags = self.sprite_flags(sprite);
        let row = self.sprite_row(sprite, y);
        let line = if flags & 0x40 != 0 {
            self.sprite_height() - 1 - row
        } else {
            row
        };
        let tile = if self.sprite_height() == 16 {
            self.oam[sprite * 4 + 2] / 2 * 2 + line / 8
        } else {
            self.oam[sprite * 4 + 2] as int
        };
        let column = self.sprite_column(sprite, x);
        self.tile_pixel(
            tile,
            line % 8,
            if flags & 0x20 != 0 {
                7 - column
            } else {
                column
            },
        )
    }

    /// Whether a sprite may color a pixel: its line shows it, it covers the pixel with a color, and
    /// it is not behind a background that has one.
    pub open spec fn sprite_visible(self, sprite: int, x: int, y: int) -> bool {
        &&& self.line_shows(sprite, y)
        &&& self.sprite_column(sprite, x) < 8
        &&& self.sprite_color(sprite, x, y) != 0
        &&& !(self.sprite_flags(sprite) & 0x80 != 0 && self.background_covers(x, y))
    }

    pub open spec fn background_covers(self, x: int, y: int) -> bool {
        self.background_color(x, y) is Some && self.background_color(x, y)->0 != 0
    }

    /// Of two sprites the one further left is in front, and then the earlier one.
    pub open spec fn in_front(self, first: int, second: int) -> bool {
        ||| self.sprite_left(first) < self.sprite_left(second)
        ||| self.sprite_left(first) == self.sprite_left(second) && first <= second
    }

    pub open spec fn is_top_sprite(self, sprite: int, x: int, y: int) -> bool {
        &&& self.sprite_visible(sprite, x, y)
        &&& forall|other: int| #[trigger]
            self.sprite_visible(other, x, y) ==> self.in_front(sprite, other)
    }

    /// The brightness of a pixel.
    #[verifier::opaque]
    pub open spec fn pixel(self, x: int, y: int) -> u8 {
        if !self.lcd_enabled() {
            LIGHTEST
        } else if self.reg(LCDC_REGISTER) & 0x02 != 0 && exists|sprite: int|
            self.is_top_sprite(sprite, x, y) {
            let sprite = choose|sprite: int| self.is_top_sprite(sprite, x, y);
            intensity_of(
                self.sprite_color(sprite, x, y),
                if self.sprite_flags(sprite) & 0x10 != 0 {
                    self.reg(OBJ_PALETTE_1)
                } else {
                    self.reg(OBJ_PALETTE_0)
                },
            )
        } else {
            match self.background_color(x, y) {
                Some(color) => intensity_of(color, self.reg(BG_PALETTE)),
                None => LIGHTEST,
            }
        }
    }

    /// The first bytes of the picture: three equal color bytes and an opaque alpha for each pixel.
    pub open spec fn frame_bytes(self, len: nat) -> Seq<u8> {
        Seq::new(
            len,
            |i: int|
                if i % 4 == 3 {
                    0xFF
                } else {
                    self.pixel(i / 4 % 160, i / 640)
                },
        )
    }
}

/// Two bits make a color, and two halves of an even number and its parity make a byte.
proof fn lemma_color_bits(data1: u8, data2: u8, bit: u8)
    ensures
        (((data2 >> bit) & 1) << 1) | ((data1 >> bit) & 1) == tile_color(data1, data2, bit),
        tile_color(data1, data2, bit) <= 3,
{
    let a = (data1 >> bit) & 1;
    let b = (data2 >> bit) & 1;
    assert(a <= 1 && b <= 1 && (b << 1) | a == b * 2 + a) by (bit_vector)
        requires
            a == (data1 >> bit) & 1,
            b == (data2 >> bit) & 1,
    ;
}

/// The number of sprites on a line grows with the sprites counted.
proof fn lemma_count_grows(state: MachineState, first: int, second: int, y: int)
    requires
        0 <= first <= second,
    ensures
        0 <= state.sprites_on_line(first, y) <= state.sprites_on_line(second, y),
    decreases second,
{
    if second > 0 {
        if first < second {
            lemma_count_grows(state, first, second - 1, y);
        } else {
            lemma_count_grows(state, first - 1, second - 1, y);
        }
    }
}

fn palette_to_intensity(color_index: u8, palette: u8) -> (intensity: u8)
    requires
        color_index <= 3,
    ensures
        intensity == intensity_of(color_index, palette),
{
    match (palette >> (color_index * 2)) & 0x03 {
        0 => LIGHTEST,
        1 => 0xA8,
        2 => 0x60,
        _ => 0x18,
    }
}

impl GbMachine {
    fn tile_pixel(&self, tile: usize, line: usize, column: u8) -> (color: u8)
        requires
            tile < 512,
            line < 8,
            column < 8,
        ensures
            color == self@.tile_pixel(tile as int, line as int, column as int),
            color <= 3,
    {
        let data1: u8 = self.vram[tile * 16 + line * 2];
        let data2: u8 = self.vram[tile * 16 + line * 2 + 1];
        let bit: u8 = 7 - column;
        proof {
            lemma_color_bits(data1, data2, bit);
        }
        (((data2 >> bit) & 1) << 1) | ((data1 >> bit) & 1)
    }

    fn fetch_bg_window_pixel(&self, x: u8, y: u8, map_high: bool) -> (color: u8)
        ensures
            color == self@.map_pixel(x as int, y as int, map_high),
            color <= 3,
    {
        proof {
            reveal(MachineState::map_pixel);
        }
        let map_base: usize = if map_high {
            0x1C00
        } else {
            0x1800
        };
        let row: usize = (y / 8) as usize;
        let col: usize = (x / 8) as usize;
        let number: u8 = self.vram[map_base + row * 32 + col];
        let tile: usize = if self.register(LCDC_REGISTER) & 0x10 != 0 {
            number as usize
        } else if number < 128 {
            256 + (number as usize)
        } else {
            number as usize
        };
        self.tile_pixel(tile, (y % 8) as usize, x % 8)
    }

    fn background_color(&self, x: u8, y: u8) -> (color: Option<u8>)
        ensures
            color == self@.background_color(x as int, y as int),
            color is Some ==> color->0 <= 3,
    {
        proof {
            reveal(MachineState::background_color);
        }
        let lcdc: u8 = self.register(LCDC_REGISTER);
        if lcdc & 0x01 == 0 {
            return None;
        }
        let window_y: u8 = self.register(WINDOW_Y);
        let window_start_x: u8 = self.register(WINDOW_X).saturating_sub(7);
        if lcdc & 0x20 != 0 && y >= window_y && x >= window_start_x {
            return Some(
                self.fetch_bg_window_pixel(x - window_start_x, y - window_y, lcdc & 0x40 != 0),
            );
        }
        let bg_x: u8 = x.wrapping_add(self.register(SCROLL_X));
        let bg_y: u8 = y.wrapping_add(self.register(SCROLL_Y));
        Some(self.fetch_bg_window_pixel(bg_x, bg_y, lcdc & 0x08 != 0))
    }

    fn sprite_height(&self) -> (height: u8)
        ensures
            height == self@.sprite_height(),
    {
        if self.register(LCDC_REGISTER) & 0x04 != 0 {
            16
        } else {
            8
        }
    }

    fn sprite_left(&self, sprite: usize) -> (left: u8)
        requires
            sprite < SPRITES,
        ensures
            left == self@.sprite_left(sprite as int),
    {
        self.oam[sprite * 4 + 1].wrapping_sub(8)
    }

    fn sprite_row(&self, sprite: usize, y: u8) -> (row: u8)
        requires
            sprite < SPRITES,
        ensures
            row == self@.sprite_row(sprite as int, y as int),
    {
        y.wrapping_sub(self.oam[sprite * 4].wrapping_sub(16))
    }

    /// The sprites that a line shows.
    fn line_sprites(&self, y: u8) -> (sprites: Vec<usize>)
        ensures
            forall|sprite: int|
                self@.line_shows(sprite, y as int) <==> 0 <= sprite < SPRITES
                    && #[trigger] sprites@.contains(sprite as usize),
            forall|i: int| 0 <= i < sprites@.len() ==> #[trigger] sprites@[i] < SPRITES,
    {
        let height: u8 = self.sprite_height();
        let mut sprites: Vec<usize> = Vec::new();
        let mut sprite: usize = 0;
        while sprite < SPRITES
            invariant
                sprite <= SPRITES,
                height == self@.sprite_height(),
                sprites@.len() == if self@.sprites_on_line(sprite as int, y as int)
                    <= SPRITES_PER_LINE {
                    self@.sprites_on_line(sprite as int, y as int)
                } else {
                    SPRITES_PER_LINE as int
                },
                forall|i: int| 0 <= i < sprites@.len() ==> #[trigger] sprites@[i] < sprite,
                forall|i: int|
                    0 <= i < sprites@.len() ==> self@.line_shows(
                        #[trigger] sprites@[i] as int,
                        y as int,
                    ),
                forall|shown: int|
                    0 <= shown < sprite && self@.line_shows(shown, y as int)
                        ==> #[trigger] sprites@.contains(shown as usize),
            decreases SPRITES - sprite,
        {
            proof {
                lemma_count_grows(self@, 0, sprite as int, y as int);
            }
            let ghost before = sprites@;
            if self.sprite_row(sprite, y) < height && sprites.len() < SPRITES_PER_LINE {
                sprites.push(sprite);
                proof {
                    assert(sprites@[before.len() as int] == sprite);
                    assert forall|shown: int|
                        0 <= shown < sprite + 1 && self@.line_shows(
                            shown,
                            y as int,
                        ) implies #[trigger] sprites@.contains(shown as usize) by {
                        if shown < sprite {
                            assert(before.contains(shown as usize));
                            let i = choose|i: int|
                                0 <= i < before.len() && before[i] == shown as usize;
                            assert(sprites@[i] == shown as usize);
                        }
                    }
                }
            }
            sprite = sprite + 1;
        }
        sprites
    }

    /// The color of a sprite at a pixel that it covers.
    fn sprite_color(&self, sprite: usize, x: u8, y: u8) -> (color: u8)
        requires
            sprite < SPRITES,
            self@.on_line(sprite as int, y as int),
            self@.sprite_column(sprite as int, x as int) < 8,
        ensures
            color == self@.sprite_color(sprite as int, x as int, y as int),
            color <= 3,
    {
        proof {
            reveal(MachineState::sprite_color);
        }
        let flags: u8 = self.oam[sprite * 4 + 3];
        let height: u8 = self.sprite_height();
        let row: u8 = self.sprite_row(sprite, y);
        let line: u8 = if flags & 0x40 != 0 {
            height - 1 - row
        } else {
            row
        };
        let number: u8 = self.oam[sprite * 4 + 2];
        let tile: usize = if height == 16 {
            ((number / 2) as usize) * 2 + ((line / 8) as usize)
        } else {
            number as usize
        };
        let column: u8 = x.wrapping_sub(self.sprite_left(sprite));
        self.tile_pixel(
            tile,
            (line % 8) as usize,
            if flags & 0x20 != 0 {
                7 - column
            } else {
                column
            },
        )
    }

    fn sprite_visible(&self, sprite: usize, x: u8, y: u8, background_covers: bool) -> (visible:
        bool)
        requires
            sprite < SPRITES,
            self@.line_shows(sprite as int, y as int),
            background_covers == self@.background_covers(x as int, y as int),
        ensures
            visible == self@.sprite_visible(sprite as int, x as int, y as int),
    {
        let column: u8 = x.wrapping_sub(self.sprite_left(sprite));
        if column >= 8 {
            return false;
        }
        if self.oam[sprite * 4 + 3] & 0x80 != 0 && background_covers {
            return false;
        }
        self.sprite_color(sprite, x, y) != 0
    }

    /// The sprite in front at a pixel.
    fn top_sprite(&self, sprites: &Vec<usize>, x: u8, y: u8, background_covers: bool) -> (top:
        Option<usize>)
        requires
            forall|sprite: int|
                self@.line_shows(sprite, y as int) <==> 0 <= sprite < SPRITES
                    && #[trigger] sprites@.contains(sprite as usize),
            forall|i: int| 0 <= i < sprites@.len() ==> #[trigger] sprites@[i] < SPRITES,
            background_covers == self@.background_covers(x as int, y as int),
        ensures
            match top {
                Some(sprite) => sprite < SPRITES && self@.is_top_sprite(
                    sprite as int,
                    x as int,
                    y as int,
                ),
                None => forall|sprite: int| !self@.sprite_visible(sprite, x as int, y as int),
            },
    {
        let mut top: Option<usize> = None;
        let mut i: usize = 0;
        while i < sprites.len()
            invariant
                i <= sprites@.len(),
                forall|sprite: int|
                    self@.line_shows(sprite, y as int) <==> 0 <= sprite < SPRITES
                        && #[trigger] sprites@.contains(sprite as usize),
                forall|j: int| 0 <= j < sprites@.len() ==> #[trigger] sprites@[j] < SPRITES,
                background_covers == self@.background_covers(x as int, y as int),
                match top {
                    Some(found) => {
                        &&& found < SPRITES
                        &&& self@.sprite_visible(found as int, x as int, y as int)
                        &&& forall|j: int|
                            0 <= j < i && self@.sprite_visible(
                                #[trigger] sprites@[j] as int,
                                x as int,
                                y as int,
                            ) ==> self@.in_front(found as int, sprites@[j] as int)
                    },
                    None => forall|j: int|
                        0 <= j < i ==> !self@.sprite_visible(
                            #[trigger] sprites@[j] as int,
                            x as int,
                            y as int,
                        ),
                },
            decreases sprites@.len() - i,
        {
            let sprite: usize = sprites[i];
            assert(sprites@.contains(sprite as int as usize));
            if self.sprite_visible(sprite, x, y, background_covers) {
                match top {
                    Some(found) => {
                        let left: u8 = self.sprite_left(sprite);
                        let found_left: u8 = self.sprite_left(found);
                        if left < found_left || (left == found_left && sprite < found) {
                            top = Some(sprite);
                        }
                    },
                    None => {
                        top = Some(sprite);
                    },
                }
            }
            i = i + 1;
        }
        proof {
            assert forall|sprite: int| #[trigger]
                self@.sprite_visible(sprite, x as int, y as int) implies top is Some
                && self@.in_front(top->0 as int, sprite) by {
                assert(sprites@.contains(sprite as usize));
                let j = choose|j: int| 0 <= j < sprites@.len() && sprites@[j] == sprite as usize;
                assert(sprites@[j] as int == sprite);
            }
        }
        top
    }

    /// The brightness of a pixel of a line, whose shown sprites are given.
    fn pixel(&self, sprites: &Vec<usize>, x: u8, y: u8) -> (intensity: u8)
        requires
            self@.lcd_enabled(),
            forall|sprite: int|
                self@.line_shows(sprite, y as int) <==> 0 <= sprite < SPRITES
                    && #[trigger] sprites@.contains(sprite as usize),
            forall|i: int| 0 <= i < sprites@.len() ==> #[trigger] sprites@[i] < SPRITES,
        ensures
            intensity == self@.pixel(x as int, y as int),
    {
        proof {
            reveal(MachineState::pixel);
        }
        let background: Option<u8> = self.background_color(x, y);
        let background_covers: bool = match background {
            Some(color) => color != 0,
            None => false,
        };
        if self.register(LCDC_REGISTER) & 0x02 != 0 {
            if let Some(sprite) = self.top_sprite(sprites, x, y, background_covers) {
                proof {
                    lemma_top_sprite_is_unique(self@, sprite as int, x as int, y as int);
                }
                let palette: u8 = if self.oam[sprite * 4 + 3] & 0x10 != 0 {
                    self.register(OBJ_PALETTE_1)
                } else {
                    self.register(OBJ_PALETTE_0)
                };
                return palette_to_intensity(self.sprite_color(sprite, x, y), palette);
            }
        }
        match background {
            Some(color) => palette_to_intensity(color, self.register(BG_PALETTE)),
            None => LIGHTEST,
        }
    }

    /// Draws the picture that the machine's state describes.
    pub fn draw_frame(&self) -> (frame: FrameBuffer)
        ensures
            frame.width == FRAME_WIDTH,
            frame.height == FRAME_HEIGHT,
            frame.pixels_rgba8@ == self@.frame_bytes(4 * 160 * 144),
    {
        let enabled: bool = self.lcd_enabled();
        proof {
            lemma_dark_screen(self@);
        }
        let mut pixels: Vec<u8> = Vec::with_capacity(4 * 160 * 144);
        let mut y: u8 = 0;
        assert(pixels@ =~= self@.frame_bytes(0));
        while y < 144
            invariant
                y <= 144,
                enabled == self@.lcd_enabled(),
                !enabled ==> forall|i: int, j: int| #[trigger] self@.pixel(i, j) == LIGHTEST,
                pixels@ == self@.frame_bytes((640 * y) as nat),
            decreases 144 - y,
        {
            let sprites: Vec<usize> = self.line_sprites(y);
            let mut x: u8 = 0;
            while x < 160
                invariant
                    x <= 160,
                    y < 144,
                    enabled == self@.lcd_enabled(),
                    !enabled ==> forall|i: int, j: int| #[trigger] self@.pixel(i, j) == LIGHTEST,
                    forall|sprite: int|
                        self@.line_shows(sprite, y as int) <==> 0 <= sprite < SPRITES
                            && #[trigger] sprites@.contains(sprite as usize),
                    forall|i: int| 0 <= i < sprites@.len() ==> #[trigger] sprites@[i] < SPRITES,
                    pixels@ == self@.frame_bytes((640 * y + 4 * x) as nat),
                decreases 160 - x,
            {
                let intensity: u8 = if enabled {
                    self.pixel(&sprites, x, y)
                } else {
                    LIGHTEST
                };
                pixels.push(intensity);
                pixels.push(intensity);
                pixels.push(intensity);
                pixels.push(0xFF);
                x = x + 1;
                assert(pixels@ =~= self@.frame_bytes((640 * y + 4 * x) as nat));
            }
            y = y + 1;
        }
        FrameBuffer { width: FRAME_WIDTH, height: FRAME_HEIGHT, pixels_rgba8: pixels }
    }
}

/// Without the display every pixel has the lightest shade.
proof fn lemma_dark_screen(state: MachineState)
    ensures
        !state.lcd_enabled() ==> forall|x: int, y: int| #[trigger] state.pixel(x, y) == LIGHTEST,
{
    reveal(MachineState::pixel);
}

/// No two sprites are both in front.
proof fn lemma_top_sprite_is_unique(state: MachineState, sprite: int, x: int, y: int)
    requires
        state.is_top_sprite(sprite, x, y),
    ensures
        sprite == (choose|other: int| state.is_top_sprite(other, x, y)),
{
    let chosen = choose|other: int| state.is_top_sprite(other, x, y);
    assert(state.sprite_visible(sprite, x, y));
    assert(state.sprite_visible(chosen, x, y));
}

} // verus!
