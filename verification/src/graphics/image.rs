//! Owned RGBA pixel buffers.

use crate::fixed::saturate_u32;
use crate::fixed::whole_u32;
use crate::graphics::rectangle::Rectangle;
use std::collections::BTreeMap;
use vstd::arithmetic::div_mod::lemma_fundamental_div_mod_converse;
use vstd::arithmetic::mul::lemma_mul_is_distributive_add_other_way;
use vstd::prelude::*;
use vstd::std_specs::cmp::OrdSpec;
use vstd::std_specs::iter::IteratorSpec;

verus! {

/// Why an image could not be made.
#[derive(Debug, Copy, Clone, PartialEq, Eq, Structural)]
pub enum BadImage {
    /// The byte buffer is not four bytes for each pixel of the stated size.
    Size,
    /// The bytes are not an image that the decoder understands.
    Decode,
}

/// What the `image` crate makes of an encoded file: the width, the height and
/// the RGBA bytes of the picture in it, or nothing where it refuses the file.
pub uninterp spec fn decoded(data: Seq<u8>) -> Option<(u32, u32, Seq<u8>)>;

/// Decodes an encoded image file held in memory with
/// `image::load_from_memory`, which guesses the format from the first bytes,
/// and turns the picture into 8-bit RGBA with `DynamicImage::into_rgba8`.
/// This is not verified. Nothing is claimed of the result but that it is a
/// function of the file's bytes, named [`decoded`]; whether the buffer has
/// the length that the size asks for is tested by the caller.
#[verifier::external_body]
fn decode(buffer: &[u8]) -> (parts: Option<(u32, u32, Vec<u8>)>)
    ensures
        match parts {
            Some(p) => decoded(buffer@) == Some((p.0, p.1, p.2@)),
            None => decoded(buffer@) is None,
        },
{
    match ::image::load_from_memory(buffer) {
        Ok(file) => {
            let picture = file.into_rgba8();
            Some((picture.width(), picture.height(), picture.into_raw()))
        },
        Err(_) => None,
    }
}

/// What an [`Image`] holds: a draw position in fixed-point units, a size in
/// pixels, and the pixels row by row, four bytes each in the order red, green,
/// blue, alpha.
pub struct Picture {
    pub x: i64,
    pub y: i64,
    pub width: u32,
    pub height: u32,
    pub bytes: Seq<u8>,
}

impl Picture {
    /// The buffer holds exactly four bytes for each pixel.
    pub open spec fn well_formed(self) -> bool {
        self.bytes.len() == self.width * self.height * 4
    }

    /// Where the pixel in column `col` of row `row` starts in the buffer.
    pub open spec fn offset(self, col: int, row: int) -> int {
        (row * self.width + col) * 4
    }

    /// Channel `c` of the pixel in column `col` of row `row`.
    pub open spec fn channel(self, col: int, row: int, c: int) -> u8 {
        self.bytes[self.offset(col, row) + c]
    }

    /// The same pixels drawn at another position.
    pub open spec fn moved(self, x: i64, y: i64) -> Picture {
        Picture { x, y, ..self }
    }

    /// The part of the picture that a cut of `width` by `height` pixels with
    /// its top-left corner in column `x` of row `y` covers: the corner, and
    /// after it the extent, are cut back to what the picture holds.
    pub open spec fn window(self, x: u32, y: u32, width: u32, height: u32) -> (int, int, int, int) {
        let left = if x < self.width { x as int } else { self.width as int };
        let top = if y < self.height { y as int } else { self.height as int };
        let across = if width < self.width - left { width as int } else { self.width - left };
        let down = if height < self.height - top { height as int } else { self.height - top };
        (left, top, across, down)
    }

    /// The cut-out of [`Picture::window`] as a picture of its own, at the same
    /// draw position.
    pub open spec fn cropped(self, x: u32, y: u32, width: u32, height: u32) -> Picture {
        let (left, top, across, down) = self.window(x, y, width, height);
        Picture {
            x: self.x,
            y: self.y,
            width: across as u32,
            height: down as u32,
            bytes: Seq::new(
                (across * down * 4) as nat,
                |k: int| self.channel(left + (k / 4) % across, top + (k / 4) / across, k % 4),
            ),
        }
    }
}

/// The top-left corner of cell `index` on a sheet `sheet_width` pixels wide
/// that is laid out in cells `width` wide and `height` high, counted row by
/// row: the cell starts `index * width` pixels along the rows. A row offset
/// that `u32` cannot hold is cut back to its largest value, and a sheet
/// without columns has every cell at its corner.
pub open spec fn cell_corner(sheet_width: u32, width: u32, height: u32, index: u32) -> (u32, u32) {
    if sheet_width == 0 {
        (0u32, 0u32)
    } else {
        (
            ((index * width) % (sheet_width as int)) as u32,
            saturate_u32(((index * width) / (sheet_width as int)) * height),
        )
    }
}

/// Cell `index` of a sheet, cut out as a picture of its own.
pub open spec fn cell(sheet: Picture, width: u32, height: u32, index: u32) -> Picture {
    let corner = cell_corner(sheet.width, width, height, index);
    sheet.cropped(corner.0, corner.1, width, height)
}

/// Whether `keys` rises strictly from each item to the next.
pub open spec fn rising(keys: Seq<u32>) -> bool {
    forall|i: int, j: int| 0 <= i < j < keys.len() ==> keys[i] < keys[j]
}

/// The pictures of a list of images.
pub open spec fn pictures(images: Seq<Image>) -> Seq<Picture> {
    Seq::new(images.len(), |i: int| images[i]@)
}

/// Whether `list` holds the cells of a sheet that `indices` names, once each,
/// from the lowest index up.
pub open spec fn cells_in_order(
    list: Seq<Picture>,
    sheet: Picture,
    width: u32,
    height: u32,
    indices: Seq<u32>,
) -> bool {
    exists|keys: Seq<u32>|
        {
            &&& rising(keys)
            &&& keys.to_set() == indices.to_set()
            &&& #[trigger] keys.len() == list.len()
            &&& forall|i: int|
                0 <= i < keys.len() ==> #[trigger] list[i] == cell(sheet, width, height, keys[i])
        }
}

/// A decoded image: an exclusively owned RGBA buffer with a draw position.
#[derive(Debug)]
pub struct Image {
    x: i64,
    y: i64,
    width: u32,
    height: u32,
    bytes: Vec<u8>,
}

impl View for Image {
    type V = Picture;

    closed spec fn view(&self) -> Picture {
        Picture { x: self.x, y: self.y, width: self.width, height: self.height, bytes: self.bytes@ }
    }
}

impl Default for Image {
    /// The image without pixels, at the corner.
    fn default() -> (image: Self)
        ensures
            image@ == (Picture { x: 0, y: 0, width: 0, height: 0, bytes: Seq::empty() }),
    {
        Image { x: 0, y: 0, width: 0, height: 0, bytes: Vec::new() }
    }
}

impl Clone for Image {
    fn clone(&self) -> (copy: Self)
        ensures
            copy@ == self@,
    {
        proof {
            use_type_invariant(self);
        }
        Image {
            x: self.x,
            y: self.y,
            width: self.width,
            height: self.height,
            bytes: self.bytes.clone(),
        }
    }
}

/// A pixel inside a picture lies wholly inside its buffer.
pub proof fn lemma_offset_in_range(width: int, height: int, col: int, row: int)
    requires
        0 <= col < width,
        0 <= row < height,
    ensures
        0 <= row * width,
        0 <= (row * width + col) * 4,
        (row * width + col) * 4 + 3 < width * height * 4,
{
    assert(0 <= row * width && row * width + width <= height * width) by (nonlinear_arith)
        requires
            0 <= row < height,
            0 < width,
    ;
    assert(height * width == width * height) by (nonlinear_arith);
}

/// The byte index `(row * across + col) * 4 + c` splits back into its parts.
pub proof fn lemma_index_parts(across: int, row: int, col: int, c: int)
    requires
        0 <= col < across,
        0 <= row,
        0 <= c < 4,
    ensures
        ((row * across + col) * 4 + c) / 4 == row * across + col,
        ((row * across + col) * 4 + c) % 4 == c,
        (row * across + col) % across == col,
        (row * across + col) / across == row,
{
    assert(across * row == row * across) by (nonlinear_arith);
    lemma_fundamental_div_mod_converse(row * across + col, across, row, col);
}

/// Files `image` under `index`, in place of what was there.
pub(crate) fn file(textures: &mut BTreeMap<u32, Image>, index: u32, image: Image)
    ensures
        final(textures)@ == old(textures)@.insert(index, image),
{
    broadcast use vstd::laws_cmp::group_laws_cmp;

    textures.insert(index, image);
}

/// Takes the image filed under `index` out, if there is one.
pub(crate) fn take(textures: &mut BTreeMap<u32, Image>, index: u32) -> (image: Option<Image>)
    ensures
        final(textures)@ == old(textures)@.remove(index),
        match image {
            Some(found) => old(textures)@.contains_key(index) && found == old(textures)@[index],
            None => !old(textures)@.contains_key(index),
        },
{
    broadcast use vstd::laws_cmp::group_laws_cmp;
    broadcast use vstd::std_specs::btree::group_btree_axioms;

    textures.remove(&index)
}

/// Whether an image is filed under `index`.
pub(crate) fn knows(textures: &BTreeMap<u32, Image>, index: u32) -> (found: bool)
    ensures
        found == textures@.contains_key(index),
{
    broadcast use vstd::laws_cmp::group_laws_cmp;
    broadcast use vstd::std_specs::btree::group_btree_axioms;

    textures.contains_key(&index)
}

/// Copies of the images of `textures`, from the lowest key up.
fn in_key_order(textures: &BTreeMap<u32, Image>) -> (list: Vec<Image>)
    ensures
        exists|keys: Seq<u32>|
            {
                &&& rising(keys)
                &&& keys.to_set() == textures@.dom()
                &&& #[trigger] keys.len() == list.len()
                &&& forall|i: int|
                    0 <= i < keys.len() ==> (#[trigger] list[i])@ == textures@[keys[i]]@
            },
{
    broadcast use vstd::laws_cmp::group_laws_cmp;
    broadcast use vstd::std_specs::btree::group_btree_axioms;

    let values = textures.values();
    let ghost whole: Seq<&Image> = values.remaining();
    let ghost keys: Seq<u32> = choose|keys: Seq<u32>|
        {
            &&& vstd::std_specs::btree::increasing_seq(keys)
            &&& keys.to_set() == textures@.dom()
            &&& keys.no_duplicates()
            &&& whole == keys.map(|i: int, k: u32| &textures@[k])
        };
    let mut list: Vec<Image> = Vec::new();
    for image in it: values
        invariant
            it.seq() == whole,
            list.len() == it.index(),
            forall|j: int| 0 <= j < list.len() ==> (#[trigger] list[j])@ == (*whole[j])@,
    {
        list.push(image.clone());
    }
    proof {
        vstd::std_specs::btree::axiom_increasing_seq_meaning::<u32>(keys);
        assert forall|i: int, j: int| 0 <= i < j < keys.len() implies keys[i] < keys[j] by {
            assert(keys[i].cmp_spec(&keys[j]) is Less);
        }
        assert(keys.len() == list.len());
    }
    list
}

/// Whether `len` bytes are four for each of `width` by `height` pixels.
fn fits(width: u32, height: u32, len: usize) -> (b: bool)
    ensures
        b == (len == width * height * 4),
{
    assert(width * height <= 0xffff_ffff * 0xffff_ffff) by (nonlinear_arith)
        requires
            0 <= width <= 0xffff_ffff,
            0 <= height <= 0xffff_ffff,
    ;
    let pixels: u128 = width as u128 * height as u128;
    len as u128 == pixels * 4
}

impl Image {
    #[verifier::type_invariant]
    spec fn sized(self) -> bool {
        self.bytes.len() == self.width * self.height * 4
    }

    /// An image of `width` by `height` pixels at the draw position `(x, y)`.
    /// `bytes` holds the pixels row by row, four bytes each.
    pub fn new(x: i64, y: i64, width: u32, height: u32, bytes: Vec<u8>) -> (made: Result<
        Image,
        BadImage,
    >)
        ensures
            bytes.len() == width * height * 4 ==> made is Ok && made->Ok_0@ == (Picture {
                x,
                y,
                width,
                height,
                bytes: bytes@,
            }),
            bytes.len() != width * height * 4 ==> made == Err::<Image, BadImage>(
                BadImage::Size,
            ),
    {
        if fits(width, height, bytes.len()) {
            Ok(Image { x, y, width, height, bytes })
        } else {
            Err(BadImage::Size)
        }
    }

    /// What [`Image::from_bytes`] returns for the draw position `(x, y)` once
    /// the decoder has answered with `parts`.
    pub open spec fn from_decoded(x: i64, y: i64, parts: Option<(u32, u32, Seq<u8>)>) -> Result<
        Picture,
        BadImage,
    > {
        match parts {
            None => Err(BadImage::Decode),
            Some((width, height, bytes)) => if bytes.len() == width * height * 4 {
                Ok(Picture { x, y, width, height, bytes })
            } else {
                Err(BadImage::Size)
            },
        }
    }

    /// Decodes an encoded image file held in memory and places the picture at
    /// `(x, y)`.
    pub fn from_bytes(x: i64, y: i64, buffer: &[u8]) -> (made: Result<Image, BadImage>)
        ensures
            match made {
                Ok(image) => Image::from_decoded(x, y, decoded(buffer@)) == Ok::<Picture, BadImage>(
                    image@,
                ),
                Err(e) => Image::from_decoded(x, y, decoded(buffer@)) == Err::<Picture, BadImage>(
                    e,
                ),
            },
    {
        match decode(buffer) {
            Some(parts) => Image::new(x, y, parts.0, parts.1, parts.2),
            None => Err(BadImage::Decode),
        }
    }

    /// Replaces position, size and pixels at once. A buffer of the wrong
    /// length is refused and leaves the image as it was.
    pub fn update(&mut self, x: i64, y: i64, width: u32, height: u32, bytes: Vec<u8>) -> (done:
        Result<(), BadImage>)
        ensures
            bytes.len() == width * height * 4 ==> done is Ok && final(self)@ == (Picture {
                x,
                y,
                width,
                height,
                bytes: bytes@,
            }),
            bytes.len() != width * height * 4 ==> done == Err::<(), BadImage>(BadImage::Size)
                && final(self)@ == old(self)@,
    {
        if fits(width, height, bytes.len()) {
            *self = Image { x, y, width, height, bytes };
            Ok(())
        } else {
            Err(BadImage::Size)
        }
    }

    /// A copy of the pixels inside the given window, as a new image at the
    /// same draw position. The window is cut back to the image: a corner
    /// beyond an edge moves onto it, and the extent shrinks to what is left.
    /// The image itself stays as it is.
    pub fn crop(&mut self, x: u32, y: u32, width: u32, height: u32) -> (cut: Image)
        ensures
            cut@ == old(self)@.cropped(x, y, width, height),
            final(self)@ == old(self)@,
    {
        proof {
            use_type_invariant(&*self);
        }
        let left: u32 = if x < self.width { x } else { self.width };
        let top: u32 = if y < self.height { y } else { self.height };
        let across: u32 = if width < self.width - left { width } else { self.width - left };
        let down: u32 = if height < self.height - top { height } else { self.height - top };
        let ghost source = self@;
        let mut out: Vec<u8> = Vec::new();
        let mut row: u32 = 0;
        while row < down
            invariant
                source == self@,
                source.well_formed(),
                self.bytes@ == source.bytes,
                self.width == source.width,
                self.height == source.height,
                left + across <= source.width,
                top + down <= source.height,
                row <= down,
                out.len() == row * across * 4,
                forall|k: int|
                    0 <= k < out.len() ==> out[k] == source.channel(
                        left + (k / 4) % (across as int),
                        top + (k / 4) / (across as int),
                        k % 4,
                    ),
            decreases down - row,
        {
            let mut col: u32 = 0;
            while col < across
                invariant
                    source == self@,
                    source.well_formed(),
                    self.bytes@ == source.bytes,
                    self.width == source.width,
                    self.height == source.height,
                    left + across <= source.width,
                    top + down <= source.height,
                    row < down,
                    col <= across,
                    out.len() == (row * across + col) * 4,
                    forall|k: int|
                        0 <= k < out.len() ==> out[k] == source.channel(
                            left + (k / 4) % (across as int),
                            top + (k / 4) / (across as int),
                            k % 4,
                        ),
                decreases across - col,
            {
                proof {
                    lemma_offset_in_range(
                        source.width as int,
                        source.height as int,
                        left + col,
                        top + row,
                    );
                    lemma_index_parts(across as int, row as int, col as int, 0);
                    lemma_index_parts(across as int, row as int, col as int, 1);
                    lemma_index_parts(across as int, row as int, col as int, 2);
                    lemma_index_parts(across as int, row as int, col as int, 3);
                    assert(self.bytes.len() == source.width * source.height * 4);
                }
                let line: usize = (top + row) as usize * self.width as usize;
                let at: usize = (line + (left + col) as usize) * 4;
                out.push(self.bytes[at]);
                out.push(self.bytes[at + 1]);
                out.push(self.bytes[at + 2]);
                out.push(self.bytes[at + 3]);
                col += 1;
            }
            proof {
                lemma_mul_is_distributive_add_other_way(across as int, row as int, 1);
            }
            row += 1;
        }
        proof {
            assert(row == down);
            assert(down * across == across * down) by (nonlinear_arith);
            assert(out@ =~= source.cropped(x, y, width, height).bytes);
        }
        Image { x: self.x, y: self.y, width: across, height: down, bytes: out }
    }

    /// The cut-out whose window is given by a box in fixed-point units: each
    /// of its four numbers is rounded toward zero, and one below zero counts
    /// as zero.
    pub fn crop_rectangle(&mut self, rectangle: Rectangle) -> (cut: Image)
        ensures
            cut@ == old(self)@.cropped(
                whole_u32(rectangle.x),
                whole_u32(rectangle.y),
                whole_u32(rectangle.width),
                whole_u32(rectangle.height),
            ),
            final(self)@ == old(self)@,
    {
        self.crop(
            whole_u32(rectangle.x),
            whole_u32(rectangle.y),
            whole_u32(rectangle.width),
            whole_u32(rectangle.height),
        )
    }

    /// Computes [`cell_corner`].
    fn corner(sheet_width: u32, width: u32, height: u32, index: u32) -> (c: (u32, u32))
        ensures
            c == cell_corner(sheet_width, width, height, index),
    {
        if sheet_width == 0 {
            return (0, 0);
        }
        assert(index * width <= 0xffff_ffff * 0xffff_ffff) by (nonlinear_arith)
            requires
                0 <= index <= 0xffff_ffff,
                0 <= width <= 0xffff_ffff,
        ;
        let start: u64 = index as u64 * width as u64;
        let x: u64 = start % sheet_width as u64;
        let rows: u64 = start / sheet_width as u64;
        assert(rows * height <= 0xffff_ffff_ffff_ffff * 0xffff_ffff) by (nonlinear_arith)
            requires
                0 <= rows <= 0xffff_ffff_ffff_ffff,
                0 <= height <= 0xffff_ffff,
        ;
        let down: u128 = rows as u128 * height as u128;
        let y: u32 = if down > u32::MAX as u128 { u32::MAX } else { down as u32 };
        (x as u32, y)
    }

    /// Cuts the cells named by `indices` out of a sprite sheet laid out in
    /// cells of `width` by `height` pixels, and files each under its index.
    pub fn sprite_to_texture_map(
        sprite: &mut Image,
        width: u32,
        height: u32,
        indices: &[u32],
    ) -> (textures: BTreeMap<u32, Image>)
        ensures
            final(sprite)@ == old(sprite)@,
            textures@.dom() == indices@.to_set(),
            forall|index: u32| #[trigger]
                textures@.contains_key(index) ==> textures@[index]@ == cell(
                    old(sprite)@,
                    width,
                    height,
                    index,
                ),
    {
        let ghost sheet = sprite@;
        let mut textures: BTreeMap<u32, Image> = BTreeMap::new();
        let mut i: usize = 0;
        while i < indices.len()
            invariant
                i <= indices.len(),
                sprite@ == sheet,
                textures@.dom() =~= indices@.take(i as int).to_set(),
                forall|index: u32| #[trigger]
                    textures@.contains_key(index) ==> textures@[index]@ == cell(
                        sheet,
                        width,
                        height,
                        index,
                    ),
            decreases indices.len() - i,
        {
            let index: u32 = indices[i];
            let at: (u32, u32) = Image::corner(sprite.width(), width, height, index);
            let image: Image = sprite.crop(at.0, at.1, width, height);
            file(&mut textures, index, image);
            proof {
                assert(indices@.take(i + 1) =~= indices@.take(i as int).push(index));
                indices@.take(i as int).lemma_push_to_set_commute(index);
            }
            i += 1;
        }
        proof {
            assert(indices@.take(i as int) =~= indices@);
        }
        textures
    }

    /// Cuts the cells named by `indices` out of a sprite sheet and lists them
    /// from the lowest index up, each index once.
    pub fn sprite_to_texture_list(
        sprite: &mut Image,
        width: u32,
        height: u32,
        indices: &[u32],
    ) -> (list: Vec<Image>)
        ensures
            final(sprite)@ == old(sprite)@,
            cells_in_order(pictures(list@), old(sprite)@, width, height, indices@),
    {
        let textures: BTreeMap<u32, Image> = Image::sprite_to_texture_map(
            sprite,
            width,
            height,
            indices,
        );
        let list: Vec<Image> = in_key_order(&textures);
        proof {
            let keys = choose|keys: Seq<u32>|
                {
                    &&& rising(keys)
                    &&& keys.to_set() == textures@.dom()
                    &&& #[trigger] keys.len() == list.len()
                    &&& forall|i: int|
                        0 <= i < keys.len() ==> (#[trigger] list[i])@ == textures@[keys[i]]@
                };
            assert forall|i: int| 0 <= i < keys.len() implies #[trigger] pictures(list@)[i] == cell(
                old(sprite)@,
                width,
                height,
                keys[i],
            ) by {
                assert(keys.to_set().contains(keys[i]));
                assert(textures@.contains_key(keys[i]));
            }
            assert(keys.len() == pictures(list@).len());
        }
        list
    }

    pub fn x(&self) -> (x: i64)
        ensures
            x == self@.x,
    {
        self.x
    }

    pub fn y(&self) -> (y: i64)
        ensures
            y == self@.y,
    {
        self.y
    }

    pub fn set_x(&mut self, x: i64)
        ensures
            final(self)@ == old(self)@.moved(x, old(self)@.y),
    {
        proof {
            use_type_invariant(&*self);
        }
        self.x = x;
    }

    pub fn set_y(&mut self, y: i64)
        ensures
            final(self)@ == old(self)@.moved(old(self)@.x, y),
    {
        proof {
            use_type_invariant(&*self);
        }
        self.y = y;
    }

    pub fn set_x_y(&mut self, x: i64, y: i64)
        ensures
            final(self)@ == old(self)@.moved(x, y),
    {
        proof {
            use_type_invariant(&*self);
        }
        self.x = x;
        self.y = y;
    }

    /// Width in pixels.
    pub fn width(&self) -> (w: u32)
        ensures
            w == self@.width,
    {
        self.width
    }

    /// Height in pixels.
    pub fn height(&self) -> (h: u32)
        ensures
            h == self@.height,
    {
        self.height
    }

    /// The pixels, row by row, four bytes each.
    pub fn bytes(&self) -> (b: &[u8])
        ensures
            b@ == self@.bytes,
            self@.well_formed(),
    {
        proof {
            use_type_invariant(self);
        }
        self.bytes.as_slice()
    }
}

} // verus!
