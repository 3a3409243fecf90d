//! Seeding a universe from an encoded still image.
//!
//! Decoding is the work of the `image` crate. What it hands back is read
//! pixel by pixel into plain RGBA data, from which
//! [`Universe::from_pixels`] seeds the cells.

use image::{DynamicImage, GenericImageView};
use vstd::arithmetic::div_mod::lemma_fundamental_div_mod_converse;
use vstd::prelude::*;

use crate::grid::Grid;
use crate::universe::Universe;

verus! {

/// A decoded image of the `image` crate. Nothing of its inside is known here:
/// it is read through [`dimensions`] and [`pixel`] alone.
#[verifier::external_type_specification]
#[verifier::external_body]
pub struct ExDynamicImage(image::DynamicImage);

/// The width and the height of a decoded image, in this order: what
/// `GenericImageView::dimensions` returns for it.
pub uninterp spec fn image_dimensions(image: DynamicImage) -> (u32, u32);

/// The pixels of a decoded image as red, green, blue and alpha, by their
/// column `x` and row `y`: what `GenericImageView::get_pixel` returns for
/// `(x, y)` within the image.
pub uninterp spec fn image_pixels(image: DynamicImage) -> Map<(u32, u32), (u8, u8, u8, u8)>;

/// One of the four channels of a pixel, in the order red, green, blue, alpha.
pub open spec fn channel(pixel: (u8, u8, u8, u8), index: int) -> u8 {
    if index == 0 {
        pixel.0
    } else if index == 1 {
        pixel.1
    } else if index == 2 {
        pixel.2
    } else {
        pixel.3
    }
}

/// The pixels of an image as RGBA data: row after row, four channels for each
/// pixel.
pub open spec fn rgba_bytes(dimensions: (u32, u32), pixels: Map<(u32, u32), (u8, u8, u8, u8)>) -> Seq<
    u8,
> {
    Seq::new(
        (4 * (dimensions.0 * dimensions.1)) as nat,
        |j: int|
            channel(
                pixels[(((j / 4) % (dimensions.0 as int)) as u32, ((j / 4) / (dimensions.0
                    as int)) as u32)],
                j % 4,
            ),
    )
}

/// The grid that a decoded image seeds: the grid of its dimensions in which
/// the cell in row `y` and column `x` is what `Cell::of_color` makes of the
/// pixel in column `x` and row `y`. There is none where the pixels of the
/// image, four bytes each, are more than can be addressed.
pub open spec fn seed_of_image(image: DynamicImage) -> Option<Grid> {
    if 4 * (image_dimensions(image).0 * image_dimensions(image).1) <= usize::MAX {
        Grid::from_pixels(
            image_dimensions(image).0 as nat,
            image_dimensions(image).1 as nat,
            4,
            rgba_bytes(image_dimensions(image), image_pixels(image)),
        )
    } else {
        None
    }
}

/// Decodes an image held in memory with `image::load_from_memory`, which
/// guesses the format from the first bytes and runs the decoder for it.
/// `None` stands for every error of the decoder. Nothing is claimed of the
/// image that comes back: which one it is depends on the formats that the
/// decoder was built with and on the format hooks of the process.
#[verifier::external_body]
fn decode(image_data: &[u8]) -> (image: Option<DynamicImage>) {
    image::load_from_memory(image_data).ok()
}

/// The width and the height of a decoded image, from
/// `GenericImageView::dimensions`. The call reads the image and changes
/// nothing, so the result is the same whenever it is made.
#[verifier::external_body]
fn dimensions(image: &DynamicImage) -> (size: (u32, u32))
    ensures
        size == image_dimensions(*image),
{
    image.dimensions()
}

/// The pixel in column `x` and row `y`, from `GenericImageView::get_pixel`,
/// which converts it to 8-bit RGBA and panics outside the image: hence the
/// bounds. The call reads the image and changes nothing.
#[verifier::external_body]
fn pixel(image: &DynamicImage, x: u32, y: u32) -> (rgba: (u8, u8, u8, u8))
    requires
        x < image_dimensions(*image).0,
        y < image_dimensions(*image).1,
    ensures
        rgba == image_pixels(*image)[(x, y)],
{
    let color = image.get_pixel(x, y);
    (color.0[0], color.0[1], color.0[2], color.0[3])
}

/// Reads a decoded image into RGBA data, row after row. `None` when the data
/// would not fit into memory.
fn read_rgba(image: &DynamicImage) -> (data: Option<Vec<u8>>)
    ensures
        match data {
            Some(bytes) => bytes@ == rgba_bytes(image_dimensions(*image), image_pixels(*image)),
            None => 4 * (image_dimensions(*image).0 * image_dimensions(*image).1) > usize::MAX,
        },
{
    let (width, height) = dimensions(image);
    let count: usize = match (width as usize).checked_mul(height as usize) {
        Some(count) => count,
        None => {
            return None;
        },
    };
    let total: usize = match count.checked_mul(4) {
        Some(total) => total,
        None => {
            return None;
        },
    };
    let ghost expected = rgba_bytes(image_dimensions(*image), image_pixels(*image));
    let mut bytes: Vec<u8> = Vec::with_capacity(total);
    let mut y: u32 = 0;
    while y < height
        invariant
            (width, height) == image_dimensions(*image),
            expected == rgba_bytes(image_dimensions(*image), image_pixels(*image)),
            total == 4 * (width * height),
            y <= height,
            bytes@.len() == 4 * (y * width),
            forall|j: int| 0 <= j < bytes@.len() ==> bytes@[j] == expected[j],
        decreases height - y,
    {
        let mut x: u32 = 0;
        while x < width
            invariant
                (width, height) == image_dimensions(*image),
                expected == rgba_bytes(image_dimensions(*image), image_pixels(*image)),
                total == 4 * (width * height),
                y < height,
                x <= width,
                bytes@.len() == 4 * (y * width + x),
                forall|j: int| 0 <= j < bytes@.len() ==> bytes@[j] == expected[j],
            decreases width - x,
        {
            let (red, green, blue, alpha) = pixel(image, x, y);
            proof {
                let k = y * width + x;
                lemma_fundamental_div_mod_converse(k, width as int, y as int, x as int);
                assert(y * width + width <= height * width) by (nonlinear_arith)
                    requires
                        y < height,
                ;
                assert(height * width == width * height) by (nonlinear_arith);
                assert(4 * k + 3 < expected.len());
                assert((4 * k) / 4 == k && (4 * k + 1) / 4 == k && (4 * k + 2) / 4 == k && (4 * k
                    + 3) / 4 == k);
            }
            bytes.push(red);
            bytes.push(green);
            bytes.push(blue);
            bytes.push(alpha);
            x = x + 1;
        }
        assert((y + 1) * width == y * width + width) by (nonlinear_arith);
        y = y + 1;
    }
    assert(bytes@ =~= expected) by {
        assert(y * width == width * height) by (nonlinear_arith)
            requires
                y == height,
        ;
    }
    Some(bytes)
}

impl Universe {
    /// Creates a universe from an encoded image. The universe has the
    /// dimensions of the image; the cell in row `y` and column `x` is alive
    /// when the red, green or blue of the pixel in column `x` and row `y`
    /// exceeds the brightness threshold. Returns `None` when the bytes do not
    /// decode or the image has more pixels than fit into memory.
    ///
    /// Which image the bytes decode to is the decoder's affair and not
    /// stated; whatever it is, the universe is the seed of that image.
    pub fn from_image(image_data: &[u8]) -> (seeded: Option<Universe>)
        ensures
            seeded matches Some(universe) ==> exists|image: DynamicImage| #[trigger]
                seed_of_image(image) == Some(universe@),
    {
        match decode(image_data) {
            Some(image) => {
                let seeded = Universe::from_decoded(&image);
                proof {
                    if seeded is Some {
                        assert(seed_of_image(image) == Some(seeded->0@));
                    }
                }
                seeded
            },
            None => None,
        }
    }

    /// Creates a universe from a decoded image: the universe of its
    /// dimensions in which the cell in row `y` and column `x` is alive when
    /// the red, green or blue of the pixel in column `x` and row `y` exceeds
    /// the brightness threshold. Returns `None` only when the image has more
    /// pixels than fit into memory.
    pub fn from_decoded(image: &DynamicImage) -> (seeded: Option<Universe>)
        ensures
            match seeded {
                Some(universe) => seed_of_image(*image) == Some(universe@),
                None => seed_of_image(*image) is None,
            },
    {
        let (width, height) = dimensions(image);
        match read_rgba(image) {
            Some(bytes) => {
                assert(width * height * 4 == 4 * (width * height)) by (nonlinear_arith);
                assert(bytes.len() == bytes@.len());
                Universe::from_pixels(width, height, 4, bytes.as_slice())
            },
            None => None,
        }
    }
}

} // verus!
