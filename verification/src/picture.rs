//! The picture of a block: its squares, painted on a plain background.

use vstd::prelude::*;

use crate::error::{image_error, AppError};
use crate::response::{picture_reply, picture_response, HttpResponse};

verus! {

/// The width of a picture in pixels.
pub const PICTURE_WIDTH: u32 = 1200;

/// The height of a picture in pixels.
pub const PICTURE_HEIGHT: u32 = 630;

/// A color: its red, green and blue parts.
#[derive(Debug, Clone, Copy, PartialEq, Eq, Structural)]
pub struct Color {
    pub red: u8,
    pub green: u8,
    pub blue: u8,
}

/// The color that pictures are painted on.
pub open spec fn background_color() -> Color {
    Color { red: 9, green: 9, blue: 11 }
}

/// A square in pixels: its left and upper edge and the length of its sides. A square whose sides
/// are not positive is not painted.
#[derive(Debug, Clone, Copy, PartialEq, Eq, Structural)]
pub struct PixelSquare {
    pub x: u32,
    pub y: u32,
    pub side: i32,
}

impl PixelSquare {
    /// Whether the square covers a pixel.
    pub open spec fn covers(self, x: u32, y: u32) -> bool {
        &&& self.x <= x < self.x + self.side
        &&& self.y <= y < self.y + self.side
    }

    /// Whether the far edges of the square are in the range of coordinates.
    pub open spec fn in_range(self) -> bool {
        self.side > 0 ==> self.x + self.side <= u32::MAX && self.y + self.side <= u32::MAX
    }

    /// Tests whether the far edges of the square are in the range of coordinates.
    pub fn is_in_range(&self) -> (r: bool)
        ensures
            r == self.in_range(),
    {
        if self.side <= 0 {
            true
        } else {
            self.x <= u32::MAX - self.side as u32 && self.y <= u32::MAX - self.side as u32
        }
    }
}

/// The colors of the pixels of a picture, by column and row.
pub type Pixels = Map<(u32, u32), Color>;

/// A picture of one color.
pub open spec fn plain_pixels(width: u32, height: u32, color: Color) -> Pixels {
    Map::new(|p: (u32, u32)| p.0 < width && p.1 < height, |p: (u32, u32)| color)
}

/// Whether one of the squares covers a pixel.
pub open spec fn covered(squares: Seq<PixelSquare>, p: (u32, u32)) -> bool {
    exists|i: int| 0 <= i < squares.len() && (#[trigger] squares[i]).covers(p.0, p.1)
}

/// A picture in which the pixels that `squares` cover have one color and all others another.
pub open spec fn square_pixels(
    width: u32,
    height: u32,
    background: Color,
    color: Color,
    squares: Seq<PixelSquare>,
) -> Pixels {
    Map::new(
        |p: (u32, u32)| p.0 < width && p.1 < height,
        |p: (u32, u32)|
            if covered(squares, p) {
                color
            } else {
                background
            },
    )
}

/// An image of the `image` crate with 8-bit red, green and blue parts, `image::RgbImage`.
#[verifier::external_body]
pub struct Canvas {
    image: image::RgbImage,
}

/// The colors of the pixels of an image.
pub uninterp spec fn canvas_pixels(canvas: Canvas) -> Map<(u32, u32), Color>;

/// The error of the `image` crate, `image::ImageError`.
#[verifier::external_type_specification]
#[verifier::external_body]
pub struct ExImageError(image::ImageError);

/// The PNG file that the `image` crate makes of an image with these pixels; nothing where it
/// fails.
pub uninterp spec fn png_file(pixels: Map<(u32, u32), Color>) -> Option<Seq<u8>>;

/// Calls `image::ImageBuffer::from_pixel`, which makes an image of one color. It panics where the
/// image is larger than a vector can be, and where the bytes of a row cannot be counted, even if
/// there is no row.
#[verifier::external_body]
fn canvas_from_pixel(width: u32, height: u32, color: Color) -> (r: Canvas)
    requires
        width * 3 <= usize::MAX,
        width * height * 3 <= isize::MAX,
    ensures
        canvas_pixels(r) == plain_pixels(width, height, color),
{
    let pixel = image::Rgb([color.red, color.green, color.blue]);
    Canvas { image: image::ImageBuffer::from_pixel(width, height, pixel) }
}

/// Calls `image::ImageBuffer::put_pixel`, which sets the color of a pixel. It panics outside of
/// the image.
#[verifier::external_body]
fn canvas_put_pixel(canvas: &mut Canvas, x: u32, y: u32, color: Color)
    requires
        canvas_pixels(*old(canvas)).dom().contains((x, y)),
    ensures
        canvas_pixels(*final(canvas)) == canvas_pixels(*old(canvas)).insert((x, y), color),
{
    canvas.image.put_pixel(x, y, image::Rgb([color.red, color.green, color.blue]))
}

/// Calls `image::ImageBuffer::write_to` with the format PNG on an empty buffer. What is then in
/// the buffer depends on the pixels alone, and so does whether the encoder fails.
#[verifier::external_body]
fn canvas_write_png(canvas: &Canvas) -> (r: Result<Vec<u8>, image::ImageError>)
    requires
        canvas_pixels(*canvas).dom().contains((0, 0)),
    ensures
        r is Ok <==> png_file(canvas_pixels(*canvas)) is Some,
        r matches Ok(file) ==> png_file(canvas_pixels(*canvas)) == Some(file@),
{
    let mut buffer = std::io::Cursor::new(Vec::new());
    canvas.image.write_to(&mut buffer, image::ImageFormat::Png)?;
    Ok(buffer.into_inner())
}

/// The least of a coordinate and an edge.
fn clip(v: u32, edge: u32) -> (r: u32)
    ensures
        r == (if v < edge {
            v
        } else {
            edge
        }),
{
    if v < edge {
        v
    } else {
        edge
    }
}

/// Paints squares on a background; what reaches over the edges of the picture is cut off.
pub fn paint_squares(
    width: u32,
    height: u32,
    background: Color,
    color: Color,
    squares: &Vec<PixelSquare>,
) -> (r: Canvas)
    requires
        width * 3 <= usize::MAX,
        width * height * 3 <= isize::MAX,
        forall|i: int| 0 <= i < squares@.len() ==> (#[trigger] squares@[i]).in_range(),
    ensures
        canvas_pixels(r) == square_pixels(width, height, background, color, squares@),
{
    let mut canvas: Canvas = canvas_from_pixel(width, height, background);
    let mut n: usize = 0;
    assert(canvas_pixels(canvas) =~= square_pixels(
        width,
        height,
        background,
        color,
        squares@.take(0),
    ));
    while n < squares.len()
        invariant
            n <= squares@.len(),
            forall|i: int| 0 <= i < squares@.len() ==> (#[trigger] squares@[i]).in_range(),
            canvas_pixels(canvas) == square_pixels(
                width,
                height,
                background,
                color,
                squares@.take(n as int),
            ),
        decreases squares@.len() - n,
    {
        let square: PixelSquare = squares[n];
        if square.side > 0 {
            paint_square(&mut canvas, width, height, square, color);
        }
        proof {
            let before = squares@.take(n as int);
            let after = squares@.take(n + 1);
            assert(after =~= before.push(square));
            assert forall|p: (u32, u32)| #[trigger] covered(after, p) == (covered(before, p)
                || square.covers(p.0, p.1)) by {
                lemma_covered_push(before, square, p);
            }
            assert(canvas_pixels(canvas) =~= square_pixels(
                width,
                height,
                background,
                color,
                after,
            ));
        }
        n = n + 1;
    }
    assert(squares@.take(n as int) =~= squares@);
    canvas
}

proof fn lemma_covered_push(squares: Seq<PixelSquare>, square: PixelSquare, p: (u32, u32))
    ensures
        covered(squares.push(square), p) == (covered(squares, p) || square.covers(p.0, p.1)),
{
    let all = squares.push(square);
    if covered(squares, p) {
        let i = choose|i: int| 0 <= i < squares.len() && (#[trigger] squares[i]).covers(p.0, p.1);
        assert(all[i].covers(p.0, p.1));
    }
    if square.covers(p.0, p.1) {
        assert(all[squares.len() as int].covers(p.0, p.1));
    }
    if covered(all, p) {
        let i = choose|i: int| 0 <= i < all.len() && (#[trigger] all[i]).covers(p.0, p.1);
        if i < squares.len() {
            assert(squares[i].covers(p.0, p.1));
        }
    }
}

/// `pixels` with the pixels that a square covers, in the rows above `y` and in row `y` left of
/// `x`, in another color.
spec fn filled(pixels: Pixels, square: PixelSquare, color: Color, x: u32, y: u32) -> Pixels {
    Map::new(
        |p: (u32, u32)| pixels.dom().contains(p),
        |p: (u32, u32)|
            if square.covers(p.0, p.1) && (p.1 < y || (p.1 == y && p.0 < x)) {
                color
            } else {
                pixels[p]
            },
    )
}

/// Paints one square.
fn paint_square(
    canvas: &mut Canvas,
    width: u32,
    height: u32,
    square: PixelSquare,
    color: Color,
)
    requires
        square.side > 0,
        square.in_range(),
        forall|p: (u32, u32)|
            #[trigger] canvas_pixels(*old(canvas)).dom().contains(p) <==> p.0 < width && p.1
                < height,
    ensures
        canvas_pixels(*final(canvas)).dom() == canvas_pixels(*old(canvas)).dom(),
        forall|p: (u32, u32)|
            canvas_pixels(*old(canvas)).dom().contains(p) ==> #[trigger] canvas_pixels(
                *final(canvas),
            )[p] == (if square.covers(p.0, p.1) {
                color
            } else {
                canvas_pixels(*old(canvas))[p]
            }),
{
    let ghost start = canvas_pixels(*canvas);
    let right: u32 = clip(square.x + square.side as u32, width);
    let bottom: u32 = clip(square.y + square.side as u32, height);
    let mut y: u32 = square.y;
    assert(canvas_pixels(*canvas) =~= filled(start, square, color, 0, y));
    while y < bottom
        invariant
            square.side > 0,
            square.in_range(),
            right == (if square.x + square.side < width {
                (square.x + square.side) as u32
            } else {
                width
            }),
            bottom <= height,
            bottom <= square.y + square.side,
            square.y <= y,
            forall|p: (u32, u32)| #[trigger] start.dom().contains(p) <==> p.0 < width && p.1
                < height,
            canvas_pixels(*canvas) == filled(start, square, color, 0, y),
        decreases bottom - y,
    {
        let mut x: u32 = square.x;
        assert(canvas_pixels(*canvas) =~= filled(start, square, color, x, y));
        while x < right
            invariant
                square.side > 0,
                square.in_range(),
                right <= width,
                right <= square.x + square.side,
                bottom <= height,
                bottom <= square.y + square.side,
                square.y <= y < bottom,
                square.x <= x,
                forall|p: (u32, u32)| #[trigger] start.dom().contains(p) <==> p.0 < width && p.1
                    < height,
                canvas_pixels(*canvas) == filled(start, square, color, x, y),
            decreases right - x,
        {
            assert(start.dom().contains((x, y)));
            canvas_put_pixel(canvas, x, y, color);
            assert(canvas_pixels(*canvas) =~= filled(start, square, color, (x + 1) as u32, y));
            x = x + 1;
        }
        assert(canvas_pixels(*canvas) =~= filled(start, square, color, 0, (y + 1) as u32)) by {
            assert forall|p: (u32, u32)| start.dom().contains(p) implies filled(
                start,
                square,
                color,
                x,
                y,
            )[p] == #[trigger] filled(start, square, color, 0, (y + 1) as u32)[p] by {
                assert(start.dom().contains(p));
            }
        }
        y = y + 1;
    }
    proof {
        assert forall|p: (u32, u32)| start.dom().contains(p) implies #[trigger] canvas_pixels(
            *canvas,
        )[p] == (if square.covers(p.0, p.1) {
            color
        } else {
            start[p]
        }) by {}
        assert(canvas_pixels(*canvas).dom() =~= start.dom());
    }
}

/// Encodes an image as a PNG file.
pub fn encode_png(canvas: &Canvas) -> (r: Option<Vec<u8>>)
    requires
        canvas_pixels(*canvas).dom().contains((0, 0)),
    ensures
        r is Some <==> png_file(canvas_pixels(*canvas)) is Some,
        r matches Some(file) ==> png_file(canvas_pixels(*canvas)) == Some(file@),
{
    match canvas_write_png(canvas) {
        Ok(file) => Some(file),
        Err(_) => None,
    }
}

/// The pixels of the picture of a block whose squares have the given color.
pub open spec fn picture_pixels(color: Color, squares: Seq<PixelSquare>) -> Pixels {
    square_pixels(PICTURE_WIDTH, PICTURE_HEIGHT, background_color(), color, squares)
}

/// Makes the reply with the picture of a block.
pub fn block_picture(color: Color, squares: &Vec<PixelSquare>) -> (r: Result<
    HttpResponse,
    AppError,
>)
    requires
        forall|i: int| 0 <= i < squares@.len() ==> (#[trigger] squares@[i]).in_range(),
    ensures
        r is Ok <==> png_file(picture_pixels(color, squares@)) is Some,
        r matches Ok(response) ==> response@ == picture_reply(
            png_file(picture_pixels(color, squares@))->0,
        ),
        r matches Err(e) ==> e@ == image_error(),
{
    let background: Color = Color { red: 9, green: 9, blue: 11 };
    let canvas: Canvas = paint_squares(
        PICTURE_WIDTH,
        PICTURE_HEIGHT,
        background,
        color,
        squares,
    );
    assert(canvas_pixels(canvas).dom().contains((0, 0)));
    picture_response(encode_png(&canvas))
}

/// The order in which squares are painted, and how often each of them is, makes no difference.
pub proof fn law_painting_order(
    width: u32,
    height: u32,
    background: Color,
    color: Color,
    a: Seq<PixelSquare>,
    b: Seq<PixelSquare>,
)
    requires
        forall|square: PixelSquare| #[trigger] a.contains(square) <==> b.contains(square),
    ensures
        square_pixels(width, height, background, color, a) == square_pixels(
            width,
            height,
            background,
            color,
            b,
        ),
{
    assert forall|p: (u32, u32)| #[trigger] covered(a, p) == covered(b, p) by {
        if covered(a, p) {
            let i = choose|i: int| 0 <= i < a.len() && (#[trigger] a[i]).covers(p.0, p.1);
            assert(a.contains(a[i]));
            let j = choose|j: int| 0 <= j < b.len() && b[j] == a[i];
            assert(b[j].covers(p.0, p.1));
        }
        if covered(b, p) {
            let j = choose|j: int| 0 <= j < b.len() && (#[trigger] b[j]).covers(p.0, p.1);
            assert(b.contains(b[j]));
            assert(a.contains(b[j]));
            let i = choose|i: int| 0 <= i < a.len() && a[i] == b[j];
            assert(a[i].covers(p.0, p.1));
        }
    }
    assert(square_pixels(width, height, background, color, a) =~= square_pixels(
        width,
        height,
        background,
        color,
        b,
    ));
}

/// A square without extent, or one that lies outside of the picture, leaves no trace in it.
pub proof fn law_invisible_square(
    width: u32,
    height: u32,
    background: Color,
    color: Color,
    squares: Seq<PixelSquare>,
    square: PixelSquare,
)
    requires
        square.side <= 0 || square.x >= width || square.y >= height,
    ensures
        square_pixels(width, height, background, color, squares.push(square)) == square_pixels(
            width,
            height,
            background,
            color,
            squares,
        ),
{
    assert forall|p: (u32, u32)| p.0 < width && p.1 < height implies #[trigger] covered(
        squares.push(square),
        p,
    ) == covered(squares, p) by {
        lemma_covered_push(squares, square, p);
    }
    assert(square_pixels(width, height, background, color, squares.push(square))
        =~= square_pixels(width, height, background, color, squares));
}

/// A picture has exactly the pixels within its width and height. Every one of them that lies
/// between the edges of some square has the color of the squares, and every other one that of the
/// background.
pub proof fn law_square_pixels(
    width: u32,
    height: u32,
    background: Color,
    color: Color,
    squares: Seq<PixelSquare>,
    x: u32,
    y: u32,
)
    ensures
        ({
            let pixels = square_pixels(width, height, background, color, squares);
            let inside = exists|i: int|
                0 <= i < squares.len() && (#[trigger] squares[i]).x <= x < squares[i].x
                    + squares[i].side && squares[i].y <= y < squares[i].y + squares[i].side;
            &&& pixels.dom().contains((x, y)) <==> x < width && y < height
            &&& x < width && y < height && inside ==> pixels[(x, y)] == color
            &&& x < width && y < height && !inside ==> pixels[(x, y)] == background
        }),
{
    if covered(squares, (x, y)) {
        let i = choose|i: int| 0 <= i < squares.len() && (#[trigger] squares[i]).covers(x, y);
        assert(squares[i].x <= x < squares[i].x + squares[i].side);
    }
    if exists|i: int|
        0 <= i < squares.len() && (#[trigger] squares[i]).x <= x < squares[i].x + squares[i].side
            && squares[i].y <= y < squares[i].y + squares[i].side {
        let i = choose|i: int|
            0 <= i < squares.len() && (#[trigger] squares[i]).x <= x < squares[i].x
                + squares[i].side && squares[i].y <= y < squares[i].y + squares[i].side;
        assert(squares[i].covers(x, y));
    }
}

/// A square covers as many columns and as many rows as its side is long: the pixels by an offset
/// below its side from its corner, in both directions, and no others.
pub proof fn law_covers(square: PixelSquare, x: u32, y: u32, dx: u32, dy: u32)
    ensures
        dx < square.side && dy < square.side && x == square.x + dx && y == square.y + dy
            ==> square.covers(x, y),
        square.covers(x, y) ==> 0 <= x - square.x < square.side && 0 <= y - square.y
            < square.side,
        square.in_range() <==> square.side <= 0 || (square.x + square.side <= u32::MAX && square.y
            + square.side <= u32::MAX),
{
}

/// The picture of a block is 1200 pixels wide and 630 high, and dark where no square is.
pub proof fn law_picture_pixels(color: Color, squares: Seq<PixelSquare>)
    ensures
        picture_pixels(color, squares) == square_pixels(
            1200,
            630,
            Color { red: 9, green: 9, blue: 11 },
            color,
            squares,
        ),
{
}

} // verus!
