//! Pictures that the window makes itself: the pairing code and the screenshot's file.
use vstd::prelude::*;
use vstd::utf8::encode_utf8;

verus! {

/// Modules of quiet zone on each side of a code.
pub const QUIET: usize = 4;

/// A square picture of dark and light modules, row by row.
pub struct CodePicture {
    pub side: usize,
    pub dark: Vec<bool>,
}

/// What `qrcode` makes of some data: the modules per side and which of them are dark, row by row; nothing for data
/// that no code can hold.
pub uninterp spec fn qr_code(data: Seq<u8>) -> Option<(nat, Seq<bool>)>;

/// The contents of what `qr_modules` returns.
pub open spec fn modules_view(r: Option<(usize, Vec<bool>)>) -> Option<(nat, Seq<bool>)> {
    match r {
        Some((n, dark)) => Some((n as nat, dark@)),
        None => None,
    }
}

/// `QrCode::new`, with `width` and `to_colors`: the smallest code of medium error correction for `data`. A code has
/// between 21 and 177 modules to a side, and all modules of its square.
#[verifier::external_body]
fn qr_modules(data: &[u8]) -> (r: Option<(usize, Vec<bool>)>)
    ensures
        modules_view(r) == qr_code(data@),
        r matches Some((n, dark)) ==> 21 <= n <= 177 && dark@.len() == n * n,
{
    let code = qrcode::QrCode::new(data).ok()?;
    let colors = code.to_colors();
    Some((code.width(), colors.into_iter().map(|c| c.select(true, false)).collect()))
}

/// The module at column `x` and row `y` of a code with `n` modules to a side and `QUIET` light ones around them.
pub open spec fn module_at(n: int, dark: Seq<bool>, x: int, y: int) -> bool {
    &&& QUIET <= x < QUIET + n
    &&& QUIET <= y < QUIET + n
    &&& dark[(y - QUIET) * n + (x - QUIET)]
}

/// A code with its quiet zone.
pub open spec fn is_code_picture(n: int, dark: Seq<bool>, p: CodePicture) -> bool {
    &&& p.side == n + 2 * QUIET
    &&& p.dark@.len() == p.side * p.side
    &&& forall|x: int, y: int|
        0 <= x < p.side && 0 <= y < p.side ==> #[trigger] p.dark@[y * p.side + x] == module_at(n, dark, x, y)
}

/// Rows of `side` modules do not overlap: a module's place gives its row and its column.
proof fn lemma_place(side: int, x: int, y: int)
    requires
        0 <= x < side,
        0 <= y,
    ensures
        (y * side + x) / side == y,
        (y * side + x) % side == x,
{
    vstd::arithmetic::div_mod::lemma_fundamental_div_mod_converse(y * side + x, side, y, x);
}

/// Puts the quiet zone around a code.
pub fn with_quiet_zone(n: usize, dark: &Vec<bool>) -> (p: CodePicture)
    requires
        n <= 177,
        dark@.len() == n * n,
    ensures
        is_code_picture(n as int, dark@, p),
{
    let side: usize = n + 2 * QUIET;
    assert(side * side <= 185 * 185) by (nonlinear_arith)
        requires
            side <= 185,
    ;
    let total: usize = side * side;
    let mut out: Vec<bool> = Vec::new();
    let mut i: usize = 0;
    while i < total
        invariant
            i <= total,
            total == side * side,
            side == n + 2 * QUIET,
            n <= 177,
            dark@.len() == n * n,
            out@.len() == i,
            forall|k: int|
                0 <= k < i ==> #[trigger] out@[k] == module_at(
                    n as int,
                    dark@,
                    k % (side as int),
                    k / (side as int),
                ),
        decreases total - i,
    {
        let x: usize = i % side;
        let y: usize = i / side;
        assert(y < side) by (nonlinear_arith)
            requires
                i < side * side,
                y == i / side,
                side > 0,
        ;
        let d = if QUIET <= x && x < QUIET + n && QUIET <= y && y < QUIET + n {
            assert((y - QUIET) * n + (x - QUIET) < n * n) by (nonlinear_arith)
                requires
                    y - QUIET <= n - 1,
                    x - QUIET <= n - 1,
                    0 <= y - QUIET,
                    0 <= x - QUIET,
            ;
            assert(0 <= (y - QUIET) * n <= n * n) by (nonlinear_arith)
                requires
                    0 <= y - QUIET <= n,
            ;
            assert(n * n <= 177 * 177) by (nonlinear_arith)
                requires
                    n <= 177,
            ;
            dark[(y - QUIET) * n + (x - QUIET)]
        } else {
            false
        };
        out.push(d);
        i = i + 1;
    }
    let p = CodePicture { side, dark: out };
    assert forall|x: int, y: int| 0 <= x < p.side && 0 <= y < p.side implies #[trigger] p.dark@[y * p.side + x]
        == module_at(n as int, dark@, x, y) by {
        lemma_place(side as int, x, y);
        assert(0 <= y * side + x < side * side) by (nonlinear_arith)
            requires
                0 <= x < side,
                0 <= y < side,
        ;
        let k = y * side + x;
        assert(p.dark@[k] == module_at(n as int, dark@, k % (side as int), k / (side as int)));
    }
    p
}

/// The pairing code for a link, or nothing where the link is too long for one.
pub fn qr_picture(text: &str) -> (r: Option<CodePicture>)
    ensures
        r is Some <==> qr_code(encode_utf8(text@)) is Some,
        r matches Some(p) ==> (qr_code(encode_utf8(text@)) matches Some((n, dark)) && is_code_picture(
            n as int,
            dark,
            p,
        )),
{
    match qr_modules(text.as_bytes()) {
        Some((n, dark)) => Some(with_quiet_zone(n, &dark)),
        None => None,
    }
}

/// An error of the `png` crate.
#[verifier::external_type_specification]
#[verifier::external_body]
pub struct ExEncodingError(png::EncodingError);

/// The file that `png` writes for a picture, or nothing where it refuses to.
pub uninterp spec fn png_file(width: u32, height: u32, rgba: Seq<u8>) -> Option<Seq<u8>>;

/// `png::Encoder` and its `Writer`, writing into memory: eight bits a channel, red, green, blue and alpha. The file
/// is complete once the writer is gone. A picture without pixels is refused.
#[verifier::external_body]
fn png_encode(width: u32, height: u32, rgba: &[u8]) -> (r: Result<Vec<u8>, png::EncodingError>)
    requires
        rgba@.len() == 4 * width * height,
    ensures
        match r {
            Ok(file) => png_file(width, height, rgba@) == Some(file@),
            Err(_) => png_file(width, height, rgba@) is None,
        },
        width == 0 || height == 0 ==> r is Err,
{
    let mut file = Vec::new();
    let mut encoder = png::Encoder::new(&mut file, width, height);
    encoder.set_color(png::ColorType::Rgba);
    encoder.set_depth(png::BitDepth::Eight);
    let mut writer = encoder.write_header()?;
    writer.write_image_data(rgba)?;
    drop(writer);
    Ok(file)
}

/// A picture that cannot be written.
#[derive(Clone, Copy, Debug, PartialEq, Eq, Structural)]
pub enum PngError {
    /// There are not four bytes for each pixel.
    Size,
    /// The encoder refused it.
    Refused,
}

/// A screenshot as a PNG file.
pub fn png_bytes(width: u32, height: u32, rgba: &[u8]) -> (r: Result<Vec<u8>, PngError>)
    ensures
        r == Err::<Vec<u8>, PngError>(PngError::Size) <==> rgba@.len() != 4 * width * height,
        r == Err::<Vec<u8>, PngError>(PngError::Refused) <==> rgba@.len() == 4 * width * height && png_file(
            width,
            height,
            rgba@,
        ) is None,
        r matches Ok(file) ==> png_file(width, height, rgba@) == Some(file@) && width > 0 && height > 0,
{
    assert(0 <= 4 * width * height <= u128::MAX) by (nonlinear_arith)
        requires
            width <= u32::MAX,
            height <= u32::MAX,
    ;
    assert(4 * width * height == 4 * (width * height)) by (nonlinear_arith);
    assert(width * height <= u32::MAX * u32::MAX) by (nonlinear_arith)
        requires
            width <= u32::MAX,
            height <= u32::MAX,
    ;
    if rgba.len() as u128 != 4 * (width as u128 * height as u128) {
        return Err(PngError::Size);
    }
    match png_encode(width, height, rgba) {
        Ok(file) => Ok(file),
        Err(_) => Err(PngError::Refused),
    }
}

} // verus!
