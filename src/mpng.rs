use vstd::prelude::*;

verus! {

/// How the bytes of a Data block are to be read as pixels.
#[derive(Debug, Clone, Copy, PartialEq, Eq, Structural)]
pub enum PixelType {
    BlackAndWhite,
    GreyScale,
    Palette,
    TrueColor,
}

/// The numeric code that a pixel type has in a Header block.
pub open spec fn pixel_type_code(t: PixelType) -> u8 {
    match t {
        PixelType::BlackAndWhite => 0,
        PixelType::GreyScale => 1,
        PixelType::Palette => 2,
        PixelType::TrueColor => 3,
    }
}

/// The pixel type that a code in `0..=3` stands for.
pub open spec fn pixel_type_of(code: u8) -> PixelType
    recommends
        code <= 3,
{
    if code == 0 {
        PixelType::BlackAndWhite
    } else if code == 1 {
        PixelType::GreyScale
    } else if code == 2 {
        PixelType::Palette
    } else {
        PixelType::TrueColor
    }
}

/// The name under which a summary shows a pixel type.
pub open spec fn pixel_type_label(t: PixelType) -> Seq<char> {
    match t {
        PixelType::BlackAndWhite => "Black & White"@,
        PixelType::GreyScale => "Grey Scale"@,
        PixelType::Palette => "Palette"@,
        PixelType::TrueColor => "True Color"@,
    }
}

impl PixelType {
    /// The pixel type with the given code, or `None` for a code of 4 or more.
    pub fn from_code(code: u8) -> (r: Option<PixelType>)
        ensures
            code <= 3 ==> r == Some(pixel_type_of(code)),
            code > 3 ==> r is None,
    {
        match code {
            0 => Some(PixelType::BlackAndWhite),
            1 => Some(PixelType::GreyScale),
            2 => Some(PixelType::Palette),
            3 => Some(PixelType::TrueColor),
            _ => None,
        }
    }

    /// The name under which a summary shows this pixel type.
    pub fn label(&self) -> (r: &'static str)
        ensures
            r@ == pixel_type_label(*self),
    {
        match self {
            PixelType::BlackAndWhite => "Black & White",
            PixelType::GreyScale => "Grey Scale",
            PixelType::Palette => "Palette",
            PixelType::TrueColor => "True Color",
        }
    }

    /// The code of this pixel type.
    pub fn code(&self) -> (r: u8)
        ensures
            r == pixel_type_code(*self),
    {
        match self {
            PixelType::BlackAndWhite => 0,
            PixelType::GreyScale => 1,
            PixelType::Palette => 2,
            PixelType::TrueColor => 3,
        }
    }
}

/// Dimensions and pixel type of an image.
#[derive(Debug, Clone, Copy, PartialEq, Eq, Structural)]
pub struct MPNGHeader {
    pub width: u32,
    pub height: u32,
    pub pixel_type: PixelType,
}

/// The text of a Comment block.
#[derive(Debug, Clone)]
pub struct MPNGComment {
    pub text: String,
}

/// The packed pixel bytes of a Data block.
#[derive(Debug, Clone)]
pub struct MPNGData {
    pub data: Vec<u8>,
}

/// A decoded image: its header, its comment if it has one, and its pixel data.
#[derive(Debug)]
pub struct MPNG {
    pub header: MPNGHeader,
    pub comment: Option<MPNGComment>,
    pub data: MPNGData,
}

/// What a decoded image holds, as mathematical values.
pub struct ImageModel {
    pub header: MPNGHeader,
    pub comment: Option<Seq<char>>,
    pub data: Seq<u8>,
}

/// The text of an optional comment.
pub open spec fn comment_view(c: Option<MPNGComment>) -> Option<Seq<char>> {
    match c {
        Some(c) => Some(c.text@),
        None => None,
    }
}

impl View for MPNG {
    type V = ImageModel;

    open spec fn view(&self) -> ImageModel {
        ImageModel {
            header: self.header,
            comment: comment_view(self.comment),
            data: self.data.data@,
        }
    }
}

/// Whether bit `k` (0 is the lowest) of `b` is set.
pub open spec fn bit_set(b: u8, k: u8) -> bool {
    (b >> k) & 1u8 == 1u8
}

impl MPNG {
    /// The pixels of the data, eight to a byte, lowest bit first: `true` for
    /// a set bit.
    pub fn pixels(&self) -> (r: Vec<bool>)
        requires
            self.data.data@.len() * 8 <= usize::MAX,
        ensures
            r@.len() == self.data.data@.len() * 8,
            forall|i: int|
                0 <= i < r@.len() ==> #[trigger] r@[i] == bit_set(
                    self.data.data@[i / 8],
                    (i % 8) as u8,
                ),
    {
        let d = &self.data.data;
        let mut r: Vec<bool> = Vec::new();
        let mut j: usize = 0;
        while j < d.len()
            invariant
                j <= d@.len(),
                d@.len() * 8 <= usize::MAX,
                r@.len() == j * 8,
                forall|i: int| 0 <= i < r@.len() ==> #[trigger] r@[i] == bit_set(d@[i / 8], (i % 8) as u8),
            decreases d@.len() - j,
        {
            let b = d[j];
            let mut k: u8 = 0;
            while k < 8
                invariant
                    j < d@.len(),
                    b == d@[j as int],
                    k <= 8,
                    r@.len() == j * 8 + k,
                    forall|i: int| 0 <= i < r@.len() ==> #[trigger] r@[i] == bit_set(d@[i / 8], (i % 8) as u8),
                decreases 8 - k,
            {
                let ghost n = r@.len() as int;
                r.push((b >> k) & 1u8 == 1u8);
                assert(n / 8 == j && n % 8 == k) by (nonlinear_arith)
                    requires n == j * 8 + k, k < 8;
                k = k + 1;
            }
            j = j + 1;
        }
        r
    }

    /// Width of the image in pixels.
    pub fn width(&self) -> (r: u32)
        ensures
            r == self.header.width,
    {
        self.header.width
    }

    /// Height of the image in pixels.
    pub fn height(&self) -> (r: u32)
        ensures
            r == self.header.height,
    {
        self.header.height
    }

    /// Pixel type of the image.
    pub fn pixel_type(&self) -> (r: PixelType)
        ensures
            r == self.header.pixel_type,
    {
        self.header.pixel_type
    }
}

} // verus!
