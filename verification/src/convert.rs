//! One conversion: an uploaded image, the task that converts it, and the
//! named result that goes into the archive.

use vstd::prelude::*;
use crate::codec::{convert_image, converted, ConvertError};
use crate::format::Format;

verus! {

/// An uploaded image: the stem of the file name it was uploaded under and
/// its bytes.
#[derive(Clone, Debug, PartialEq, Eq)]
pub struct UploadedImage {
    pub name: String,
    pub bytes: Vec<u8>,
}

/// An uploaded image as plain values.
pub struct ImageView {
    pub name: Seq<char>,
    pub bytes: Seq<u8>,
}

impl View for UploadedImage {
    type V = ImageView;

    open spec fn view(&self) -> ImageView {
        ImageView { name: self.name@, bytes: self.bytes@ }
    }
}

/// A converted image: the name of its archive entry and its encoded bytes.
#[derive(Clone, Debug, PartialEq, Eq)]
pub struct ConversionResult {
    pub filename: String,
    pub bytes: Vec<u8>,
}

/// A converted image as plain values.
pub struct ResultView {
    pub filename: Seq<char>,
    pub bytes: Seq<u8>,
}

impl View for ConversionResult {
    type V = ResultView;

    open spec fn view(&self) -> ResultView {
        ResultView { filename: self.filename@, bytes: self.bytes@ }
    }
}

/// The name of the archive entry for an image: the stem of the uploaded
/// name, a dot, and the extension of the target format.
pub open spec fn output_name(stem: Seq<char>, format: Format) -> Seq<char> {
    stem + seq!['.'] + format.spec_extension()
}

/// What converting an uploaded image to a format yields: the entry name
/// with the encoded bytes, or the reason the codec gave up.
pub open spec fn conversion(image: ImageView, format: Format) -> Result<ResultView, ConvertError> {
    match converted(image.bytes, format) {
        Ok(bytes) => Ok(ResultView { filename: output_name(image.name, format), bytes }),
        Err(e) => Err(e),
    }
}

/// Derives the name of the archive entry for an image.
pub fn output_filename(stem: &str, format: Format) -> (r: String)
    ensures
        r@ == output_name(stem@, format),
{
    proof {
        reveal_strlit(".");
        assert("."@ =~= seq!['.']);
    }
    let mut name = String::from_str(stem);
    name.append(".");
    name.append(format.extension());
    name
}

/// Names the outcome of a conversion: encoded bytes become the result that
/// carries the entry name, a failure is passed on unchanged.
pub fn conversion_result(stem: &str, format: Format, encoded: Result<Vec<u8>, ConvertError>) -> (r:
    Result<ConversionResult, ConvertError>)
    ensures
        match encoded {
            Ok(bytes) => r matches Ok(c) && c@ == (ResultView {
                filename: output_name(stem@, format),
                bytes: bytes@,
            }),
            Err(e) => r == Err::<ConversionResult, ConvertError>(e),
        },
{
    match encoded {
        Ok(bytes) => Ok(ConversionResult { filename: output_filename(stem, format), bytes }),
        Err(e) => Err(e),
    }
}

/// The unit of work of the fan-out: one uploaded image and the format it is
/// to be converted to.
#[derive(Clone, Debug, PartialEq, Eq)]
pub struct ConversionTask {
    pub image: UploadedImage,
    pub format: Format,
}

impl ConversionTask {
    /// Pairs an image with its target format.
    pub fn new(image: UploadedImage, format: Format) -> (task: ConversionTask)
        ensures
            task.image == image,
            task.format == format,
    {
        ConversionTask { image, format }
    }

    /// What running the task yields.
    pub open spec fn outcome(&self) -> Result<ResultView, ConvertError> {
        conversion(self.image@, self.format)
    }

    /// Converts the image. Tasks share nothing: the outcome depends on the
    /// task alone, so tasks may run in any order and side by side.
    pub fn run(&self) -> (r: Result<ConversionResult, ConvertError>)
        ensures
            match r {
                Ok(c) => self.outcome() == Ok::<ResultView, ConvertError>(c@),
                Err(e) => self.outcome() == Err::<ResultView, ConvertError>(e),
            },
    {
        let encoded = convert_image(self.image.bytes.as_slice(), self.format);
        conversion_result(self.image.name.as_str(), self.format, encoded)
    }
}

/// An entry name determines both the stem and the format it was derived
/// from: images with different names, or converted to different formats,
/// never share an entry name.
pub proof fn lemma_output_name_injective(s1: Seq<char>, f1: Format, s2: Seq<char>, f2: Format)
    requires
        output_name(s1, f1) == output_name(s2, f2),
    ensures
        s1 == s2,
        f1 == f2,
{
    let n1 = output_name(s1, f1);
    let n2 = output_name(s2, f2);
    let e1 = f1.spec_extension();
    let e2 = f2.spec_extension();
    let len = n1.len() as int;
    assert(n1[len - 1] == e1[e1.len() - 1]);
    assert(n2[len - 1] == e2[e2.len() - 1]);
    assert(n1[len - 4] == if e1.len() == 3 { '.' } else { e1[0] });
    assert(n2[len - 4] == if e2.len() == 3 { '.' } else { e2[0] });
    assert(f1 == f2);
    assert(s1 =~= n1.subrange(0, len - 1 - e1.len()));
    assert(s2 =~= n2.subrange(0, len - 1 - e2.len()));
}

} // verus!
