//! The colourful silkscreen: what is produced for it, and how each artifact
//! is put together and sealed.

pub mod encrypt;
pub mod mark;
pub mod mask;
pub mod outline;
pub mod svg;

pub use crate::colorful::mask::parse_solder_mask;

use crate::colorful::encrypt::encrypt_payload;
use crate::colorful::encrypt::sealed;
use crate::colorful::encrypt::KeyMaterial;
use crate::colorful::encrypt::MAX_PLAINTEXT_LEN;
use crate::colorful::svg::SilkscreenImage;
use crate::error::TransJlcError;
use crate::text::append_str;
use crate::text::chars_of;
use crate::text::string_of;
use base64::engine::general_purpose::STANDARD;
use base64::Engine;
use image::ImageReader;
use std::io::Cursor;
use std::path::PathBuf;
use vstd::prelude::*;
use vstd::slice::slice_to_vec;
use vstd::utf8::encode_utf8;

verus! {

/// The standard Base64 encoding of bytes, with padding.
pub uninterp spec fn base64_standard(data: Seq<u8>) -> Seq<char>;

/// Calls `Engine::encode` of the standard Base64 engine. The input is short
/// enough for the length of the output to be a `usize`.
#[verifier::external_body]
pub(crate) fn base64_encode(data: &[u8]) -> (r: String)
    requires
        data@.len() <= usize::MAX / 2,
    ensures
        r@ == base64_standard(data@),
{
    STANDARD.encode(data)
}

/// Reads the size of an image in pixels with
/// `ImageReader::with_guessed_format` and `ImageReader::into_dimensions`.
/// `None` stands for bytes that are not read as an image. Nothing is claimed
/// of the size: which formats are known, and how each is read, can be
/// changed while the program runs.
#[verifier::external_body]
pub(crate) fn image_dimensions(data: &[u8]) -> (r: Option<(u32, u32)>) {
    ImageReader::new(Cursor::new(data)).with_guessed_format().ok()?.into_dimensions().ok()
}

/// An ASCII capital as its small letter, any other character as it is.
pub open spec fn ascii_lower(c: char) -> char {
    if 'A' <= c && c <= 'Z' {
        ((c as u8) + 32) as char
    } else {
        c
    }
}

/// The text with its ASCII capitals made small.
pub open spec fn ascii_lowercase(s: Seq<char>) -> Seq<char> {
    Seq::new(s.len(), |i: int| ascii_lower(s[i]))
}

/// The image type that a data URI names: the file's extension with its
/// ASCII capitals made small, or `png` for a file without one.
pub open spec fn image_type(extension: Option<Seq<char>>) -> Seq<char> {
    match extension {
        Some(text) => ascii_lowercase(text),
        None => "png"@,
    }
}

/// The data URI of an image: its type, then its bytes in Base64.
pub open spec fn data_uri(extension: Option<Seq<char>>, bytes: Seq<u8>) -> Seq<char> {
    "data:image/"@ + image_type(extension) + ";base64,"@ + base64_standard(bytes)
}

/// Makes the ASCII capitals of a text small.
pub fn to_ascii_lowercase(s: &str) -> (r: Vec<char>)
    ensures
        r@ == ascii_lowercase(s@),
{
    let source = chars_of(s);
    let mut out: Vec<char> = Vec::new();
    let mut i: usize = 0;
    while i < source.len()
        invariant
            i <= source@.len(),
            source@ == s@,
            out@ == ascii_lowercase(s@.take(i as int)),
        decreases source@.len() - i,
    {
        let c = source[i];
        let lower = if 'A' <= c && c <= 'Z' {
            ((c as u8) + 32) as char
        } else {
            c
        };
        out.push(lower);
        assert(out@ =~= ascii_lowercase(s@.take(i + 1)));
        i += 1;
    }
    assert(s@.take(s@.len() as int) == s@);
    out
}

/// Writes the data URI of an image from the extension of its file and its
/// bytes. Gives none for more bytes than can be encoded.
pub fn image_data_uri(extension: Option<&str>, bytes: &[u8]) -> (r: Option<String>)
    ensures
        match r {
            Some(uri) => bytes@.len() <= usize::MAX / 2 && uri@ == data_uri(
                match extension {
                    Some(text) => Some(text@),
                    None => None,
                },
                bytes@,
            ),
            None => bytes@.len() > usize::MAX / 2,
        },
{
    if bytes.len() > usize::MAX / 2 {
        return None;
    }
    let mut out: Vec<char> = Vec::new();
    append_str(&mut out, "data:image/");
    match extension {
        Some(text) => {
            let lower = to_ascii_lowercase(text);
            crate::text::append_chars(&mut out, lower.as_slice());
        },
        None => {
            append_str(&mut out, "png");
        },
    }
    append_str(&mut out, ";base64,");
    let encoded = base64_encode(bytes);
    append_str(&mut out, encoded.as_str());
    Some(string_of(out.as_slice()))
}

/// The data URI for a file of the given extension, as contracts write it.
pub open spec fn data_uri_for(extension: Option<&str>, bytes: Seq<u8>) -> Seq<char> {
    data_uri(
        match extension {
            Some(text) => Some(text@),
            None => None,
        },
        bytes,
    )
}

/// Describes an image of the given size for an overlay: the size in pixels,
/// and the data URI of the bytes under the type that the extension names.
/// Fails exactly if the bytes are too many to be encoded.
pub fn describe_image(extension: Option<&str>, bytes: &[u8], size: (u32, u32)) -> (r: Result<
    SilkscreenImage,
    TransJlcError,
>)
    ensures
        match r {
            Ok(image) => {
                &&& bytes@.len() <= usize::MAX / 2
                &&& image.width == size.0
                &&& image.height == size.1
                &&& image.data_uri@ == data_uri_for(extension, bytes@)
            },
            Err(e) => bytes@.len() > usize::MAX / 2 && e is InvalidImage,
        },
{
    match image_data_uri(extension, bytes) {
        Some(data_uri) => Ok(SilkscreenImage { width: size.0, height: size.1, data_uri }),
        None => Err(TransJlcError::InvalidImage { reason: "Image is too large".to_owned() }),
    }
}

/// Describes an image for an overlay from the extension of its file and its
/// bytes: its size in pixels as the image reader finds it, and its data URI.
/// Fails if the bytes are not read as an image, or are too many to be
/// encoded.
pub fn load_image(extension: Option<&str>, bytes: &[u8]) -> (r: Result<
    SilkscreenImage,
    TransJlcError,
>)
    ensures
        match r {
            Ok(image) => bytes@.len() <= usize::MAX / 2 && image.data_uri@ == data_uri_for(
                extension,
                bytes@,
            ),
            Err(e) => e is InvalidImage,
        },
        bytes@.len() > usize::MAX / 2 ==> r is Err,
{
    match image_dimensions(bytes) {
        Some(size) => describe_image(extension, bytes, size),
        None => Err(TransJlcError::InvalidImage { reason: "Read image dimensions".to_owned() }),
    }
}

/// A file of the colourful silkscreen.
#[derive(Debug, Clone, Copy, PartialEq, Eq, Structural)]
pub enum ColorfulArtifact {
    /// The overlay of the top side.
    TopSilkscreen,
    /// The overlay of the bottom side.
    BottomSilkscreen,
    /// The outline of the board.
    BoardOutline,
    /// The marks by which the overlays are aligned.
    BoardOutlineMark,
}

impl ColorfulArtifact {
    /// The name under which the artifact is written.
    pub open spec fn name(self) -> Seq<char> {
        match self {
            ColorfulArtifact::TopSilkscreen => "Fabrication_ColorfulTopSilkscreen.FCTS"@,
            ColorfulArtifact::BottomSilkscreen => "Fabrication_ColorfulBottomSilkscreen.FCBS"@,
            ColorfulArtifact::BoardOutline => "Fabrication_ColorfulBoardOutlineLayer.FCBO"@,
            ColorfulArtifact::BoardOutlineMark => "Fabrication_ColorfulBoardOutlineMark.FCBM"@,
        }
    }

    /// Whether the artifact is sealed: all are but the marks, which are a
    /// plain Gerber file.
    pub open spec fn is_sealed(self) -> bool {
        self != ColorfulArtifact::BoardOutlineMark
    }

    /// The name under which the artifact is written.
    pub fn file_name(&self) -> (r: &'static str)
        ensures
            r@ == self.name(),
    {
        match self {
            ColorfulArtifact::TopSilkscreen => "Fabrication_ColorfulTopSilkscreen.FCTS",
            ColorfulArtifact::BottomSilkscreen => "Fabrication_ColorfulBottomSilkscreen.FCBS",
            ColorfulArtifact::BoardOutline => "Fabrication_ColorfulBoardOutlineLayer.FCBO",
            ColorfulArtifact::BoardOutlineMark => "Fabrication_ColorfulBoardOutlineMark.FCBM",
        }
    }

    /// Tells whether the artifact is sealed.
    pub fn sealed(&self) -> (r: bool)
        ensures
            r == self.is_sealed(),
    {
        match self {
            ColorfulArtifact::BoardOutlineMark => false,
            _ => true,
        }
    }
}

/// What the colourful silkscreen is made from.
#[derive(Debug, Clone)]
pub struct ColorfulOptions {
    /// The image for the top side.
    pub top_image: Option<PathBuf>,
    /// The image for the bottom side.
    pub bottom_image: Option<PathBuf>,
    /// The solder mask of the top side.
    pub top_solder_mask: Option<PathBuf>,
    /// The solder mask of the bottom side.
    pub bottom_solder_mask: Option<PathBuf>,
}

/// The documents of one run, as text: an overlay for each side that has an
/// image, the outline and the marks.
#[derive(Debug, Clone)]
pub struct ArtifactDocuments {
    pub top_svg: Option<String>,
    pub bottom_svg: Option<String>,
    pub outline_svg: String,
    pub mark_gerber: String,
}

/// A file of the colourful silkscreen, as it is written.
#[derive(Debug, Clone)]
pub struct ArtifactFile {
    pub artifact: ColorfulArtifact,
    pub name: String,
    pub bytes: Vec<u8>,
}

/// Produces the files of the colourful silkscreen.
pub struct ColorfulSilkscreenGenerator {
    pub options: ColorfulOptions,
}

/// The artifacts of a run, in the order in which they are written: none
/// without an image; else an overlay for each side that has one, then the
/// outline and the marks.
pub open spec fn planned(has_top: bool, has_bottom: bool) -> Seq<ColorfulArtifact> {
    if !has_top && !has_bottom {
        Seq::empty()
    } else {
        (if has_top {
            seq![ColorfulArtifact::TopSilkscreen]
        } else {
            Seq::empty()
        }) + (if has_bottom {
            seq![ColorfulArtifact::BottomSilkscreen]
        } else {
            Seq::empty()
        }) + seq![ColorfulArtifact::BoardOutline] + seq![ColorfulArtifact::BoardOutlineMark]
    }
}

/// The document of an artifact, if the run has it.
pub open spec fn document_of(documents: ArtifactDocuments, artifact: ColorfulArtifact) -> Option<
    Seq<char>,
> {
    match artifact {
        ColorfulArtifact::TopSilkscreen => match documents.top_svg {
            Some(text) => Some(text@),
            None => None,
        },
        ColorfulArtifact::BottomSilkscreen => match documents.bottom_svg {
            Some(text) => Some(text@),
            None => None,
        },
        ColorfulArtifact::BoardOutline => Some(documents.outline_svg@),
        ColorfulArtifact::BoardOutlineMark => Some(documents.mark_gerber@),
    }
}

/// The bytes of an artifact's file: its document as UTF-8, sealed unless it
/// is the marks.
pub open spec fn file_bytes(
    artifact: ColorfulArtifact,
    document: Seq<char>,
    material: KeyMaterial,
) -> Seq<u8> {
    if artifact.is_sealed() {
        sealed(material, encode_utf8(document))
    } else {
        encode_utf8(document)
    }
}

/// Whether a file is that of the artifact, made from the run's document.
pub open spec fn is_file_of(
    file: ArtifactFile,
    artifact: ColorfulArtifact,
    documents: ArtifactDocuments,
    material: KeyMaterial,
) -> bool {
    &&& file.artifact == artifact
    &&& file.name@ == artifact.name()
    &&& document_of(documents, artifact) is Some
    &&& file.bytes@ == file_bytes(artifact, document_of(documents, artifact)->0, material)
}

/// Whether an artifact's file can be made: the run has its document, and a
/// document that is sealed is not too long for the cipher.
pub open spec fn can_make(artifact: ColorfulArtifact, documents: ArtifactDocuments) -> bool {
    document_of(documents, artifact) is Some && (artifact.is_sealed() ==> encode_utf8(
        document_of(documents, artifact)->0,
    ).len() <= MAX_PLAINTEXT_LEN)
}

impl ColorfulSilkscreenGenerator {
    /// A generator for the given inputs.
    pub fn new(options: ColorfulOptions) -> (r: Self)
        ensures
            r.options == options,
    {
        Self { options }
    }

    /// The artifacts that a run produces, in order.
    pub open spec fn plan(&self) -> Seq<ColorfulArtifact> {
        planned(self.options.top_image is Some, self.options.bottom_image is Some)
    }

    /// The artifacts that a run produces, in the order in which they are
    /// written.
    pub fn planned_artifacts(&self) -> (r: Vec<ColorfulArtifact>)
        ensures
            r@ == self.plan(),
    {
        let has_top = self.options.top_image.is_some();
        let has_bottom = self.options.bottom_image.is_some();
        let mut out: Vec<ColorfulArtifact> = Vec::new();
        if !has_top && !has_bottom {
            return out;
        }
        if has_top {
            out.push(ColorfulArtifact::TopSilkscreen);
        }
        if has_bottom {
            out.push(ColorfulArtifact::BottomSilkscreen);
        }
        out.push(ColorfulArtifact::BoardOutline);
        out.push(ColorfulArtifact::BoardOutlineMark);
        assert(out@ =~= self.plan());
        out
    }

    /// Makes the file of one artifact from the run's documents.
    pub fn make_file(
        artifact: ColorfulArtifact,
        documents: &ArtifactDocuments,
        key_material: &KeyMaterial,
    ) -> (r: Result<ArtifactFile, TransJlcError>)
        ensures
            match r {
                Ok(file) => can_make(artifact, *documents) && is_file_of(
                    file,
                    artifact,
                    *documents,
                    *key_material,
                ),
                Err(e) => !can_make(artifact, *documents),
            },
    {
        let text: &str = match artifact {
            ColorfulArtifact::TopSilkscreen => match &documents.top_svg {
                Some(text) => text.as_str(),
                None => {
                    return Err(
                        TransJlcError::MissingAsset { name: artifact.file_name().to_owned() },
                    );
                },
            },
            ColorfulArtifact::BottomSilkscreen => match &documents.bottom_svg {
                Some(text) => text.as_str(),
                None => {
                    return Err(
                        TransJlcError::MissingAsset { name: artifact.file_name().to_owned() },
                    );
                },
            },
            ColorfulArtifact::BoardOutline => documents.outline_svg.as_str(),
            ColorfulArtifact::BoardOutlineMark => documents.mark_gerber.as_str(),
        };
        let bytes = if artifact.sealed() {
            match encrypt_payload(text.as_bytes(), key_material) {
                Ok(bytes) => bytes,
                Err(e) => {
                    return Err(e);
                },
            }
        } else {
            slice_to_vec(text.as_bytes())
        };
        Ok(ArtifactFile { artifact, name: artifact.file_name().to_owned(), bytes })
    }

    /// Makes the files of a run from its documents, sealed with the run's
    /// key material: one for each planned artifact, in order. Fails exactly
    /// if a planned artifact cannot be made.
    pub fn generate(&self, documents: &ArtifactDocuments, key_material: &KeyMaterial) -> (r: Result<
        Vec<ArtifactFile>,
        TransJlcError,
    >)
        ensures
            match r {
                Ok(files) => {
                    &&& files@.len() == self.plan().len()
                    &&& forall|i: int|
                        0 <= i < files@.len() ==> is_file_of(
                            #[trigger] files@[i],
                            self.plan()[i],
                            *documents,
                            *key_material,
                        )
                    &&& forall|i: int|
                        0 <= i < self.plan().len() ==> can_make(
                            #[trigger] self.plan()[i],
                            *documents,
                        )
                },
                Err(e) => exists|i: int|
                    0 <= i < self.plan().len() && !can_make(#[trigger] self.plan()[i], *documents),
            },
    {
        let plan = self.planned_artifacts();
        let mut files: Vec<ArtifactFile> = Vec::new();
        let mut i: usize = 0;
        while i < plan.len()
            invariant
                i <= plan@.len(),
                plan@ == self.plan(),
                files@.len() == i,
                forall|j: int|
                    0 <= j < i ==> is_file_of(
                        #[trigger] files@[j],
                        plan@[j],
                        *documents,
                        *key_material,
                    ),
                forall|j: int| 0 <= j < i ==> can_make(#[trigger] plan@[j], *documents),
            decreases plan@.len() - i,
        {
            match Self::make_file(plan[i], documents, key_material) {
                Ok(file) => {
                    files.push(file);
                },
                Err(e) => {
                    return Err(e);
                },
            }
            i += 1;
        }
        Ok(files)
    }
}

} // verus!
