//! Image file formats recognized by their path extension.

use vstd::prelude::*;
use vstd::string::StringSliceAdditionalSpecFns;

verus! {

/// Output file formats the tool can write.
#[derive(Clone, Copy, Debug, PartialEq, Eq, Structural)]
pub enum FileFormat {
    PNG,
    JPEG,
}

/// Image file formats an output path can name.
#[derive(Clone, Copy, Debug, PartialEq, Eq, Structural)]
pub enum ImageFileFormat {
    PNG,
    JPEG,
}

/// The bytes after the last dot of a path, or nothing when the path holds
/// no dot.
pub open spec fn extension_spec(b: Seq<u8>) -> Option<Seq<u8>>
    decreases b.len(),
{
    if b.len() == 0 {
        None
    } else if b.last() == 46u8 {
        Some(Seq::<u8>::empty())
    } else {
        match extension_spec(b.drop_last()) {
            None => None,
            Some(e) => Some(e.push(b.last())),
        }
    }
}

/// An ASCII byte lowered to its lower-case form.
pub open spec fn lower_byte_spec(c: u8) -> u8 {
    if 65 <= c <= 90 {
        (c + 32) as u8
    } else {
        c
    }
}

/// The format a lower-cased extension names, if any: `png` for PNG, `jpg`
/// or `jpeg` for JPEG.
pub open spec fn format_of_extension_spec(e: Seq<u8>) -> Option<FileFormat> {
    let l = e.map(|i: int, c: u8| lower_byte_spec(c));
    if l =~= seq![112u8, 110u8, 103u8] {
        Some(FileFormat::PNG)
    } else if l =~= seq![106u8, 112u8, 103u8] || l =~= seq![106u8, 112u8, 101u8, 103u8] {
        Some(FileFormat::JPEG)
    } else {
        None
    }
}

/// The format a whole path names through its extension.
pub open spec fn format_of_path_spec(b: Seq<u8>) -> Option<FileFormat> {
    match extension_spec(b) {
        None => None,
        Some(e) => format_of_extension_spec(e),
    }
}

/// When a dot stands at position `j` and none stands later, the extension
/// is everything after `j`.
proof fn lemma_extension_at(b: Seq<u8>, j: int)
    requires
        0 <= j < b.len(),
        b[j] == 46u8,
        forall|l: int| j < l < b.len() ==> b[l] != 46u8,
    ensures
        extension_spec(b) matches Some(e) && e =~= b.subrange(j + 1, b.len() as int),
    decreases b.len(),
{
    if j == b.len() - 1 {
        assert(b.last() == 46u8);
        assert(extension_spec(b) == Some(Seq::<u8>::empty()));
        assert(b.subrange(j + 1, b.len() as int) =~= Seq::<u8>::empty());
    } else {
        assert(b.last() != 46u8);
        let d = b.drop_last();
        assert(d[j] == 46u8);
        lemma_extension_at(d, j);
        let e = extension_spec(d)->Some_0;
        assert(extension_spec(b) == Some(e.push(b.last())));
        assert(e.push(b.last()) =~= b.subrange(j + 1, b.len() as int)) by {
            assert(e =~= d.subrange(j + 1, d.len() as int));
        }
    }
}

/// A path without any dot has no extension.
proof fn lemma_no_extension(b: Seq<u8>)
    requires
        forall|l: int| 0 <= l < b.len() ==> b[l] != 46u8,
    ensures
        extension_spec(b) is None,
    decreases b.len(),
{
    if b.len() > 0 {
        lemma_no_extension(b.drop_last());
    }
}

/// The position just after the last dot of the byte string, or zero when
/// no dot exists.
fn find_extension_start(bytes: &[u8]) -> (r: Option<usize>)
    ensures
        match r {
            Some(j) => j < bytes@.len() && bytes@[j as int] == 46 && (forall|l: int|
                j < l < bytes@.len() ==> bytes@[l] != 46),
            None => forall|l: int| 0 <= l < bytes@.len() ==> bytes@[l] != 46,
        },
{
    let n = bytes.len();
    let mut i: usize = n;
    while i > 0
        invariant
            n == bytes@.len(),
            0 <= i <= n,
            forall|l: int| i <= l < n ==> bytes@[l] != 46,
        decreases i,
    {
        i = i - 1;
        if bytes[i] == 46 {
            return Some(i);
        }
    }
    None
}

fn lower_byte(c: u8) -> (r: u8)
    ensures
        r == lower_byte_spec(c),
{
    if 65 <= c && c <= 90 {
        c + 32
    } else {
        c
    }
}

/// The format the lower-cased tail of `bytes`, starting at `start`, names.
fn match_extension(bytes: &[u8], start: usize) -> (r: Option<FileFormat>)
    requires
        start <= bytes@.len(),
    ensures
        r == format_of_extension_spec(bytes@.subrange(start as int, bytes@.len() as int)),
{
    let n = bytes.len();
    let len = n - start;
    let ghost ext = bytes@.subrange(start as int, bytes@.len() as int);
    let ghost low = ext.map(|i: int, c: u8| lower_byte_spec(c));
    proof {
        assert(low.len() == ext.len());
    }
    if len == 3 {
        let c0 = lower_byte(bytes[start]);
        let c1 = lower_byte(bytes[start + 1]);
        let c2 = lower_byte(bytes[start + 2]);
        proof {
            assert(low[0] == lower_byte_spec(ext[0]) && low[1] == lower_byte_spec(ext[1]) && low[2]
                == lower_byte_spec(ext[2]));
        }
        if c0 == 112 && c1 == 110 && c2 == 103 {
            proof {
                assert(low =~= seq![112u8, 110u8, 103u8]);
            }
            Some(FileFormat::PNG)
        } else if c0 == 106 && c1 == 112 && c2 == 103 {
            proof {
                assert(low =~= seq![106u8, 112u8, 103u8]);
                assert(!(low =~= seq![112u8, 110u8, 103u8]));
            }
            Some(FileFormat::JPEG)
        } else {
            proof {
                assert(!(low =~= seq![112u8, 110u8, 103u8]));
                assert(!(low =~= seq![106u8, 112u8, 103u8]));
                assert(!(low =~= seq![106u8, 112u8, 101u8, 103u8]));
            }
            None
        }
    } else if len == 4 {
        let c0 = lower_byte(bytes[start]);
        let c1 = lower_byte(bytes[start + 1]);
        let c2 = lower_byte(bytes[start + 2]);
        let c3 = lower_byte(bytes[start + 3]);
        proof {
            assert(low[0] == lower_byte_spec(ext[0]) && low[1] == lower_byte_spec(ext[1]) && low[2]
                == lower_byte_spec(ext[2]) && low[3] == lower_byte_spec(ext[3]));
        }
        if c0 == 106 && c1 == 112 && c2 == 101 && c3 == 103 {
            proof {
                assert(low =~= seq![106u8, 112u8, 101u8, 103u8]);
            }
            Some(FileFormat::JPEG)
        } else {
            proof {
                assert(!(low =~= seq![112u8, 110u8, 103u8]));
                assert(!(low =~= seq![106u8, 112u8, 103u8]));
                assert(!(low =~= seq![106u8, 112u8, 101u8, 103u8]));
            }
            None
        }
    } else {
        proof {
            assert(!(low =~= seq![112u8, 110u8, 103u8]));
            assert(!(low =~= seq![106u8, 112u8, 103u8]));
            assert(!(low =~= seq![106u8, 112u8, 101u8, 103u8]));
        }
        None
    }
}

impl FileFormat {
    /// The format a path names through its extension: `.png` is PNG,
    /// `.jpg` and `.jpeg` are JPEG (case-insensitively), and anything else
    /// is rejected.
    pub fn from_path(path: &str) -> (r: Result<FileFormat, &'static str>)
        ensures
            (r is Ok) == (format_of_path_spec(path.spec_bytes()) is Some),
            r matches Ok(f) ==> Some(f) == format_of_path_spec(path.spec_bytes()),
    {
        let bytes = path.as_bytes();
        let n = bytes.len();
        match find_extension_start(bytes) {
            None => {
                proof {
                    lemma_no_extension(bytes@);
                }
                Err("Invalid file format; only PNG and JPEG are accepted")
            },
            Some(j) => {
                proof {
                    lemma_extension_at(bytes@, j as int);
                    assert(j < n);
                }
                match match_extension(bytes, j + 1) {
                    Some(f) => Ok(f),
                    None => Err("Invalid file format; only PNG and JPEG are accepted"),
                }
            },
        }
    }

    /// Relies on the image crate's ImageFormat constants to name the same
    /// format for its encoders.
    #[verifier::external_body]
    pub fn get_native_format(&self) -> image::ImageFormat {
        match self {
            FileFormat::PNG => image::ImageFormat::Png,
            FileFormat::JPEG => image::ImageFormat::Jpeg,
        }
    }
}

impl ImageFileFormat {
    /// The format a path names through its extension: `.png` is PNG,
    /// `.jpg` and `.jpeg` are JPEG (case-insensitively), and anything else
    /// is rejected.
    pub fn from_path(path: &str) -> (r: Result<ImageFileFormat, &'static str>)
        ensures
            (r is Ok) == (format_of_path_spec(path.spec_bytes()) is Some),
            r matches Ok(f) ==> (f == ImageFileFormat::PNG) == (format_of_path_spec(
                path.spec_bytes(),
            ) == Some(FileFormat::PNG)),
    {
        match FileFormat::from_path(path) {
            Ok(FileFormat::PNG) => Ok(ImageFileFormat::PNG),
            Ok(FileFormat::JPEG) => Ok(ImageFileFormat::JPEG),
            Err(e) => Err(e),
        }
    }

    /// Relies on the image crate's ImageFormat constants to name the same
    /// format for its encoders.
    #[verifier::external_body]
    pub fn get_native_format(&self) -> image::ImageFormat {
        match self {
            ImageFileFormat::PNG => image::ImageFormat::Png,
            ImageFileFormat::JPEG => image::ImageFormat::Jpeg,
        }
    }
}

/// Declares image::ImageFormat for use in results; its values stay opaque.
#[verifier::external_type_specification]
#[verifier::external_body]
pub struct ExImageFormat(image::ImageFormat);

} // verus!
