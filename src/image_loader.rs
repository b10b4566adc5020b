//! The decisions of the image asset loader: which decoder a file goes to, and
//! how the loader's settings adjust the decoded texture.
use vstd::prelude::*;

verus! {

/// The image file formats the loader recognises.
#[derive(Clone, Copy, Debug, PartialEq, Eq, Structural)]
pub enum ImageFormat {
    Basis,
    Bmp,
    Png,
    Dds,
    Tga,
    Jpeg,
    Ktx2,
    WebP,
    Pnm,
}

/// Whether the format comes from the file's extension or is given.
#[derive(Clone, Copy, Debug, PartialEq, Eq, Structural)]
pub enum ImageFormatSetting {
    FromExtension,
    Format(ImageFormat),
}

impl ImageFormatSetting {
    /// The format is taken from the extension unless one is given.
    pub fn default() -> (r: ImageFormatSetting)
        ensures
            r == ImageFormatSetting::FromExtension,
    {
        ImageFormatSetting::FromExtension
    }
}

/// How the decoder is told the format: by extension, or directly.
#[derive(Clone, Debug)]
pub enum ImageType {
    Extension(String),
    Format(ImageFormat),
}

/// The sampler a texture is created with.
#[derive(Clone, Copy, Debug, PartialEq, Eq, Structural)]
pub enum ImageSampler {
    Default,
    Linear,
    Nearest,
}

/// The worlds in which an asset's data is kept.
#[derive(Clone, Copy, Debug, PartialEq, Eq, Structural)]
pub struct RenderAssetUsages {
    pub main_world: bool,
    pub render_world: bool,
}

impl RenderAssetUsages {
    /// Kept in both worlds.
    pub fn default() -> (r: RenderAssetUsages)
        ensures
            r == (RenderAssetUsages { main_world: true, render_world: true }),
    {
        RenderAssetUsages { main_world: true, render_world: true }
    }
}

/// Whether the CPU copy of an asset is kept after upload.
#[derive(Clone, Copy, Debug, PartialEq, Eq, Structural)]
pub enum RenderAssetPersistencePolicy {
    Keep,
    Unload,
}

#[derive(Clone, Copy, Debug, PartialEq, Eq, Structural)]
pub enum TextureDimension {
    D1,
    D2,
    D3,
}

/// The texel formats a loaded image can be given.
#[derive(Clone, Copy, Debug, PartialEq, Eq, Structural)]
pub enum TextureFormat {
    R8Unorm,
    Rg8Unorm,
    Rgba8Unorm,
    Rgba8UnormSrgb,
    Bgra8Unorm,
    Bgra8UnormSrgb,
    Rgba16Unorm,
}

/// A set of texture usage flags, as bits.
#[derive(Clone, Copy, Debug, PartialEq, Eq, Structural)]
pub struct TextureUsages(pub u32);

#[derive(Clone, Copy, Debug, PartialEq, Eq, Structural)]
pub struct Extent3d {
    pub width: u32,
    pub height: u32,
    pub depth_or_array_layers: u32,
}

/// The description a texture is created from.
#[derive(Clone, Copy, Debug, PartialEq, Eq, Structural)]
pub struct TextureDescriptor {
    pub size: Extent3d,
    pub mip_level_count: u32,
    pub sample_count: u32,
    pub dimension: TextureDimension,
    pub format: TextureFormat,
    pub usage: TextureUsages,
}

/// A decoded image, ready for upload.
#[derive(Clone, Debug)]
pub struct Image {
    pub data: Vec<u8>,
    pub texture_descriptor: TextureDescriptor,
    pub sampler: ImageSampler,
    pub asset_usage: RenderAssetUsages,
}

/// The compressed texture formats the device can sample.
#[derive(Clone, Copy, Debug, PartialEq, Eq, Structural)]
pub struct CompressedImageFormats {
    pub astc_ldr: bool,
    pub bc: bool,
    pub etc2: bool,
}

/// Why an image could not be decoded.
#[derive(Clone, Debug, PartialEq, Eq)]
pub enum TextureError {
    InvalidImageExtension(String),
    UnsupportedTextureFormat(String),
    ImageError(String),
}

/// A decode failure, with the path of the file.
#[derive(Clone, Debug, PartialEq, Eq)]
pub struct FileTextureError {
    error: TextureError,
    path: String,
}

impl FileTextureError {
    pub closed spec fn spec_error(&self) -> TextureError {
        self.error
    }

    pub closed spec fn spec_path(&self) -> Seq<char> {
        self.path@
    }

    pub fn new(error: TextureError, path: String) -> (r: FileTextureError)
        ensures
            r.spec_error() == error,
            r.spec_path() == path@,
    {
        FileTextureError { error, path }
    }

    pub fn error(&self) -> (r: &TextureError)
        ensures
            *r == self.spec_error(),
    {
        &self.error
    }

    pub fn path(&self) -> (r: &str)
        ensures
            r@ == self.spec_path(),
    {
        self.path.as_str()
    }
}

/// Why loading an image failed.
#[derive(Clone, Debug, PartialEq, Eq)]
pub enum ImageLoaderError {
    /// Reading the file failed; the message says why.
    Io(String),
    FileTexture(FileTextureError),
}

/// The settings an image is loaded with.
#[derive(Clone, Copy, Debug, PartialEq, Eq, Structural)]
pub struct ImageLoaderSettings {
    pub format: ImageFormatSetting,
    pub is_srgb: bool,
    pub sampler: ImageSampler,
    pub asset_usage: RenderAssetUsages,
    pub cpu_persistent_access: RenderAssetPersistencePolicy,
    pub sample_count: Option<u32>,
    pub dimension: Option<TextureDimension>,
    pub texture_format: Option<TextureFormat>,
    pub usage: Option<TextureUsages>,
}

/// The format that a file extension names, if any.
pub open spec fn format_of_extension(ext: Seq<char>) -> Option<ImageFormat> {
    if ext == "basis"@ {
        Some(ImageFormat::Basis)
    } else if ext == "bmp"@ {
        Some(ImageFormat::Bmp)
    } else if ext == "png"@ {
        Some(ImageFormat::Png)
    } else if ext == "dds"@ {
        Some(ImageFormat::Dds)
    } else if ext == "tga"@ {
        Some(ImageFormat::Tga)
    } else if ext == "jpg"@ || ext == "jpeg"@ {
        Some(ImageFormat::Jpeg)
    } else if ext == "ktx2"@ {
        Some(ImageFormat::Ktx2)
    } else if ext == "webp"@ {
        Some(ImageFormat::WebP)
    } else if ext == "pam"@ || ext == "pbm"@ || ext == "pgm"@ || ext == "ppm"@ {
        Some(ImageFormat::Pnm)
    } else {
        None
    }
}

/// Whether two strings hold the same characters.
fn same_text(a: &str, b: &str) -> (r: bool)
    ensures
        r == (a@ == b@),
{
    let n = a.unicode_len();
    if n != b.unicode_len() {
        return false;
    }
    let mut i: usize = 0;
    while i < n
        invariant
            i <= n,
            n == a@.len(),
            n == b@.len(),
            forall|k: int| 0 <= k < i ==> a@[k] == b@[k],
        decreases n - i,
    {
        if a.get_char(i) != b.get_char(i) {
            return false;
        }
        i = i + 1;
    }
    proof {
        assert(a@ =~= b@);
    }
    true
}

impl ImageFormat {
    /// The format that a file extension names, if any.
    pub fn from_extension(ext: &str) -> (r: Option<ImageFormat>)
        ensures
            r == format_of_extension(ext@),
    {
        if same_text(ext, "basis") {
            Some(ImageFormat::Basis)
        } else if same_text(ext, "bmp") {
            Some(ImageFormat::Bmp)
        } else if same_text(ext, "png") {
            Some(ImageFormat::Png)
        } else if same_text(ext, "dds") {
            Some(ImageFormat::Dds)
        } else if same_text(ext, "tga") {
            Some(ImageFormat::Tga)
        } else if same_text(ext, "jpg") || same_text(ext, "jpeg") {
            Some(ImageFormat::Jpeg)
        } else if same_text(ext, "ktx2") {
            Some(ImageFormat::Ktx2)
        } else if same_text(ext, "webp") {
            Some(ImageFormat::WebP)
        } else if same_text(ext, "pam") || same_text(ext, "pbm") || same_text(ext, "pgm") || same_text(
            ext,
            "ppm",
        ) {
            Some(ImageFormat::Pnm)
        } else {
            None
        }
    }
}

/// The format the decoder is to use, or the error for an unknown extension.
pub open spec fn format_of_type(t: ImageType) -> Result<ImageFormat, TextureError> {
    match t {
        ImageType::Format(f) => Ok(f),
        ImageType::Extension(ext) => match format_of_extension(ext@) {
            Some(f) => Ok(f),
            None => Err(TextureError::InvalidImageExtension(ext)),
        },
    }
}

impl ImageType {
    /// The format the decoder is to use.
    pub fn to_image_format(&self) -> (r: Result<ImageFormat, TextureError>)
        ensures
            r == format_of_type(*self),
    {
        match self {
            ImageType::Format(f) => Ok(*f),
            ImageType::Extension(ext) => match ImageFormat::from_extension(ext.as_str()) {
                Some(f) => Ok(f),
                None => Err(TextureError::InvalidImageExtension(ext.clone())),
            },
        }
    }
}

/// The descriptor after the settings' overrides are applied.
pub open spec fn applied(s: ImageLoaderSettings, d: TextureDescriptor) -> TextureDescriptor {
    TextureDescriptor {
        sample_count: match s.sample_count {
            Some(v) => v,
            None => d.sample_count,
        },
        dimension: match s.dimension {
            Some(v) => v,
            None => d.dimension,
        },
        format: match s.texture_format {
            Some(v) => v,
            None => d.format,
        },
        usage: match s.usage {
            Some(v) => v,
            None => d.usage,
        },
        ..d
    }
}

impl ImageLoaderSettings {
    /// Sets each field of `descriptor` that the settings override.
    pub fn apply_to(&self, descriptor: &mut TextureDescriptor)
        ensures
            *final(descriptor) == applied(*self, *old(descriptor)),
    {
        descriptor.sample_count = match self.sample_count {
            Some(v) => v,
            None => descriptor.sample_count,
        };
        descriptor.dimension = match self.dimension {
            Some(v) => v,
            None => descriptor.dimension,
        };
        descriptor.format = match self.texture_format {
            Some(v) => v,
            None => descriptor.format,
        };
        descriptor.usage = match self.usage {
            Some(v) => v,
            None => descriptor.usage,
        };
    }

    /// How the decoder is told the format of a file with extension `ext`.
    pub fn image_type(&self, ext: &str) -> (r: ImageType)
        ensures
            match self.format {
                ImageFormatSetting::FromExtension => r matches ImageType::Extension(e) && e@ == ext@,
                ImageFormatSetting::Format(f) => r matches ImageType::Format(g) && g == f,
            },
    {
        match self.format {
            ImageFormatSetting::FromExtension => ImageType::Extension(ext.to_owned()),
            ImageFormatSetting::Format(f) => ImageType::Format(f),
        }
    }

    /// Format from the extension, sRGB, default sampler, kept in both worlds,
    /// and no override of the texture descriptor.
    pub fn default() -> (r: ImageLoaderSettings)
        ensures
            r == (ImageLoaderSettings {
                format: ImageFormatSetting::FromExtension,
                is_srgb: true,
                sampler: ImageSampler::Default,
                asset_usage: RenderAssetUsages { main_world: true, render_world: true },
                cpu_persistent_access: RenderAssetPersistencePolicy::Keep,
                sample_count: None,
                dimension: None,
                texture_format: None,
                usage: None,
            }),
    {
        ImageLoaderSettings {
            format: ImageFormatSetting::default(),
            is_srgb: true,
            sampler: ImageSampler::Default,
            asset_usage: RenderAssetUsages::default(),
            cpu_persistent_access: RenderAssetPersistencePolicy::Keep,
            sample_count: None,
            dimension: None,
            texture_format: None,
            usage: None,
        }
    }
}

/// What the decoder is asked to do with a file's bytes.
#[derive(Clone, Copy, Debug, PartialEq, Eq, Structural)]
pub struct DecodeRequest {
    pub format: ImageFormat,
    pub supported_compressed_formats: CompressedImageFormats,
    pub is_srgb: bool,
    pub sampler: ImageSampler,
    pub asset_usage: RenderAssetUsages,
}

/// The decoder for images.
#[derive(Clone, Copy, Debug, PartialEq, Eq, Structural)]
pub struct ImageLoader {
    pub supported_compressed_formats: CompressedImageFormats,
}

/// The format a file with extension `ext` is decoded as under `setting`.
pub open spec fn decode_format(setting: ImageFormatSetting, ext: Seq<char>) -> Option<ImageFormat> {
    match setting {
        ImageFormatSetting::Format(f) => Some(f),
        ImageFormatSetting::FromExtension => format_of_extension(ext),
    }
}

/// Once a format is given, the extension no longer matters: two files with
/// any extensions are decoded alike.
pub proof fn lemma_explicit_format_ignores_extension(f: ImageFormat, ext1: Seq<char>, ext2: Seq<char>)
    ensures
        decode_format(ImageFormatSetting::Format(f), ext1) == Some(f),
        decode_format(ImageFormatSetting::Format(f), ext1) == decode_format(ImageFormatSetting::Format(f), ext2),
{
}

impl ImageLoader {
    /// A loader for the compressed formats the render device supports, or for
    /// none where there is no device.
    pub fn from_world(device_formats: Option<CompressedImageFormats>) -> (r: ImageLoader)
        ensures
            r.supported_compressed_formats == match device_formats {
                Some(f) => f,
                None => CompressedImageFormats { astc_ldr: false, bc: false, etc2: false },
            },
    {
        let supported_compressed_formats = match device_formats {
            Some(f) => f,
            None => CompressedImageFormats { astc_ldr: false, bc: false, etc2: false },
        };
        ImageLoader { supported_compressed_formats }
    }

    /// The extensions the loader is registered for.
    pub fn extensions(&self) -> (r: Vec<&'static str>)
        ensures
            r@ == seq![
                "basis",
                "bmp",
                "png",
                "dds",
                "tga",
                "jpg",
                "jpeg",
                "ktx2",
                "webp",
                "pam",
                "pbm",
                "pgm",
                "ppm",
            ],
    {
        let r: Vec<&'static str> = vec![
            "basis",
            "bmp",
            "png",
            "dds",
            "tga",
            "jpg",
            "jpeg",
            "ktx2",
            "webp",
            "pam",
            "pbm",
            "pgm",
            "ppm",
        ];
        proof {
            assert(r@ =~= seq![
                "basis",
                "bmp",
                "png",
                "dds",
                "tga",
                "jpg",
                "jpeg",
                "ktx2",
                "webp",
                "pam",
                "pbm",
                "pgm",
                "ppm",
            ]);
        }
        r
    }

    /// What to ask of the decoder for the file at `path` with extension `ext`:
    /// an explicit format wins over the extension. An extension that names no
    /// format fails with the path.
    pub fn decode_request(&self, settings: &ImageLoaderSettings, ext: &str, path: &str) -> (r: Result<
        DecodeRequest,
        ImageLoaderError,
    >)
        ensures
            match decode_format(settings.format, ext@) {
                Some(f) => r == Ok::<DecodeRequest, ImageLoaderError>(
                    DecodeRequest {
                        format: f,
                        supported_compressed_formats: self.supported_compressed_formats,
                        is_srgb: settings.is_srgb,
                        sampler: settings.sampler,
                        asset_usage: settings.asset_usage,
                    },
                ),
                None => r matches Err(ImageLoaderError::FileTexture(e)) && e.spec_path() == path@
                    && (e.spec_error() matches TextureError::InvalidImageExtension(x) && x@ == ext@),
            },
    {
        let image_type = settings.image_type(ext);
        match image_type.to_image_format() {
            Ok(format) => Ok(
                DecodeRequest {
                    format,
                    supported_compressed_formats: self.supported_compressed_formats,
                    is_srgb: settings.is_srgb,
                    sampler: settings.sampler,
                    asset_usage: settings.asset_usage,
                },
            ),
            Err(error) => Err(ImageLoaderError::FileTexture(FileTextureError::new(error, path.to_owned()))),
        }
    }

    /// Finishes a load from what the decoder returned: a decoded image gets
    /// the settings' descriptor overrides; a decode failure is reported with
    /// the path of the file.
    pub fn finish_load(
        &self,
        settings: &ImageLoaderSettings,
        path: &str,
        decoded: Result<Image, TextureError>,
    ) -> (r: Result<Image, ImageLoaderError>)
        ensures
            match decoded {
                Ok(img) => r matches Ok(out) && out.data@ == img.data@ && out.texture_descriptor
                    == applied(*settings, img.texture_descriptor) && out.sampler == img.sampler
                    && out.asset_usage == img.asset_usage,
                Err(err) => r matches Err(ImageLoaderError::FileTexture(e)) && e.spec_error() == err
                    && e.spec_path() == path@,
            },
    {
        match decoded {
            Ok(mut image) => {
                settings.apply_to(&mut image.texture_descriptor);
                Ok(image)
            },
            Err(error) => Err(ImageLoaderError::FileTexture(FileTextureError::new(error, path.to_owned()))),
        }
    }
}

} // verus!
