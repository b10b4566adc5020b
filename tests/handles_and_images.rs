use render_core::bind_group::BindGroup;
use render_core::image_loader::{
    CompressedImageFormats, Extent3d, Image, ImageFormat, ImageFormatSetting, ImageLoader, ImageLoaderError,
    ImageLoaderSettings, ImageSampler, ImageType, RenderAssetPersistencePolicy, RenderAssetUsages,
    TextureDescriptor, TextureDimension, TextureError, TextureFormat, TextureUsages,
};
use std::collections::hash_map::DefaultHasher;
use std::hash::{Hash, Hasher};
use std::rc::Rc;

fn hash_of<T: Hash>(t: &T) -> u64 {
    let mut h = DefaultHasher::new();
    t.hash(&mut h);
    h.finish()
}

#[test]
fn cloned_handles_share_identity_and_object() {
    let native = Rc::new(5u32);
    let a = BindGroup::from(native.clone());
    let b = a.clone();
    assert_eq!(a.id(), b.id());
    assert_eq!(hash_of(&a.id()), hash_of(&b.id()));
    assert_eq!(Rc::strong_count(&native), 2);
    drop(a);
    assert_eq!(**b.value(), 5);
    assert_eq!(Rc::strong_count(&native), 2);
    drop(b);
    assert_eq!(Rc::strong_count(&native), 1);
}

#[test]
fn separately_wrapped_objects_differ_in_identity() {
    let a = BindGroup::from(1u8);
    let b = BindGroup::from(1u8);
    assert_ne!(a.id(), b.id());
}

fn descriptor() -> TextureDescriptor {
    TextureDescriptor {
        size: Extent3d { width: 4, height: 2, depth_or_array_layers: 1 },
        mip_level_count: 1,
        sample_count: 1,
        dimension: TextureDimension::D2,
        format: TextureFormat::Rgba8UnormSrgb,
        usage: TextureUsages(6),
    }
}

fn loader() -> ImageLoader {
    ImageLoader::from_world(None)
}

#[test]
fn extension_selects_decoder() {
    let settings = ImageLoaderSettings::default();
    let req = loader().decode_request(&settings, "png", "tex.png").unwrap();
    assert_eq!(req.format, ImageFormat::Png);
    assert!(req.is_srgb);
}

#[test]
fn explicit_format_overrides_extension() {
    let mut settings = ImageLoaderSettings::default();
    settings.format = ImageFormatSetting::Format(ImageFormat::Jpeg);
    let req = loader().decode_request(&settings, "png", "tex.png").unwrap();
    assert_eq!(req.format, ImageFormat::Jpeg);
}

#[test]
fn unknown_extension_fails_with_path() {
    let settings = ImageLoaderSettings::default();
    match loader().decode_request(&settings, "xyz", "assets/tex.xyz") {
        Err(ImageLoaderError::FileTexture(e)) => {
            assert_eq!(e.path(), "assets/tex.xyz");
            assert_eq!(e.error(), &TextureError::InvalidImageExtension("xyz".to_string()));
        }
        other => panic!("unexpected {:?}", other),
    }
}

#[test]
fn extensions_name_formats() {
    assert_eq!(ImageFormat::from_extension("jpg"), Some(ImageFormat::Jpeg));
    assert_eq!(ImageFormat::from_extension("jpeg"), Some(ImageFormat::Jpeg));
    assert_eq!(ImageFormat::from_extension("ppm"), Some(ImageFormat::Pnm));
    assert_eq!(ImageFormat::from_extension("ktx2"), Some(ImageFormat::Ktx2));
    assert_eq!(ImageFormat::from_extension("PNG"), None);
    assert_eq!(ImageFormat::from_extension(""), None);
    for ext in loader().extensions() {
        assert!(ImageFormat::from_extension(ext).is_some(), "{}", ext);
    }
    assert_eq!(loader().extensions().len(), 13);
}

#[test]
fn image_type_follows_setting() {
    assert_eq!(ImageType::Format(ImageFormat::Bmp).to_image_format(), Ok(ImageFormat::Bmp));
    assert_eq!(ImageType::Extension("webp".to_string()).to_image_format(), Ok(ImageFormat::WebP));
    let settings = ImageLoaderSettings::default();
    match settings.image_type("tga") {
        ImageType::Extension(e) => assert_eq!(e, "tga"),
        other => panic!("unexpected {:?}", other),
    }
}

#[test]
fn default_settings() {
    let s = ImageLoaderSettings::default();
    assert_eq!(s.format, ImageFormatSetting::FromExtension);
    assert!(s.is_srgb);
    assert_eq!(s.sampler, ImageSampler::Default);
    assert_eq!(s.asset_usage, RenderAssetUsages { main_world: true, render_world: true });
    assert_eq!(s.cpu_persistent_access, RenderAssetPersistencePolicy::Keep);
    assert_eq!(s.sample_count, None);
    let mut d = descriptor();
    s.apply_to(&mut d);
    assert_eq!(d, descriptor());
}

#[test]
fn settings_override_descriptor() {
    let mut s = ImageLoaderSettings::default();
    s.sample_count = Some(4);
    s.texture_format = Some(TextureFormat::Rgba8Unorm);
    s.usage = Some(TextureUsages(1));
    let mut d = descriptor();
    s.apply_to(&mut d);
    assert_eq!(d.sample_count, 4);
    assert_eq!(d.format, TextureFormat::Rgba8Unorm);
    assert_eq!(d.usage, TextureUsages(1));
    assert_eq!(d.dimension, TextureDimension::D2);
    assert_eq!(d.size, descriptor().size);
}

#[test]
fn finish_load_applies_settings_or_reports_path() {
    let mut s = ImageLoaderSettings::default();
    s.dimension = Some(TextureDimension::D3);
    let img = Image {
        data: vec![1, 2, 3],
        texture_descriptor: descriptor(),
        sampler: ImageSampler::Nearest,
        asset_usage: RenderAssetUsages::default(),
    };
    let out = loader().finish_load(&s, "a.png", Ok(img)).unwrap();
    assert_eq!(out.texture_descriptor.dimension, TextureDimension::D3);
    assert_eq!(out.data, vec![1, 2, 3]);
    let err = TextureError::ImageError("bad header".to_string());
    match loader().finish_load(&s, "a.png", Err(err.clone())) {
        Err(ImageLoaderError::FileTexture(e)) => {
            assert_eq!(e.error(), &err);
            assert_eq!(e.path(), "a.png");
        }
        other => panic!("unexpected {:?}", other),
    }
}

#[test]
fn loader_takes_device_formats() {
    let f = CompressedImageFormats { astc_ldr: true, bc: false, etc2: true };
    assert_eq!(ImageLoader::from_world(Some(f)).supported_compressed_formats, f);
    assert_eq!(
        loader().supported_compressed_formats,
        CompressedImageFormats { astc_ldr: false, bc: false, etc2: false }
    );
}
