use zero_ui_core::app::AppExtension;
use zero_ui_core::image::{
    ByteLength, ImageCacheMode, ImageCacheProxy, ImageDataFormat, ImageDownscale, ImageEventResponse, ImageVar, ProxyGetResult,
    ProxyRemoveResult, ImageHash, ImageLimits, ImageManager, ImageSource, ImageViewEvent, ViewImage,
    IMAGES, IMAGE_MANAGER_ID,
};
use zero_ui_core::units::{Px, PxSize};

fn limits() -> ImageLimits {
    ImageLimits { max_encoded_len: ByteLength(1000), max_decoded_len: ByteLength(4000) }
}

#[test]
fn cached_image_is_found_again() {
    let mut images = IMAGES::new(true, limits());
    let a = images.read(ImageHash(1), "a.png".to_string());
    assert_eq!(images.loading.len(), 1);
    assert_eq!(images.strong_count(a), 3);
    let b = images.read(ImageHash(1), "a.png".to_string());
    assert_eq!(a, b);
    assert_eq!(images.loading.len(), 1);
    assert_eq!(images.strong_count(a), 4);
    assert!(images.is_cached(images.get(a)));
    assert_eq!(images.cache_key(images.get(a)), Some(ImageHash(1)));
}

#[test]
fn headless_requests_get_dummies() {
    let mut images = IMAGES::new(false, limits());
    let a = images.read(ImageHash(1), "a.png".to_string());
    assert!(images.loading.is_empty());
    let img = images.get(a);
    assert!(img.done);
    assert!(!img.is_error());
    images.set_load_in_headless(true);
    let b = images.read(ImageHash(2), "b.png".to_string());
    assert_eq!(images.loading.len(), 1);
    assert!(!images.get(b).done);
}

#[test]
fn load_error_flags_entry_and_retry_reloads() {
    let mut images = IMAGES::new(true, limits());
    let a = images.read(ImageHash(1), "a.png".to_string());
    images.load_failed(0, "not found".to_string());
    assert!(images.get(a).done);
    assert!(images.get(a).is_error());
    assert!(images.cache[0].error);
    let again = images.cache(ImageSource::Read(ImageHash(1), "a.png".to_string()));
    assert_eq!(again, a);
    let retried = images.retry(ImageSource::Read(ImageHash(1), "a.png".to_string()));
    assert_ne!(retried, a);
    assert!(!images.cache.iter().any(|e| e.image == a));
}

#[test]
fn decoding_finishes_image() {
    let mut images = IMAGES::new(true, limits());
    let a = images.from_data(ImageHash(5), vec![1, 2, 3], ImageDataFormat::FileExtension("png".to_string()));
    assert!(images.load_succeeded(0, ImageDataFormat::Unknown));
    assert_eq!(images.decoding.len(), 1);
    images.decode_started(a, 77, 1);
    assert_eq!(images.image_metadata_loaded(77), Some(a));
    assert_eq!(images.image_metadata_loaded(78), None);
    assert!(!images.image_decoded(78, PxSize::new(Px(5), Px(5)), 100));
    assert!(images.image_decoded(77, PxSize::new(Px(5), Px(5)), 100));
    assert_eq!(images.get(a).view.as_ref().map(|v| v.size), Some(PxSize::new(Px(5), Px(5))));
    assert!(images.get(a).done);
    assert_eq!(images.get(a).view.as_ref().map(|v| v.decoded_len), Some(100));
    assert!(images.decoding.is_empty());
}

#[test]
fn decode_error_flags_entry() {
    let mut images = IMAGES::new(true, limits());
    let a = images.read(ImageHash(1), "a.png".to_string());
    assert!(images.load_succeeded(0, ImageDataFormat::Unknown));
    images.decode_started(a, 3, 1);
    assert!(images.image_decode_error(3, "corrupt".to_string()));
    assert!(images.get(a).is_error());
    assert!(images.cache[0].error);
}

#[test]
fn clean_removes_only_unreferenced() {
    let mut images = IMAGES::new(false, limits());
    let a = images.read(ImageHash(1), "a.png".to_string());
    assert!(!images.clean(ImageHash(1)));
    images.release(a);
    assert!(images.clean(ImageHash(1)));
    assert!(!images.clean(ImageHash(1)));
    let b = images.read(ImageHash(2), "b.png".to_string());
    assert!(images.purge(&ImageHash(2)));
    assert!(!images.is_cached(images.get(b)));
    assert!(!images.purge(&ImageHash(2)));
}

#[test]
fn clean_all_and_purge_all() {
    let mut images = IMAGES::new(false, limits());
    let a = images.read(ImageHash(1), "a.png".to_string());
    let b = images.read(ImageHash(2), "b.png".to_string());
    images.release(b);
    images.clean_all();
    assert_eq!(images.cache.len(), 1);
    assert_eq!(images.cache[0].image, a);
    assert_eq!(images.strong_count(b), 0);
    images.purge_all();
    assert!(images.cache.is_empty());
    assert_eq!(images.strong_count(a), 1);
}

#[test]
fn detach_gives_uncached_copy() {
    let mut images = IMAGES::new(true, limits());
    let a = images.read(ImageHash(1), "a.png".to_string());
    images.load_failed(0, "not found".to_string());
    assert_eq!(images.strong_count(a), 2);
    let d = images.detach(a);
    assert_ne!(d, a);
    assert!(images.get(d).cache_key.is_none());
    assert!(images.cache.is_empty());
    assert_eq!(images.not_cached.len(), 1);
    let e = images.dummy(Some("err".to_string()));
    assert_eq!(images.detach(e), e);
}

#[test]
fn register_replaces_entry() {
    let mut images = IMAGES::new(true, limits());
    let first = images.register(ImageHash(9), ViewImage { id: Some(1), generation: 1, size: PxSize::new(Px(40), Px(50)), error: None, decoded_len: 8000 }, None);
    assert!(first.is_none());
    assert_eq!(images.cache[0].max_decoded_len, ByteLength(8000));
    let second = images.register(ImageHash(9), ViewImage { id: Some(2), generation: 1, size: PxSize::zero(), error: Some("bad".to_string()), decoded_len: 10 }, None);
    assert!(second.is_some());
    assert!(images.cache[0].error);
    assert_eq!(images.cache[0].max_decoded_len, ByteLength(4000));
}

#[test]
fn download_accept_lists_decoders() {
    let mut images = IMAGES::new(true, limits());
    assert_eq!(images.download_accept(&vec!["png".to_string(), "jpeg".to_string()]), "image/png,image/jpeg");
    assert_eq!(images.download_accept(&vec!["gif".to_string()]), "image/png,image/jpeg");
    let mut headless = IMAGES::new(false, limits());
    assert_eq!(headless.download_accept(&vec!["png".to_string()]), "image/*");
}

#[test]
fn respawn_decodes_again() {
    let mut images = IMAGES::new(true, limits());
    let a = images.from_data(ImageHash(1), vec![1, 2, 3], ImageDataFormat::FileExtension("png".to_string()));
    assert!(images.load_succeeded(0, ImageDataFormat::FileExtension("png".to_string())));
    images.decode_started(a, 10, 1);
    assert!(images.image_decoded(10, PxSize::new(Px(4), Px(2)), 32));
    let a_count = images.strong_count(a);
    let b = images.read(ImageHash(2), "b.png".to_string());
    assert!(images.load_succeeded(0, ImageDataFormat::MimeType("image/png".to_string())));
    images.decode_started(b, 11, 1);
    let c = images.read(ImageHash(3), "c.png".to_string());
    images.load_failed(0, "missing".to_string());
    let d = images.read(ImageHash(4), "d.png".to_string());
    assert_eq!(images.download_accept(&vec!["png".to_string()]), "image/png");

    let reqs = images.view_respawned(2);
    assert_eq!(reqs.len(), 2);
    assert_eq!(reqs[0].image, a);
    assert!(matches!(reqs[0].format, ImageDataFormat::Bgra8(s) if s == PxSize::new(Px(4), Px(2))));
    assert_eq!(reqs[1].image, b);
    assert!(matches!(&reqs[1].format, ImageDataFormat::MimeType(m) if m == "image/png"));
    assert_eq!(images.decoding.len(), 2);
    assert_eq!(images.decoding[0].image, a);
    assert_eq!(images.decoding[1].image, b);
    assert_eq!(images.download_accept.len(), 0);
    assert!(images.get(c).is_error());
    assert!(images.get(c).cache_key.is_none());
    assert!(images.get(d).view.is_none());
    assert_eq!(images.loading.len(), 1);
    assert_eq!(images.strong_count(a), a_count + 1);

    images.view_recovered(a, 20, 2);
    assert!(!images.get(a).done);
    assert!(images.get(a).cache_key.is_none());
    assert!(images.image_decoded(20, PxSize::new(Px(4), Px(2)), 32));
    assert!(images.get(a).done);
    assert_eq!(images.strong_count(a), a_count);

    // `a` already has a view image of the new generation; `b` was not recovered yet.
    let again = images.view_respawned(2);
    assert_eq!(again.len(), 1);
    assert_eq!(again[0].image, b);
    assert_eq!(images.decoding.len(), 1);
}

#[test]
fn respawn_without_images_asks_nothing() {
    let mut images = IMAGES::new(true, limits());
    let e = images.dummy(Some("err".to_string()));
    let reqs = images.view_respawned(3);
    assert!(reqs.is_empty());
    assert!(images.decoding.is_empty());
    assert!(images.get(e).is_error());
}

#[test]
fn manager_dispatches_view_events() {
    let mut manager = ImageManager::new();
    assert_eq!(manager.id(), IMAGE_MANAGER_ID);
    assert!(!manager.enable_device_events());
    let mut images = IMAGES::new(false, limits());
    manager.init(&mut images, true);
    assert!(images.has_view);
    let a = images.read(ImageHash(1), "a.png".to_string());
    assert!(images.load_succeeded(0, ImageDataFormat::Unknown));
    images.decode_started(a, 5, 1);
    assert!(matches!(manager.event_preview(&mut images, ImageViewEvent::MetadataLoaded(5)), ImageEventResponse::Notify(Some(v)) if v == a));
    assert!(matches!(manager.event_preview(&mut images, ImageViewEvent::MetadataLoaded(6)), ImageEventResponse::Notify(None)));
    assert!(matches!(manager.event_preview(&mut images, ImageViewEvent::Inited(1, false)), ImageEventResponse::Nothing));
    assert_eq!(images.decoding.len(), 1);
    assert!(matches!(
        manager.event_preview(&mut images, ImageViewEvent::LoadError(5, "bad".to_string())),
        ImageEventResponse::Finished(true)
    ));
    assert!(images.get(a).is_error());
    assert!(matches!(
        manager.event_preview(&mut images, ImageViewEvent::Loaded(5, PxSize::zero(), 1)),
        ImageEventResponse::Finished(false)
    ));
    match manager.event_preview(&mut images, ImageViewEvent::Inited(2, true)) {
        ImageEventResponse::Redecode(reqs) => assert!(reqs.is_empty()),
        _ => panic!("a restart recovers the images"),
    }
    assert!(images.get(a).is_error());
    assert!(images.get(a).cache_key.is_none());
}

#[test]
fn encoded_size_limit() {
    let mut images = IMAGES::new(true, limits());
    images.read(ImageHash(1), "a.png".to_string());
    assert!(images.encoded_len_ok(0, 1000));
    assert!(!images.encoded_len_ok(0, 1001));
}

struct Redirect {
    clears: u32,
}

impl ImageCacheProxy for Redirect {
    fn get(&mut self, key: &ImageHash, _source: &ImageSource, _mode: ImageCacheMode, _downscale: Option<ImageDownscale>) -> ProxyGetResult {
        match key.0 {
            7 => ProxyGetResult::Cache(ImageSource::Read(ImageHash(8), "b.png".to_string()), ImageCacheMode::Cache, None),
            9 => ProxyGetResult::Image(ImageVar { id: 0 }),
            _ => ProxyGetResult::Pass,
        }
    }
    fn remove(&mut self, key: &ImageHash, purge: bool) -> ProxyRemoveResult {
        match key.0 {
            7 => ProxyRemoveResult::Remove(ImageHash(8), purge),
            9 => ProxyRemoveResult::Removed,
            _ => ProxyRemoveResult::Pass,
        }
    }
    fn clear(&mut self, _purge: bool) {
        self.clears += 1;
    }
}

#[test]
fn proxies_intercept_requests() {
    let mut images = IMAGES::new(false, limits());
    images.install_proxy(Box::new(Redirect { clears: 0 }));
    let a = images.read(ImageHash(7), "a.png".to_string());
    assert_eq!(images.cache.len(), 1);
    assert_eq!(images.cache[0].key, ImageHash(8));
    assert_eq!(images.cache[0].image, a);
    let b = images.read(ImageHash(9), "c.png".to_string());
    assert_eq!(b, ImageVar { id: 0 });
    assert_eq!(images.cache.len(), 1);
    let c = images.read(ImageHash(1), "d.png".to_string());
    assert_eq!(images.cache.len(), 2);
    assert_eq!(images.cache[1].key, ImageHash(1));
    assert_ne!(c, a);
    assert!(images.purge(&ImageHash(7)));
    assert!(!images.cache.iter().any(|e| e.key == ImageHash(8)));
    assert!(images.clean(ImageHash(9)));
    images.purge_all();
    assert!(images.cache.is_empty());
}

#[test]
fn filter_blocks_reads() {
    let mut images = IMAGES::new(true, limits());
    let b = images.image_with_filter(ImageSource::Read(ImageHash(1), "/etc/a.png".to_string()), ImageCacheMode::Cache, None, None, false);
    assert!(images.get(b).is_error());
    assert!(images.get(b).cache_key.is_none());
    assert_eq!(
        images.get(b).view.as_ref().and_then(|v| v.error.clone()),
        Some("limits filter blocked `/etc/a.png`".to_string())
    );
    assert!(images.cache.is_empty());
    assert!(images.loading.is_empty());
    let a = images.image_with_filter(ImageSource::Read(ImageHash(1), "a.png".to_string()), ImageCacheMode::Cache, None, None, true);
    assert_eq!(images.cache.len(), 1);
    assert_eq!(images.cache[0].image, a);
}
