//! The image cache: which image a request gets (a cached one, a dummy, or a new one that
//! starts loading), when cached images are removed, and how loading and decoding finish.
//!
//! Image variables are handles into a table of images with a strong count each: the cache,
//! the loading and decoding tasks and every handle given out hold one reference.
//! Reading files, downloading and decoding are done by the app, which reports each outcome.
use vstd::prelude::*;

use crate::app::AppExtension;
use crate::units::{Px, PxSize};

verus! {

/// Unique key of a cached image: a 128-bit hash of its source.
#[derive(Clone, Copy, Debug, PartialEq, Eq, Structural)]
pub struct ImageHash(pub u128);

/// A length in bytes.
#[derive(Clone, Copy, Debug, PartialEq, Eq, Structural)]
pub struct ByteLength(pub usize);

/// How the image is scaled down while decoding.
#[derive(Clone, Copy, Debug, PartialEq, Eq, Structural)]
pub enum ImageDownscale {
    /// Fit inside the size, keeping the aspect ratio.
    Fit(PxSize),
    /// Fill the size, keeping the aspect ratio.
    Fill(PxSize),
}

/// Loading and decoding limits of an image.
#[derive(Clone, Copy, Debug, PartialEq, Eq, Structural)]
pub struct ImageLimits {
    /// Maximum encoded file size.
    pub max_encoded_len: ByteLength,
    /// Maximum decoded image size.
    pub max_decoded_len: ByteLength,
}

/// How a request uses the cache.
#[derive(Clone, Copy, Debug, PartialEq, Eq, Structural)]
pub enum ImageCacheMode {
    /// Load a new image that is not cached.
    Ignore,
    /// Return the cached image or load and cache it.
    Cache,
    /// Like `Cache`, but a cached image that failed is loaded again.
    Retry,
    /// Load again; a cached image is kept and updated with the new data.
    Reload,
}

/// Format of encoded image data.
pub enum ImageDataFormat {
    /// Decoded pixels, with their size.
    Bgra8(PxSize),
    /// Known by its file extension.
    FileExtension(String),
    /// Known by its MIME type.
    MimeType(String),
    /// Found out from the data.
    Unknown,
}

/// An image of the view-process (or a dummy one).
pub struct ViewImage {
    /// The view-process image, `None` for a dummy.
    pub id: Option<u64>,
    /// The view-process instance that holds the image; 0 for a dummy.
    pub generation: u32,
    /// Decoded size in pixels; zero until decoded.
    pub size: PxSize,
    /// The load or decode error.
    pub error: Option<String>,
    /// Decoded size in bytes.
    pub decoded_len: usize,
}

/// The zero size.
pub open spec fn zero_size() -> PxSize {
    PxSize { width: Px(0), height: Px(0) }
}

/// A dummy view image, loaded or with an error.
pub open spec fn dummy_view(error: Option<String>) -> ViewImage {
    ViewImage { id: None, generation: 0, size: zero_size(), error, decoded_len: 0 }
}

/// A view-process image that started decoding.
pub open spec fn started_view(id: u64, generation: u32) -> ViewImage {
    ViewImage { id: Some(id), generation, size: zero_size(), error: None, decoded_len: 0 }
}

impl ViewImage {
    /// A dummy view image with an optional error.
    pub fn dummy(error: Option<String>) -> (r: ViewImage)
        ensures
            r == dummy_view(error),
    {
        ViewImage { id: None, generation: 0, size: PxSize { width: Px(0), height: Px(0) }, error, decoded_len: 0 }
    }
}

/// An image value: its cache key, its view image once loading started, and if it finished.
pub struct Image {
    /// Key of the cache entry that holds the image.
    pub cache_key: Option<ImageHash>,
    /// The view image.
    pub view: Option<ViewImage>,
    /// Loading finished, with success or an error.
    pub done: bool,
}

/// Handle of an image variable: an index in the image table.
#[derive(Clone, Copy, Debug, PartialEq, Eq, Structural)]
pub struct ImageVar {
    pub id: usize,
}

/// Where an image comes from, with its cache key.
pub enum ImageSource {
    /// A file, by path.
    Read(ImageHash, String),
    /// A download, by URI, with the accepted formats (all that the view-process decodes when
    /// `None`).
    Download(ImageHash, String, Option<String>),
    /// Data embedded in the program.
    Static(ImageHash, Vec<u8>, ImageDataFormat),
    /// Shared data.
    Data(ImageHash, Vec<u8>, ImageDataFormat),
    /// An image variable, returned as it is.
    Image(ImageVar),
}

/// A cached image.
#[derive(Clone, Copy)]
pub struct CacheEntry {
    pub key: ImageHash,
    pub image: ImageVar,
    /// Loading or decoding failed.
    pub error: bool,
    pub max_decoded_len: ByteLength,
    pub downscale: Option<ImageDownscale>,
}

/// An image that is not cached, tracked without a strong reference.
#[derive(Clone, Copy)]
pub struct NotCachedEntry {
    pub image: ImageVar,
    pub max_decoded_len: ByteLength,
    pub downscale: Option<ImageDownscale>,
}

/// An image whose data the app is reading or downloading.
pub struct ImageLoadingTask {
    pub image: ImageVar,
    pub source: ImageSource,
    /// The limits of the request: the data must not be larger than the encoded limit.
    pub limits: ImageLimits,
    pub downscale: Option<ImageDownscale>,
}

/// An image that the view-process is decoding.
pub struct ImageDecodingTask {
    pub image: ImageVar,
    pub format: ImageDataFormat,
}

/// A decoding that a restarted view-process is asked to do again: the image and the format of
/// the data. The app sends the data (that of the interrupted decoding, or the decoded pixels
/// of the image for `Bgra8`) and reports the new view image with [`IMAGES::view_recovered`].
pub struct RespawnRequest {
    pub image: ImageVar,
    pub format: ImageDataFormat,
}

impl Image {
    /// An image that did not start loading.
    pub fn new_none(cache_key: Option<ImageHash>) -> (r: Image)
        ensures
            r.cache_key == cache_key,
            r.view is None,
            !r.done,
    {
        Image { cache_key, view: None, done: false }
    }

    /// A dummy image, loaded or with an error.
    pub fn dummy(error: Option<String>) -> (r: Image)
        ensures
            r.cache_key is None,
            is_dummy_view(r.view, error),
            r.done,
    {
        Image { cache_key: None, view: Some(ViewImage::dummy(error)), done: true }
    }

    /// An image of a loaded view image.
    pub fn new(view: ViewImage) -> (r: Image)
        ensures
            r.cache_key is None,
            r.view == Some(view),
            r.done,
    {
        Image { cache_key: None, view: Some(view), done: true }
    }

    /// A copy of the image without its cache key.
    pub fn copy_uncached(&self) -> (r: Image)
        ensures
            r == (Image { cache_key: None, ..*self }),
    {
        let view = match &self.view {
            Some(v) => Some(
                ViewImage {
                    id: v.id,
                    generation: v.generation,
                    size: v.size,
                    error: match &v.error {
                        Some(e) => Some(e.clone()),
                        None => None,
                    },
                    decoded_len: v.decoded_len,
                },
            ),
            None => None,
        };
        Image { cache_key: None, view, done: self.done }
    }

    /// If loading or decoding failed.
    pub fn is_error(&self) -> (r: bool)
        ensures
            r == (match self.view {
                Some(v) => v.error is Some,
                None => false,
            }),
    {
        match &self.view {
            Some(v) => v.error.is_some(),
            None => false,
        }
    }
}

/// If the key has a cache entry.
pub open spec fn has_key(s: Seq<CacheEntry>, key: ImageHash) -> bool {
    exists|i: int| 0 <= i < s.len() && (#[trigger] s[i]).key == key
}

/// Position of the cache entry of a key.
pub open spec fn key_pos(s: Seq<CacheEntry>, key: ImageHash) -> int {
    choose|i: int| 0 <= i < s.len() && (#[trigger] s[i]).key == key
}

/// No key has two entries.
pub open spec fn keys_unique(s: Seq<CacheEntry>) -> bool {
    forall|i: int, j: int| 0 <= i < j < s.len() ==> (#[trigger] s[i]).key != (#[trigger] s[j]).key
}

/// A dummy view image with an optional error.
pub open spec fn is_dummy_view(v: Option<ViewImage>, error: Option<String>) -> bool {
    match v {
        Some(v) => v == dummy_view(error),
        None => false,
    }
}

/// With unique keys, the entry at `i` is the entry of its key.
pub proof fn lemma_key_pos(s: Seq<CacheEntry>, i: int)
    requires
        keys_unique(s),
        0 <= i < s.len(),
    ensures
        has_key(s, s[i].key),
        key_pos(s, s[i].key) == i,
{
    let key = s[i].key;
    assert(has_key(s, key));
    let p = key_pos(s, key);
    assert(s[p].key == key);
    if p < i {
        assert(s[p].key != s[i].key);
    } else if i < p {
        assert(s[i].key != s[p].key);
    }
}

/// What a cache proxy answers to a request.
pub enum ProxyGetResult {
    /// The proxy does not intercept the request.
    Pass,
    /// The cache serves this request instead.
    Cache(ImageSource, ImageCacheMode, Option<ImageDownscale>),
    /// The proxy answers with this image.
    Image(ImageVar),
}

/// What a cache proxy answers to a removal.
pub enum ProxyRemoveResult {
    /// The proxy does not intercept the removal.
    Pass,
    /// The cache does this removal instead: the key, and if it is a purge.
    Remove(ImageHash, bool),
    /// The proxy removed the image itself.
    Removed,
}

/// A cache proxy: it can intercept the requests and removals of the image cache, map them to
/// others, or answer them itself.
pub trait ImageCacheProxy {
    /// Intercepts a request for the image of `key` from `source`.
    fn get(
        &mut self,
        key: &ImageHash,
        source: &ImageSource,
        mode: ImageCacheMode,
        downscale: Option<ImageDownscale>,
    ) -> ProxyGetResult;

    /// Intercepts the removal of `key`, a purge or a clean.
    fn remove(&mut self, key: &ImageHash, purge: bool) -> ProxyRemoveResult;

    /// The cache is cleaned, or purged, of all its images.
    fn clear(&mut self, purge: bool);
}

/// Image loading, cache and decoding state.
pub struct IMAGES {
    /// Load image data even when there is no view-process to decode it.
    pub load_in_headless: bool,
    /// Default limits of each image.
    pub limits: ImageLimits,
    /// A view-process is connected.
    pub has_view: bool,
    /// The accepted formats of downloads, once computed.
    pub download_accept: String,
    /// The image table.
    pub images: Vec<Image>,
    /// Strong count of each image of the table.
    pub strong: Vec<usize>,
    pub loading: Vec<ImageLoadingTask>,
    pub decoding: Vec<ImageDecodingTask>,
    pub cache: Vec<CacheEntry>,
    pub not_cached: Vec<NotCachedEntry>,
    /// Cache proxies, asked in the order they were installed.
    pub proxies: Vec<Box<dyn ImageCacheProxy>>,
}

/// The state of [`IMAGES`] as plain values.
#[verifier::ext_equal]
pub struct ImagesModel {
    pub load_in_headless: bool,
    pub limits: ImageLimits,
    pub has_view: bool,
    pub download_accept: Seq<char>,
    pub images: Seq<Image>,
    pub strong: Seq<usize>,
    pub loading: Seq<ImageLoadingTask>,
    pub decoding: Seq<ImageDecodingTask>,
    pub cache: Seq<CacheEntry>,
    pub not_cached: Seq<NotCachedEntry>,
}

/// One strong reference less.
pub open spec fn dec(c: usize) -> usize {
    if c > 0 {
        (c - 1) as usize
    } else {
        0
    }
}

/// A not-cached entry whose image is still referenced.
pub open spec fn alive(strong: Seq<usize>) -> spec_fn(NotCachedEntry) -> bool {
    |e: NotCachedEntry| strong[e.image.id as int] > 0
}

/// A cache entry whose image is referenced outside the cache.
pub open spec fn referenced(strong: Seq<usize>) -> spec_fn(CacheEntry) -> bool {
    |e: CacheEntry| strong[e.image.id as int] > 1
}

/// A cache entry whose image only the cache references.
pub open spec fn unreferenced(strong: Seq<usize>) -> spec_fn(CacheEntry) -> bool {
    |e: CacheEntry| strong[e.image.id as int] <= 1
}

/// The cache key of a source; `None` for an image variable.
pub open spec fn source_key(source: ImageSource) -> Option<ImageHash> {
    match source {
        ImageSource::Read(k, _) => Some(k),
        ImageSource::Download(k, _, _) => Some(k),
        ImageSource::Static(k, _, _) => Some(k),
        ImageSource::Data(k, _, _) => Some(k),
        ImageSource::Image(_) => None,
    }
}

/// The loaded dummy image.
pub open spec fn loaded_dummy() -> Image {
    Image { cache_key: None, view: Some(dummy_view(None)), done: true }
}

impl ImagesModel {
    /// Consistency: unique keys, and every handle held points into the table.
    pub open spec fn wf(self) -> bool {
        &&& self.strong.len() == self.images.len()
        &&& self.images.len() < usize::MAX
        &&& keys_unique(self.cache)
        &&& forall|i: int, j: int|
            0 <= i < j < self.cache.len() ==> (#[trigger] self.cache[i]).image != (#[trigger] self.cache[j]).image
        &&& forall|i: int| 0 <= i < self.cache.len() ==> (#[trigger] self.cache[i]).image.id < self.images.len()
        &&& forall|i: int|
            0 <= i < self.not_cached.len() ==> (#[trigger] self.not_cached[i]).image.id < self.images.len()
        &&& forall|i: int| 0 <= i < self.loading.len() ==> (#[trigger] self.loading[i]).image.id < self.images.len()
        &&& forall|i: int| 0 <= i < self.decoding.len() ==> (#[trigger] self.decoding[i]).image.id < self.images.len()
    }

    /// Room for `n` more images, and no strong count at its maximum.
    pub open spec fn room(self, n: int) -> bool {
        &&& self.images.len() + n < usize::MAX
        &&& forall|i: int| 0 <= i < self.strong.len() ==> #[trigger] self.strong[i] < usize::MAX - 2
    }

    /// If the key is cached.
    pub open spec fn cached(self, key: ImageHash) -> bool {
        has_key(self.cache, key)
    }

    /// The entry of a cached key.
    pub open spec fn entry(self, key: ImageHash) -> CacheEntry {
        self.cache[key_pos(self.cache, key)]
    }

    /// The handle of the next image added to the table.
    pub open spec fn next_var(self) -> ImageVar {
        ImageVar { id: self.images.len() as usize }
    }

    /// One more strong reference to `v`.
    pub open spec fn share(self, v: ImageVar) -> ImagesModel {
        ImagesModel { strong: self.strong.update(v.id as int, (self.strong[v.id as int] + 1) as usize), ..self }
    }

    /// One strong reference to `v` less.
    pub open spec fn release(self, v: ImageVar) -> ImagesModel {
        ImagesModel { strong: self.strong.update(v.id as int, dec(self.strong[v.id as int])), ..self }
    }

    /// A new image with `count` strong references.
    pub open spec fn push_image(self, image: Image, count: usize) -> ImagesModel {
        ImagesModel { images: self.images.push(image), strong: self.strong.push(count), ..self }
    }

    /// Inserts an entry; the entry it replaces drops its reference.
    pub open spec fn insert_entry(self, e: CacheEntry) -> ImagesModel {
        if self.cached(e.key) {
            ImagesModel { cache: self.cache.update(key_pos(self.cache, e.key), e), ..self }.release(
                self.entry(e.key).image,
            )
        } else {
            ImagesModel { cache: self.cache.push(e), ..self }
        }
    }

    /// Drops the not-cached entries of dropped images, when forced or past a thousand.
    pub open spec fn cleanup(self, force: bool) -> ImagesModel {
        if force || self.not_cached.len() > 1000 {
            ImagesModel { not_cached: self.not_cached.filter(alive(self.strong)), ..self }
        } else {
            self
        }
    }

    /// A new image for a request that loads, and the handle given out for it.
    pub open spec fn new_cache_image(
        self,
        key: ImageHash,
        mode: ImageCacheMode,
        max_decoded_len: ByteLength,
        downscale: Option<ImageDownscale>,
    ) -> (ImagesModel, ImageVar) {
        let m = self.cleanup(false);
        let v = m.next_var();
        match mode {
            ImageCacheMode::Reload => if m.cached(key) {
                (m.share(m.entry(key).image), m.entry(key).image)
            } else {
                let m2 = m.push_image(Image { cache_key: Some(key), view: None, done: false }, 2);
                (
                    ImagesModel {
                        cache: m2.cache.push(
                            CacheEntry { key, image: v, error: false, max_decoded_len, downscale },
                        ),
                        ..m2
                    },
                    v,
                )
            },
            ImageCacheMode::Ignore => {
                let m2 = m.push_image(Image { cache_key: None, view: None, done: false }, 1);
                (
                    ImagesModel {
                        not_cached: m2.not_cached.push(NotCachedEntry { image: v, max_decoded_len, downscale }),
                        ..m2
                    },
                    v,
                )
            },
            _ => (
                m.push_image(Image { cache_key: Some(key), view: None, done: false }, 2).insert_entry(
                    CacheEntry { key, image: v, error: false, max_decoded_len, downscale },
                ),
                v,
            ),
        }
    }

    /// [`ImagesModel::new_cache_image`], then a loading task that holds the image.
    pub open spec fn load_task(
        self,
        key: ImageHash,
        mode: ImageCacheMode,
        limits: ImageLimits,
        downscale: Option<ImageDownscale>,
        source: ImageSource,
    ) -> (ImagesModel, ImageVar) {
        let (m, v) = self.new_cache_image(key, mode, limits.max_decoded_len, downscale);
        (
            ImagesModel {
                loading: m.loading.push(ImageLoadingTask { image: v, source, limits, downscale }),
                ..m
            }.share(v),
            v,
        )
    }

    /// The image a request for a keyed source gets: the cached one when the mode allows it, a
    /// cached loaded dummy when nothing can be decoded and loading in headless mode is off,
    /// else a new image that starts loading.
    pub open spec fn proxied_get(
        self,
        key: ImageHash,
        source: ImageSource,
        mode: ImageCacheMode,
        limits: ImageLimits,
        downscale: Option<ImageDownscale>,
    ) -> (ImagesModel, ImageVar) {
        if (mode is Cache && self.cached(key)) || (mode is Retry && self.cached(key) && !self.entry(key).error) {
            (self.share(self.entry(key).image), self.entry(key).image)
        } else if !self.has_view && !self.load_in_headless {
            let v = self.next_var();
            (
                self.push_image(loaded_dummy(), 2).insert_entry(
                    CacheEntry { key, image: v, error: false, max_decoded_len: limits.max_decoded_len, downscale },
                ),
                v,
            )
        } else {
            self.load_task(key, mode, limits, downscale, source)
        }
    }

    /// The image a request gets: an image variable source is returned as it is; other sources
    /// go to [`ImagesModel::proxied_get`] with the given limits or the default ones.
    pub open spec fn image_request(
        self,
        source: ImageSource,
        mode: ImageCacheMode,
        limits: Option<ImageLimits>,
        downscale: Option<ImageDownscale>,
    ) -> (ImagesModel, ImageVar) {
        match source {
            ImageSource::Image(v) => (self, v),
            _ => self.proxied_get(
                source_key(source)->0,
                source,
                mode,
                match limits {
                    Some(l) => l,
                    None => self.limits,
                },
                downscale,
            ),
        }
    }

    /// The image a request gets when the first proxy that intercepts it answers `answer`
    /// (`ProxyGetResult::Pass` when none does): an image variable source is returned as it is;
    /// a request the proxy maps to another source is served for that source (an image variable
    /// source standing for itself); an image the proxy answers is returned as it is.
    pub open spec fn proxy_answer(
        self,
        source: ImageSource,
        mode: ImageCacheMode,
        limits: Option<ImageLimits>,
        downscale: Option<ImageDownscale>,
        answer: ProxyGetResult,
    ) -> (ImagesModel, ImageVar) {
        let lim = match limits {
            Some(l) => l,
            None => self.limits,
        };
        match source {
            ImageSource::Image(v) => (self, v),
            _ => match answer {
                ProxyGetResult::Pass => self.proxied_get(source_key(source)->0, source, mode, lim, downscale),
                ProxyGetResult::Cache(s2, m2, d2) => match s2 {
                    ImageSource::Image(v) => (self, v),
                    _ => self.proxied_get(source_key(s2)->0, s2, m2, lim, d2),
                },
                ProxyGetResult::Image(v) => (self, v),
            },
        }
    }

    /// The removal when the first proxy that intercepts it answers `answer`.
    pub open spec fn remove_answer(self, key: ImageHash, purge: bool, answer: ProxyRemoveResult) -> (ImagesModel, bool) {
        match answer {
            ProxyRemoveResult::Pass => self.proxied_remove(key, purge),
            ProxyRemoveResult::Remove(k2, p2) => self.proxied_remove(k2, p2),
            ProxyRemoveResult::Removed => (self, true),
        }
    }

    /// Removes the entry of a cached key, dropping its reference.
    pub open spec fn remove_entry(self, key: ImageHash) -> ImagesModel {
        ImagesModel { cache: self.cache.remove(key_pos(self.cache, key)), ..self }.release(self.entry(key).image)
    }

    /// Removal of a cache entry: a purge removes any cached key; otherwise the entry is
    /// removed only if nothing but the cache references its image. Tells if it was removed.
    pub open spec fn proxied_remove(self, key: ImageHash, purge: bool) -> (ImagesModel, bool) {
        if self.cached(key) && (purge || self.strong[self.entry(key).image.id as int] <= 1) {
            (self.remove_entry(key), true)
        } else {
            (self, false)
        }
    }

    /// Associates a loaded view image with `key`; the entry it replaces is handed back.
    pub open spec fn register(self, key: ImageHash, view: ViewImage, downscale: Option<ImageDownscale>) -> (
        ImagesModel,
        Option<ImageVar>,
    ) {
        let v = self.next_var();
        let max_decoded_len = if self.limits.max_decoded_len.0 >= view.decoded_len {
            self.limits.max_decoded_len
        } else {
            ByteLength(view.decoded_len)
        };
        let e = CacheEntry { key, image: v, error: view.error is Some, max_decoded_len, downscale };
        let m = self.push_image(Image { cache_key: None, view: Some(view), done: true }, 1);
        if self.cached(key) {
            (ImagesModel { cache: m.cache.update(key_pos(m.cache, key), e), ..m }, Some(self.entry(key).image))
        } else {
            (ImagesModel { cache: m.cache.push(e), ..m }, None)
        }
    }

    /// The cache key of an image, if the key is cached.
    pub open spec fn cache_key(self, image: Image) -> Option<ImageHash> {
        match image.cache_key {
            Some(k) => if self.cached(k) {
                Some(k)
            } else {
                None
            },
            None => None,
        }
    }

    /// Strong counts after the entries `dropped` drop their references.
    pub open spec fn drop_refs(strong: Seq<usize>, dropped: Seq<CacheEntry>) -> Seq<usize> {
        Seq::new(
            strong.len(),
            |j: int|
                if exists|i: int| 0 <= i < dropped.len() && (#[trigger] dropped[i]).image.id == j {
                    dec(strong[j])
                } else {
                    strong[j]
                },
        )
    }

    /// Removes the entries whose image nothing but the cache references.
    pub open spec fn clean_all(self) -> ImagesModel {
        ImagesModel {
            cache: self.cache.filter(referenced(self.strong)),
            strong: Self::drop_refs(self.strong, self.cache.filter(unreferenced(self.strong))),
            ..self
        }
    }

    /// Removes every entry.
    pub open spec fn purge_all(self) -> ImagesModel {
        ImagesModel { cache: Seq::empty(), strong: Self::drop_refs(self.strong, self.cache), ..self }
    }

    /// Detaches an image from the cache: an image without a cache key is returned as it is;
    /// otherwise a copy without the key is made (tracked as not cached, with the entry's
    /// limits), the handle is dropped, and the entry is removed if only the cache and this
    /// handle referenced the image.
    pub open spec fn detach(self, v: ImageVar) -> (ImagesModel, ImageVar) {
        let img = self.images[v.id as int];
        match img.cache_key {
            None => (self, v),
            Some(key) => {
                let decoded = match img.view {
                    Some(vw) => vw.decoded_len,
                    None => 0,
                };
                let default_len = if self.limits.max_decoded_len.0 >= decoded {
                    self.limits.max_decoded_len
                } else {
                    ByteLength(decoded)
                };
                let max_decoded_len = if self.cached(key) {
                    self.entry(key).max_decoded_len
                } else {
                    default_len
                };
                let downscale = if self.cached(key) {
                    self.entry(key).downscale
                } else {
                    None
                };
                let m1 = if self.cached(key) && self.strong[v.id as int] == 2 {
                    self.remove_entry(key)
                } else {
                    self
                };
                let nv = m1.next_var();
                let m2 = m1.release(v).push_image(Image { cache_key: None, ..img }, 1);
                (
                    ImagesModel {
                        not_cached: m2.not_cached.push(NotCachedEntry { image: nv, max_decoded_len, downscale }),
                        ..m2
                    },
                    nv,
                )
            },
        }
    }

    /// Flags the cache entry of an image as failed, if its key is cached.
    pub open spec fn flag_error(self, cache_key: Option<ImageHash>) -> ImagesModel {
        match cache_key {
            Some(k) => if self.cached(k) {
                ImagesModel {
                    cache: self.cache.update(key_pos(self.cache, k), CacheEntry { error: true, ..self.entry(k) }),
                    ..self
                }
            } else {
                self
            },
            None => self,
        }
    }

    /// Loading task `i` failed: its image becomes a finished dummy with the error, its cache
    /// entry is flagged, and the task drops its reference.
    pub open spec fn load_failed(self, i: int, error: String) -> ImagesModel {
        let t = self.loading[i];
        let img = self.images[t.image.id as int];
        ImagesModel {
            loading: self.loading.remove(i),
            images: self.images.update(
                t.image.id as int,
                Image { view: Some(dummy_view(Some(error))), done: true, ..img },
            ),
            ..self
        }.flag_error(img.cache_key).release(t.image)
    }

    /// Loading task `i` read its data: with a view-process the image goes on to decoding
    /// (returns `true`); without one it becomes a finished loaded dummy.
    pub open spec fn load_succeeded(self, i: int, format: ImageDataFormat) -> (ImagesModel, bool) {
        let t = self.loading[i];
        let m = ImagesModel { loading: self.loading.remove(i), ..self };
        if self.has_view {
            (ImagesModel { decoding: m.decoding.push(ImageDecodingTask { image: t.image, format }), ..m }, true)
        } else {
            let img = self.images[t.image.id as int];
            (
                ImagesModel {
                    images: m.images.update(
                        t.image.id as int,
                        Image { view: Some(dummy_view(None)), done: true, ..img },
                    ),
                    ..m
                }.release(t.image),
                false,
            )
        }
    }

    /// If decoding task `i` decodes the view image `view_id`.
    pub open spec fn decodes(self, i: int, view_id: u64) -> bool {
        match self.images[self.decoding[i].image.id as int].view {
            Some(vw) => vw.id == Some(view_id),
            None => false,
        }
    }

    /// The first decoding task of a view image.
    pub open spec fn first_decoding(self, view_id: u64, i: int) -> bool {
        &&& 0 <= i < self.decoding.len()
        &&& self.decodes(i, view_id)
        &&& forall|j: int| 0 <= j < i ==> !#[trigger] self.decodes(j, view_id)
    }

    /// Decoding of `view_id` finished: its first task is removed, its image is done with the
    /// decoded pixel size and byte length, and the task drops its reference.
    pub open spec fn image_decoded(self, view_id: u64, size: PxSize, decoded_len: usize) -> (ImagesModel, bool) {
        if exists|i: int| self.first_decoding(view_id, i) {
            let i = choose|i: int| self.first_decoding(view_id, i);
            let t = self.decoding[i];
            let img = self.images[t.image.id as int];
            (
                ImagesModel {
                    decoding: self.decoding.update(i, self.decoding.last()).drop_last(),
                    images: self.images.update(
                        t.image.id as int,
                        Image { view: Some(ViewImage { size, decoded_len, ..img.view->0 }), done: true, ..img },
                    ),
                    ..self
                }.release(t.image),
                true,
            )
        } else {
            (self, false)
        }
    }

    /// Decoding of `view_id` failed: its first task is removed, its image is done with the
    /// error, its cache entry is flagged, and the task drops its reference.
    pub open spec fn image_decode_error(self, view_id: u64, error: String) -> (ImagesModel, bool) {
        if exists|i: int| self.first_decoding(view_id, i) {
            let i = choose|i: int| self.first_decoding(view_id, i);
            let t = self.decoding[i];
            let img = self.images[t.image.id as int];
            (
                ImagesModel {
                    decoding: self.decoding.update(i, self.decoding.last()).drop_last(),
                    images: self.images.update(
                        t.image.id as int,
                        Image { view: Some(ViewImage { error: Some(error), ..img.view->0 }), done: true, ..img },
                    ),
                    ..self
                }.flag_error(img.cache_key).release(t.image),
                true,
            )
        } else {
            (self, false)
        }
    }
}

/// If a decoding task of `v` is listed.
pub open spec fn has_task(d: Seq<ImageDecodingTask>, v: ImageVar) -> bool {
    exists|i: int| 0 <= i < d.len() && (#[trigger] d[i]).image == v
}

/// The strong count of image `k` in `strong`, plus one if a task of `decoding` holds it.
pub open spec fn counted(strong: Seq<usize>, decoding: Seq<ImageDecodingTask>, k: int) -> int {
    if has_task(decoding, ImageVar { id: k as usize }) {
        strong[k] + 1
    } else {
        strong[k] as int
    }
}

/// The images of the cache entries, then those of the not-cached entries.
pub open spec fn entry_images(cache: Seq<CacheEntry>, not_cached: Seq<NotCachedEntry>) -> Seq<ImageVar> {
    cache.map_values(|e: CacheEntry| e.image) + not_cached.map_values(|e: NotCachedEntry| e.image)
}

impl ImagesModel {
    /// If the image of task `t` shows the view-process image `id` of `generation`.
    pub open spec fn shows(self, t: ImageDecodingTask, id: Option<u64>, generation: u32) -> bool {
        match self.images[t.image.id as int].view {
            Some(w) => w.id == id && w.generation == generation,
            None => false,
        }
    }

    /// The first of `tasks` whose image shows the view-process image `id` of `generation`.
    pub open spec fn first_shows(
        self,
        tasks: Seq<ImageDecodingTask>,
        id: Option<u64>,
        generation: u32,
        i: int,
    ) -> bool {
        &&& 0 <= i < tasks.len()
        &&& self.shows(tasks[i], id, generation)
        &&& forall|j: int| 0 <= j < i ==> !#[trigger] self.shows(tasks[j], id, generation)
    }

    /// Image `v` is decoded again in `format`: a new decoding task holds it.
    pub open spec fn redecode(self, v: ImageVar, format: ImageDataFormat) -> (ImagesModel, Option<RespawnRequest>) {
        (
            ImagesModel { decoding: self.decoding.push(ImageDecodingTask { image: v, format }), ..self }.share(v),
            Some(RespawnRequest { image: v, format }),
        )
    }

    /// How image `v` is recovered after the view-process restarted as `generation`, with the
    /// decodings it interrupted: an image that is loading, that already has a view image of
    /// this generation, or that is already decoded again, is left as it is; an image with an
    /// error becomes a dummy with the error; an image whose decoding was interrupted is
    /// decoded again from that data; a loaded view image is decoded again from its pixels.
    /// A loaded dummy has no view-process image and is left as it is.
    pub open spec fn recover(self, interrupted: Seq<ImageDecodingTask>, generation: u32, v: ImageVar) -> (
        ImagesModel,
        Option<RespawnRequest>,
    ) {
        match self.images[v.id as int].view {
            None => (self, None),
            Some(view) => if view.generation == generation || has_task(self.decoding, v) {
                (self, None)
            } else if view.error is Some {
                (
                    ImagesModel {
                        images: self.images.update(
                            v.id as int,
                            Image { cache_key: None, view: Some(dummy_view(view.error)), done: true },
                        ),
                        ..self
                    },
                    None,
                )
            } else if exists|i: int| self.first_shows(interrupted, view.id, view.generation, i) {
                let i = choose|i: int| self.first_shows(interrupted, view.id, view.generation, i);
                self.redecode(v, interrupted[i].format)
            } else if view.id is None {
                (self, None)
            } else {
                self.redecode(v, ImageDataFormat::Bgra8(view.size))
            },
        }
    }

    /// [`ImagesModel::recover`] of each image of `vars` in turn, with the requests made.
    pub open spec fn recover_all(
        self,
        interrupted: Seq<ImageDecodingTask>,
        generation: u32,
        vars: Seq<ImageVar>,
    ) -> (ImagesModel, Seq<RespawnRequest>)
        decreases vars.len(),
    {
        if vars.len() == 0 {
            (self, Seq::empty())
        } else {
            let before = self.recover_all(interrupted, generation, vars.drop_last());
            let step = before.0.recover(interrupted, generation, vars.last());
            (
                step.0,
                match step.1 {
                    Some(q) => before.1.push(q),
                    None => before.1,
                },
            )
        }
    }

    /// Each of `tasks` drops its reference, in turn.
    pub open spec fn release_tasks(self, tasks: Seq<ImageDecodingTask>) -> ImagesModel
        decreases tasks.len(),
    {
        if tasks.len() == 0 {
            self
        } else {
            self.release_tasks(tasks.drop_last()).release(tasks.last().image)
        }
    }

    /// The view-process restarted as `generation`: the not-cached entries of dropped images
    /// are removed, the accepted download formats are computed again, the decodings are
    /// interrupted, the image of each cache entry and then of each not-cached entry is
    /// recovered ([`ImagesModel::recover`]), and the interrupted decodings drop their
    /// references. Also gives the decodings asked of the view-process.
    pub open spec fn view_respawned(self, generation: u32) -> (ImagesModel, Seq<RespawnRequest>) {
        let m = self.cleanup(true);
        let start = ImagesModel { download_accept: Seq::empty(), decoding: Seq::empty(), ..m };
        let r = start.recover_all(m.decoding, generation, entry_images(m.cache, m.not_cached));
        (r.0.release_tasks(m.decoding), r.1)
    }
}

/// The accepted formats of downloads: `image/` and each format the view-process decodes,
/// separated by commas.
pub open spec fn accept_list(decoders: Seq<String>) -> Seq<char>
    decreases decoders.len(),
{
    if decoders.len() == 0 {
        Seq::empty()
    } else if decoders.len() == 1 {
        "image/"@ + decoders[0]@
    } else {
        accept_list(decoders.drop_last()) + ",image/"@ + decoders.last()@
    }
}

/// The path or URI of a request that the limits' filter blocks: a file read or a download
/// when the filter does not allow it.
pub open spec fn blocked_location(source: ImageSource, allows: bool) -> Option<Seq<char>> {
    if allows {
        None
    } else {
        match source {
            ImageSource::Read(_, path) => Some(path@),
            ImageSource::Download(_, uri, _) => Some(uri@),
            _ => None,
        }
    }
}

/// The error of a blocked request.
pub open spec fn blocked_text(location: Seq<char>) -> Seq<char> {
    "limits filter blocked `"@ + location + "`"@
}

/// How a request was served: as the answer of some proxy makes it, and exactly as the cache
/// alone serves it when no proxy is installed.
pub open spec fn served(
    old: ImagesModel,
    new: ImagesModel,
    r: ImageVar,
    source: ImageSource,
    mode: ImageCacheMode,
    limits: Option<ImageLimits>,
    downscale: Option<ImageDownscale>,
    no_proxies: bool,
) -> bool {
    &&& exists|a: ProxyGetResult| #[trigger] old.proxy_answer(source, mode, limits, downscale, a) == (new, r)
    &&& no_proxies ==> (new, r) == old.image_request(source, mode, limits, downscale)
}

/// How a removal went: as the answer of some proxy makes it, and exactly as the cache alone
/// does it when no proxy is installed.
pub open spec fn removed(old: ImagesModel, new: ImagesModel, r: bool, key: ImageHash, purge: bool, no_proxies: bool) -> bool {
    &&& exists|a: ProxyRemoveResult| #[trigger] old.remove_answer(key, purge, a) == (new, r)
    &&& no_proxies ==> (new, r) == old.proxied_remove(key, purge)
}

impl View for IMAGES {
    type V = ImagesModel;

    open spec fn view(&self) -> ImagesModel {
        ImagesModel {
            load_in_headless: self.load_in_headless,
            limits: self.limits,
            has_view: self.has_view,
            download_accept: self.download_accept@,
            images: self.images@,
            strong: self.strong@,
            loading: self.loading@,
            decoding: self.decoding@,
            cache: self.cache@,
            not_cached: self.not_cached@,
        }
    }
}

impl IMAGES {
    /// An empty cache; `has_view` tells if a view-process decodes images.
    pub fn new(has_view: bool, limits: ImageLimits) -> (r: IMAGES)
        ensures
            r@.wf(),
            r.has_view == has_view,
            r.limits == limits,
            !r.load_in_headless,
            r.download_accept@.len() == 0,
            r.images@.len() == 0,
            r.cache@.len() == 0,
            r.not_cached@.len() == 0,
            r.loading@.len() == 0,
            r.decoding@.len() == 0,
            r.proxy_count() == 0,
    {
        IMAGES {
            load_in_headless: false,
            limits,
            has_view,
            download_accept: String::new(),
            images: Vec::new(),
            strong: Vec::new(),
            loading: Vec::new(),
            decoding: Vec::new(),
            cache: Vec::new(),
            not_cached: Vec::new(),
            proxies: Vec::new(),
        }
    }

    /// Number of cache proxies installed.
    pub closed spec fn proxy_count(&self) -> nat {
        self.proxies@.len()
    }

    /// Adds a cache proxy; it is asked after the ones installed before it.
    pub fn install_proxy(&mut self, proxy: Box<dyn ImageCacheProxy>)
        ensures
            final(self)@ == old(self)@,
    {
        self.proxies.push(proxy);
    }

    /// Connects (or disconnects) the view-process that decodes images.
    pub fn init(&mut self, has_view: bool)
        ensures
            final(self)@ == (ImagesModel { has_view, ..old(self)@ }),
    {
        self.has_view = has_view;
    }

    /// If image data is still read or downloaded without a view-process (all images are
    /// dummies then, with the error if the data could not be had).
    pub fn load_in_headless(&self) -> (r: bool)
        ensures
            r == self.load_in_headless,
    {
        self.load_in_headless
    }

    /// Sets [`IMAGES::load_in_headless`].
    pub fn set_load_in_headless(&mut self, load: bool)
        ensures
            final(self)@ == (ImagesModel { load_in_headless: load, ..old(self)@ }),
    {
        self.load_in_headless = load;
    }

    /// Default loading and decoding limits of each image.
    pub fn limits(&self) -> (r: ImageLimits)
        ensures
            r == self.limits,
    {
        self.limits
    }

    /// Sets the default limits.
    pub fn set_limits(&mut self, limits: ImageLimits)
        ensures
            final(self)@ == (ImagesModel { limits, ..old(self)@ }),
    {
        self.limits = limits;
    }

    /// The value of an image variable.
    pub fn get(&self, v: ImageVar) -> (r: &Image)
        requires
            v.id < self.images@.len(),
        ensures
            *r == self.images@[v.id as int],
    {
        &self.images[v.id]
    }

    /// The strong count of an image variable.
    pub fn strong_count(&self, v: ImageVar) -> (r: usize)
        requires
            v.id < self.strong@.len(),
        ensures
            r == self.strong@[v.id as int],
    {
        self.strong[v.id]
    }

    /// Position of the entry of `key`.
    fn find(&self, key: ImageHash) -> (r: Option<usize>)
        requires
            self@.wf(),
        ensures
            match r {
                Some(i) => i < self.cache@.len() && self.cache@[i as int].key == key && key_pos(self.cache@, key) == i,
                None => !self@.cached(key),
            },
    {
        let mut i: usize = 0;
        while i < self.cache.len()
            invariant
                i <= self.cache@.len(),
                keys_unique(self.cache@),
                forall|j: int| 0 <= j < i ==> (#[trigger] self.cache@[j]).key != key,
            decreases self.cache@.len() - i,
        {
            if self.cache[i].key == key {
                proof {
                    lemma_key_pos(self.cache@, i as int);
                }
                return Some(i);
            }
            i = i + 1;
        }
        None
    }

    /// Adds an image to the table, with `count` strong references.
    fn new_var(&mut self, image: Image, count: usize) -> (r: ImageVar)
        requires
            old(self)@.wf(),
            old(self).images@.len() + 1 < usize::MAX,
        ensures
            final(self)@.wf(),
            r == old(self)@.next_var(),
            final(self)@ == old(self)@.push_image(image, count),
    {
        let id = self.images.len();
        self.images.push(image);
        self.strong.push(count);
        ImageVar { id }
    }

    /// One more strong reference to `v`, given out.
    fn share(&mut self, v: ImageVar) -> (r: ImageVar)
        requires
            old(self)@.wf(),
            v.id < old(self).strong@.len(),
            old(self).strong@[v.id as int] < usize::MAX,
        ensures
            final(self)@.wf(),
            r == v,
            final(self)@ == old(self)@.share(v),
    {
        let c = self.strong[v.id];
        self.strong.set(v.id, c + 1);
        v
    }

    /// Drops a strong reference to `v`.
    pub fn release(&mut self, v: ImageVar)
        requires
            old(self)@.wf(),
            v.id < old(self).strong@.len(),
        ensures
            final(self)@.wf(),
            final(self)@ == old(self)@.release(v),
    {
        let c = self.strong[v.id];
        if c > 0 {
            self.strong.set(v.id, c - 1);
        }
    }

    /// Inserts an entry; the entry it replaces drops its reference.
    fn insert_entry(&mut self, e: CacheEntry)
        requires
            old(self)@.wf(),
            e.image.id < old(self).images@.len(),
            forall|i: int| 0 <= i < old(self).cache@.len() ==> (#[trigger] old(self).cache@[i]).image != e.image,
        ensures
            final(self)@.wf(),
            final(self)@ == old(self)@.insert_entry(e),
    {
        match self.find(e.key) {
            Some(i) => {
                let ghost before = self@;
                let mut replaced = e;
                self.cache.set_and_swap(i, &mut replaced);
                proof {
                    assert forall|a: int, b: int| 0 <= a < b < self.cache@.len() implies (
                    #[trigger] self.cache@[a]).key != (#[trigger] self.cache@[b]).key && self.cache@[a].image
                        != self.cache@[b].image by {
                        if a != i as int {
                            assert(self.cache@[a] == before.cache[a]);
                        }
                        if b != i as int {
                            assert(self.cache@[b] == before.cache[b]);
                        }
                    }
                    assert(self@ =~= ImagesModel { cache: before.cache.update(i as int, e), ..before });
                }
                self.release(replaced.image);
            },
            None => {
                let ghost k = e.key;
                self.cache.push(e);
                proof {
                    assert forall|a: int, b: int| 0 <= a < b < self.cache@.len() implies (
                    #[trigger] self.cache@[a]).key != (#[trigger] self.cache@[b]).key && self.cache@[a].image
                        != self.cache@[b].image by {
                        if b == self.cache@.len() - 1 {
                            assert(old(self).cache@[a].key != k);
                        }
                    }
                }
            },
        }
    }

    /// Drops the not-cached entries of dropped images, when forced or past a thousand.
    fn cleanup_not_cached(&mut self, force: bool)
        requires
            old(self)@.wf(),
        ensures
            final(self)@.wf(),
            final(self)@ == old(self)@.cleanup(force),
    {
        if force || self.not_cached.len() > 1000 {
            let ghost pred = alive(self.strong@);
            let mut kept: Vec<NotCachedEntry> = Vec::new();
            let mut i: usize = 0;
            while i < self.not_cached.len()
                invariant
                    self@.wf(),
                    pred == alive(self.strong@),
                    i <= self.not_cached@.len(),
                    kept@ == self.not_cached@.take(i as int).filter(pred),
                    forall|j: int| 0 <= j < kept@.len() ==> (#[trigger] kept@[j]).image.id < self.images@.len(),
                decreases self.not_cached@.len() - i,
            {
                let e = self.not_cached[i];
                proof {
                    reveal(Seq::filter);
                    assert(self.not_cached@.take(i + 1).drop_last() =~= self.not_cached@.take(i as int));
                    assert(self.not_cached@.take(i + 1).last() == e);
                }
                if self.strong[e.image.id] > 0 {
                    kept.push(e);
                }
                i = i + 1;
            }
            proof {
                assert(self.not_cached@.take(self.not_cached@.len() as int) =~= self.not_cached@);
            }
            self.not_cached = kept;
        }
    }

    /// A new image for a request that loads, and the handle given out for it.
    fn new_cache_image(
        &mut self,
        key: ImageHash,
        mode: ImageCacheMode,
        max_decoded_len: ByteLength,
        downscale: Option<ImageDownscale>,
    ) -> (r: ImageVar)
        requires
            old(self)@.wf(),
            old(self)@.room(2),
        ensures
            final(self)@.wf(),
            final(self)@ == old(self)@.new_cache_image(key, mode, max_decoded_len, downscale).0,
            r == old(self)@.new_cache_image(key, mode, max_decoded_len, downscale).1,
    {
        self.cleanup_not_cached(false);
        match mode {
            ImageCacheMode::Reload => match self.find(key) {
                Some(i) => {
                    let v = self.cache[i].image;
                    self.share(v)
                },
                None => {
                    let v = self.new_var(Image::new_none(Some(key)), 2);
                    self.insert_entry(CacheEntry { key, image: v, error: false, max_decoded_len, downscale });
                    v
                },
            },
            ImageCacheMode::Ignore => {
                let v = self.new_var(Image::new_none(None), 1);
                self.not_cached.push(NotCachedEntry { image: v, max_decoded_len, downscale });
                v
            },
            _ => {
                let v = self.new_var(Image::new_none(Some(key)), 2);
                self.insert_entry(CacheEntry { key, image: v, error: false, max_decoded_len, downscale });
                v
            },
        }
    }

    /// A new image for the request and a loading task that holds it.
    fn load_task(
        &mut self,
        key: ImageHash,
        mode: ImageCacheMode,
        limits: ImageLimits,
        downscale: Option<ImageDownscale>,
        source: ImageSource,
    ) -> (r: ImageVar)
        requires
            old(self)@.wf(),
            old(self)@.room(2),
        ensures
            final(self)@.wf(),
            final(self)@ == old(self)@.load_task(key, mode, limits, downscale, source).0,
            r == old(self)@.load_task(key, mode, limits, downscale, source).1,
    {
        let img = self.new_cache_image(key, mode, limits.max_decoded_len, downscale);
        self.loading.push(ImageLoadingTask { image: img, source, limits, downscale });
        self.share(img)
    }

    /// The image a request for a keyed source gets (see [`ImagesModel::proxied_get`]).
    fn proxied_get(
        &mut self,
        key: ImageHash,
        source: ImageSource,
        mode: ImageCacheMode,
        limits: ImageLimits,
        downscale: Option<ImageDownscale>,
    ) -> (r: ImageVar)
        requires
            old(self)@.wf(),
            old(self)@.room(2),
        ensures
            final(self)@.wf(),
            final(self)@ == old(self)@.proxied_get(key, source, mode, limits, downscale).0,
            r == old(self)@.proxied_get(key, source, mode, limits, downscale).1,
    {
        match mode {
            ImageCacheMode::Cache => {
                if let Some(i) = self.find(key) {
                    let v = self.cache[i].image;
                    return self.share(v);
                }
            },
            ImageCacheMode::Retry => {
                if let Some(i) = self.find(key) {
                    if !self.cache[i].error {
                        let v = self.cache[i].image;
                        return self.share(v);
                    }
                }
            },
            _ => {},
        }
        if !self.has_view && !self.load_in_headless {
            let v = self.new_var(Image::new(ViewImage::dummy(None)), 2);
            self.insert_entry(
                CacheEntry { key, image: v, error: false, max_decoded_len: limits.max_decoded_len, downscale },
            );
            return v;
        }
        self.load_task(key, mode, limits, downscale, source)
    }

    /// Gets or loads an image (see [`ImagesModel::image_request`]); `limits` default to
    /// [`IMAGES::limits`].
    pub fn image(
        &mut self,
        source: ImageSource,
        cache_mode: ImageCacheMode,
        limits: Option<ImageLimits>,
        downscale: Option<ImageDownscale>,
    ) -> (r: ImageVar)
        requires
            old(self)@.wf(),
            old(self)@.room(2),
        ensures
            final(self)@.wf(),
            served(old(self)@, final(self)@, r, source, cache_mode, limits, downscale, old(self).proxy_count() == 0),
    {
        let ghost given = limits;
        let limits = match limits {
            Some(l) => l,
            None => self.limits,
        };
        let key = match &source {
            ImageSource::Read(k, _) => *k,
            ImageSource::Download(k, _, _) => *k,
            ImageSource::Static(k, _, _) => *k,
            ImageSource::Data(k, _, _) => *k,
            ImageSource::Image(v) => {
                let r = *v;
                proof {
                    assert(old(self)@.proxy_answer(source, cache_mode, given, downscale, ProxyGetResult::Pass) == (
                    self@, r));
                }
                return r;
            },
        };
        let answer = self.ask_proxies(&key, &source, cache_mode, downscale);
        let ghost a = answer;
        match answer {
            ProxyGetResult::Pass => {
                let ghost src = source;
                let r = self.proxied_get(key, source, cache_mode, limits, downscale);
                proof {
                    assert(old(self)@.proxy_answer(src, cache_mode, given, downscale, a) == (self@, r));
                }
                r
            },
            ProxyGetResult::Cache(s2, m2, d2) => match key_of(&s2) {
                None => {
                    let r = image_of(&s2);
                    proof {
                        assert(old(self)@.proxy_answer(source, cache_mode, given, downscale, a) == (self@, r));
                    }
                    r
                },
                Some(k2) => {
                    let r = self.proxied_get(k2, s2, m2, limits, d2);
                    proof {
                        assert(old(self)@.proxy_answer(source, cache_mode, given, downscale, a) == (self@, r));
                    }
                    r
                },
            },
            ProxyGetResult::Image(v) => {
                proof {
                    assert(old(self)@.proxy_answer(source, cache_mode, given, downscale, a) == (self@, v));
                }
                v
            },
        }
    }

    /// Tells each proxy that the cache is cleaned, or purged, of all its images.
    fn clear_proxies(&mut self, purge: bool)
        ensures
            final(self)@ == old(self)@,
    {
        let mut i: usize = 0;
        while i < self.proxies.len()
            invariant
                self@ == old(self)@,
            decreases self.proxies@.len() - i,
        {
            self.proxies[i].clear(purge);
            i = i + 1;
        }
    }

    /// The answer of the first proxy that intercepts a request, `Pass` if none does.
    fn ask_proxies(
        &mut self,
        key: &ImageHash,
        source: &ImageSource,
        mode: ImageCacheMode,
        downscale: Option<ImageDownscale>,
    ) -> (r: ProxyGetResult)
        ensures
            final(self)@ == old(self)@,
            old(self).proxy_count() == 0 ==> r is Pass,
    {
        let mut i: usize = 0;
        while i < self.proxies.len()
            invariant
                self@ == old(self)@,
                old(self).proxy_count() == 0 ==> self.proxies@.len() == 0,
            decreases self.proxies@.len() - i,
        {
            let answer = self.proxies[i].get(key, source, mode, downscale);
            match answer {
                ProxyGetResult::Pass => {},
                _ => {
                    return answer;
                },
            }
            i = i + 1;
        }
        ProxyGetResult::Pass
    }

    /// A request checked by the limits' path or URI filter, whose answer is `allows`: a file
    /// read or a download that the filter blocks gets a new image that is not cached, a dummy
    /// with the error "limits filter blocked `{path}`"; any other request is served as
    /// [`IMAGES::image`] serves it.
    pub fn image_with_filter(
        &mut self,
        source: ImageSource,
        cache_mode: ImageCacheMode,
        limits: Option<ImageLimits>,
        downscale: Option<ImageDownscale>,
        allows: bool,
    ) -> (r: ImageVar)
        requires
            old(self)@.wf(),
            old(self)@.room(2),
        ensures
            final(self)@.wf(),
            match blocked_location(source, allows) {
                Some(location) => r == old(self)@.next_var() && exists|e: String|
                    e@ == blocked_text(location) && final(self)@ == old(self)@.push_image(
                        Image { cache_key: None, view: Some(dummy_view(Some(e))), done: true },
                        1,
                    ),
                None => served(old(self)@, final(self)@, r, source, cache_mode, limits, downscale, old(self).proxy_count() == 0),
            },
    {
        let blocked = if allows {
            None
        } else {
            match &source {
                ImageSource::Read(_, path) => Some(path.clone()),
                ImageSource::Download(_, uri, _) => Some(uri.clone()),
                _ => None,
            }
        };
        match blocked {
            Some(location) => {
                let mut e = String::from_str("limits filter blocked `");
                e.append(location.as_str());
                e.append("`");
                proof {
                    reveal_strlit("limits filter blocked `");
                    reveal_strlit("`");
                }
                self.dummy(Some(e))
            },
            None => self.image(source, cache_mode, limits, downscale),
        }
    }

    /// Gets a cached image or loads and caches it.
    pub fn cache(&mut self, source: ImageSource) -> (r: ImageVar)
        requires
            old(self)@.wf(),
            old(self)@.room(2),
        ensures
            final(self)@.wf(),
            served(old(self)@, final(self)@, r, source, ImageCacheMode::Cache, None, None, old(self).proxy_count() == 0),
    {
        self.image(source, ImageCacheMode::Cache, None, None)
    }

    /// Gets a cached image, or loads and caches it, or loads it again if the cached image
    /// failed.
    pub fn retry(&mut self, source: ImageSource) -> (r: ImageVar)
        requires
            old(self)@.wf(),
            old(self)@.room(2),
        ensures
            final(self)@.wf(),
            served(old(self)@, final(self)@, r, source, ImageCacheMode::Retry, None, None, old(self).proxy_count() == 0),
    {
        self.image(source, ImageCacheMode::Retry, None, None)
    }

    /// Loads an image; a cached image is kept and updated with the reloaded data.
    pub fn reload(&mut self, source: ImageSource) -> (r: ImageVar)
        requires
            old(self)@.wf(),
            old(self)@.room(2),
        ensures
            final(self)@.wf(),
            served(old(self)@, final(self)@, r, source, ImageCacheMode::Reload, None, None, old(self).proxy_count() == 0),
    {
        self.image(source, ImageCacheMode::Reload, None, None)
    }

    /// Gets the cached image of a file or reads it; `key` is the hash of the path.
    pub fn read(&mut self, key: ImageHash, path: String) -> (r: ImageVar)
        requires
            old(self)@.wf(),
            old(self)@.room(2),
        ensures
            final(self)@.wf(),
            served(old(self)@, final(self)@, r, ImageSource::Read(key, path), ImageCacheMode::Cache, None, None, old(self).proxy_count() == 0),
    {
        self.cache(ImageSource::Read(key, path))
    }

    /// Gets the cached image of a download or downloads it; `accept` is the HTTP accept
    /// header, all formats the view-process decodes when `None`.
    pub fn download(&mut self, key: ImageHash, uri: String, accept: Option<String>) -> (r: ImageVar)
        requires
            old(self)@.wf(),
            old(self)@.room(2),
        ensures
            final(self)@.wf(),
            served(
                old(self)@,
                final(self)@,
                r,
                ImageSource::Download(key, uri, accept),
                ImageCacheMode::Cache,
                None,
                None,
                old(self).proxy_count() == 0,
            ),
    {
        self.cache(ImageSource::Download(key, uri, accept))
    }

    /// Gets the cached image of data embedded in the program; `key` is the hash of the data.
    pub fn from_static(&mut self, key: ImageHash, data: Vec<u8>, format: ImageDataFormat) -> (r: ImageVar)
        requires
            old(self)@.wf(),
            old(self)@.room(2),
        ensures
            final(self)@.wf(),
            served(
                old(self)@,
                final(self)@,
                r,
                ImageSource::Static(key, data, format),
                ImageCacheMode::Cache,
                None,
                None,
                old(self).proxy_count() == 0,
            ),
    {
        self.cache(ImageSource::Static(key, data, format))
    }

    /// Gets the cached image of shared data; `key` is the hash of the data.
    pub fn from_data(&mut self, key: ImageHash, data: Vec<u8>, format: ImageDataFormat) -> (r: ImageVar)
        requires
            old(self)@.wf(),
            old(self)@.room(2),
        ensures
            final(self)@.wf(),
            served(
                old(self)@,
                final(self)@,
                r,
                ImageSource::Data(key, data, format),
                ImageCacheMode::Cache,
                None,
                None,
                old(self).proxy_count() == 0,
            ),
    {
        self.cache(ImageSource::Data(key, data, format))
    }

    /// A dummy image, loaded or with the error; not cached.
    pub fn dummy(&mut self, error: Option<String>) -> (r: ImageVar)
        requires
            old(self)@.wf(),
            old(self).images@.len() + 1 < usize::MAX,
        ensures
            final(self)@.wf(),
            r == old(self)@.next_var(),
            final(self)@ == old(self)@.push_image(
                Image { cache_key: None, view: Some(dummy_view(error)), done: true },
                1,
            ),
    {
        self.new_var(Image::dummy(error), 1)
    }

    /// Removes the entry at `i`, dropping its reference.
    fn remove_at(&mut self, i: usize)
        requires
            old(self)@.wf(),
            i < old(self).cache@.len(),
        ensures
            final(self)@.wf(),
            final(self)@ == old(self)@.remove_entry(old(self).cache@[i as int].key),
    {
        proof {
            lemma_key_pos(self.cache@, i as int);
        }
        let e = self.cache.remove(i);
        proof {
            assert forall|a: int, b: int| 0 <= a < b < self.cache@.len() implies (
            #[trigger] self.cache@[a]).key != (#[trigger] self.cache@[b]).key && self.cache@[a].image
                != self.cache@[b].image by {
                let a2 = if a < i { a } else { a + 1 };
                let b2 = if b < i { b } else { b + 1 };
                assert(self.cache@[a] == old(self).cache@[a2]);
                assert(self.cache@[b] == old(self).cache@[b2]);
            }
            assert forall|a: int| 0 <= a < self.cache@.len() implies (#[trigger] self.cache@[a]).image.id
                < self.images@.len() by {
                let a2 = if a < i { a } else { a + 1 };
                assert(self.cache@[a] == old(self).cache@[a2]);
            }
        }
        self.release(e.image);
    }

    /// Removes a cache entry: see [`ImagesModel::proxied_remove`].
    fn proxied_remove(&mut self, key: ImageHash, purge: bool) -> (r: bool)
        requires
            old(self)@.wf(),
        ensures
            final(self)@.wf(),
            final(self)@ == old(self)@.proxied_remove(key, purge).0,
            r == old(self)@.proxied_remove(key, purge).1,
    {
        match self.find(key) {
            Some(i) => {
                if purge || self.strong[self.cache[i].image.id] <= 1 {
                    self.remove_at(i);
                    true
                } else {
                    false
                }
            },
            None => false,
        }
    }

    /// A removal, asked of the proxies first: the first that intercepts it decides.
    fn proxy_then_remove(&mut self, key: ImageHash, purge: bool) -> (r: bool)
        requires
            old(self)@.wf(),
        ensures
            final(self)@.wf(),
            removed(old(self)@, final(self)@, r, key, purge, old(self).proxy_count() == 0),
    {
        let mut i: usize = 0;
        while i < self.proxies.len()
            invariant
                self@ == old(self)@,
                self@.wf(),
                self.proxy_count() == old(self).proxy_count(),
                i <= self.proxies@.len(),
                old(self).proxy_count() == 0 ==> i == 0,
            decreases self.proxies@.len() - i,
        {
            let answer = self.proxies[i].remove(&key, purge);
            let ghost a = answer;
            match answer {
                ProxyRemoveResult::Pass => {},
                ProxyRemoveResult::Remove(k2, p2) => {
                    let r = self.proxied_remove(k2, p2);
                    proof {
                        assert(old(self)@.remove_answer(key, purge, a) == (self@, r));
                    }
                    return r;
                },
                ProxyRemoveResult::Removed => {
                    proof {
                        assert(old(self)@.remove_answer(key, purge, a) == (self@, true));
                    }
                    return true;
                },
            }
            i = i + 1;
        }
        let r = self.proxied_remove(key, purge);
        proof {
            assert(old(self)@.remove_answer(key, purge, ProxyRemoveResult::Pass) == (self@, r));
        }
        r
    }

    /// Removes the image of `key` from the cache if nothing but the cache references it.
    /// Returns if it was removed.
    pub fn clean(&mut self, key: ImageHash) -> (r: bool)
        requires
            old(self)@.wf(),
        ensures
            final(self)@.wf(),
            removed(old(self)@, final(self)@, r, key, false, old(self).proxy_count() == 0),
    {
        self.proxy_then_remove(key, false)
    }

    /// Removes the image of `key` from the cache, even if it is still referenced. Returns if
    /// it was cached.
    pub fn purge(&mut self, key: &ImageHash) -> (r: bool)
        requires
            old(self)@.wf(),
        ensures
            final(self)@.wf(),
            removed(old(self)@, final(self)@, r, *key, true, old(self).proxy_count() == 0),
    {
        self.proxy_then_remove(*key, true)
    }

    /// Associates the loaded `image` with `key` in the cache. Returns the image that was
    /// associated with `key` before.
    pub fn register(&mut self, key: ImageHash, image: ViewImage, downscale: Option<ImageDownscale>) -> (r: Option<
        ImageVar,
    >)
        requires
            old(self)@.wf(),
            old(self).images@.len() + 1 < usize::MAX,
        ensures
            final(self)@.wf(),
            final(self)@ == old(self)@.register(key, image, downscale).0,
            r == old(self)@.register(key, image, downscale).1,
    {
        let max_decoded_len = if self.limits.max_decoded_len.0 >= image.decoded_len {
            self.limits.max_decoded_len
        } else {
            ByteLength(image.decoded_len)
        };
        let error = image.error.is_some();
        let v = self.new_var(Image::new(image), 1);
        let mut e = CacheEntry { key, image: v, error, max_decoded_len, downscale };
        match self.find(key) {
            Some(i) => {
                let ghost before = self@;
                self.cache.set_and_swap(i, &mut e);
                proof {
                    assert forall|a: int, b: int| 0 <= a < b < self.cache@.len() implies (
                    #[trigger] self.cache@[a]).key != (#[trigger] self.cache@[b]).key && self.cache@[a].image
                        != self.cache@[b].image by {
                        if a != i as int {
                            assert(self.cache@[a] == before.cache[a]);
                        }
                        if b != i as int {
                            assert(self.cache@[b] == before.cache[b]);
                        }
                    }
                }
                Some(e.image)
            },
            None => {
                self.cache.push(e);
                proof {
                    assert forall|a: int, b: int| 0 <= a < b < self.cache@.len() implies (
                    #[trigger] self.cache@[a]).key != (#[trigger] self.cache@[b]).key && self.cache@[a].image
                        != self.cache@[b].image by {
                        if b == self.cache@.len() - 1 {
                            assert(old(self).cache@[a].key != key);
                        }
                    }
                }
                None
            },
        }
    }

    /// The cache key of an image, if it is cached.
    pub fn cache_key(&self, image: &Image) -> (r: Option<ImageHash>)
        requires
            self@.wf(),
        ensures
            r == self@.cache_key(*image),
    {
        match image.cache_key {
            Some(k) => match self.find(k) {
                Some(_) => Some(k),
                None => None,
            },
            None => None,
        }
    }

    /// If the image is cached.
    pub fn is_cached(&self, image: &Image) -> (r: bool)
        requires
            self@.wf(),
        ensures
            r == self@.cache_key(*image) is Some,
    {
        self.cache_key(image).is_some()
    }

    /// Removes the cached images that nothing but the cache references.
    pub fn clean_all(&mut self)
        requires
            old(self)@.wf(),
        ensures
            final(self)@.wf(),
            final(self)@ == old(self)@.clean_all(),
    {
        self.clear_proxies(false);
        let ghost m0 = self@;
        let ghost keep = referenced(m0.strong);
        let ghost drop = unreferenced(m0.strong);
        let mut kept: Vec<CacheEntry> = Vec::new();
        let ghost mut idx: Seq<int> = Seq::empty();
        let mut i: usize = 0;
        while i < self.cache.len()
            invariant
                self@.wf(),
                m0.wf(),
                keep == referenced(m0.strong),
                drop == unreferenced(m0.strong),
                self@ == (ImagesModel { strong: self.strong@, ..m0 }),
                i <= m0.cache.len(),
                kept@ == m0.cache.take(i as int).filter(keep),
                self.strong@ == ImagesModel::drop_refs(m0.strong, m0.cache.take(i as int).filter(drop)),
                idx.len() == kept@.len(),
                forall|j: int| 0 <= j < idx.len() ==> 0 <= #[trigger] idx[j] < i && kept@[j] == m0.cache[idx[j]],
                forall|a: int, b: int| 0 <= a < b < idx.len() ==> #[trigger] idx[a] < #[trigger] idx[b],
            decreases m0.cache.len() - i,
        {
            let e = self.cache[i];
            let ghost d = m0.cache.take(i as int).filter(drop);
            proof {
                reveal(Seq::filter);
                assert(m0.cache.take(i + 1).drop_last() =~= m0.cache.take(i as int));
                assert(m0.cache.take(i + 1).last() == e);
                assert forall|k: int| 0 <= k < d.len() implies (#[trigger] d[k]).image.id != e.image.id by {
                    m0.cache.take(i as int).lemma_filter_contains_rev(drop, d[k]);
                    let q = choose|q: int| 0 <= q < i && m0.cache.take(i as int)[q] == d[k];
                    assert(m0.cache[q].image != m0.cache[i as int].image);
                }
                assert(self.strong@[e.image.id as int] == m0.strong[e.image.id as int]);
            }
            if self.strong[e.image.id] > 1 {
                kept.push(e);
                proof {
                    idx = idx.push(i as int);
                }
            } else {
                self.release(e.image);
                proof {
                    let d2 = m0.cache.take(i + 1).filter(drop);
                    assert(d2 == d.push(e));
                    assert(self.strong@ =~= ImagesModel::drop_refs(m0.strong, d2)) by {
                        assert forall|j: int| 0 <= j < self.strong@.len() implies self.strong@[j]
                            == ImagesModel::drop_refs(m0.strong, d2)[j] by {
                            if j == e.image.id as int {
                                assert(d2[d.len() as int] == e);
                            } else {
                                if exists|k: int| 0 <= k < d2.len() && (#[trigger] d2[k]).image.id == j {
                                    let k = choose|k: int| 0 <= k < d2.len() && (#[trigger] d2[k]).image.id == j;
                                    assert(d[k] == d2[k]);
                                }
                                if exists|k: int| 0 <= k < d.len() && (#[trigger] d[k]).image.id == j {
                                    let k = choose|k: int| 0 <= k < d.len() && (#[trigger] d[k]).image.id == j;
                                    assert(d2[k] == d[k]);
                                }
                            }
                        }
                    }
                }
            }
            i = i + 1;
        }
        proof {
            assert(m0.cache.take(m0.cache.len() as int) =~= m0.cache);
        }
        self.cache = kept;
        proof {
            assert forall|a: int, b: int| 0 <= a < b < self.cache@.len() implies (
            #[trigger] self.cache@[a]).key != (#[trigger] self.cache@[b]).key && self.cache@[a].image
                != self.cache@[b].image by {
                assert(idx[a] < idx[b]);
            }
            assert forall|a: int| 0 <= a < self.cache@.len() implies (#[trigger] self.cache@[a]).image.id
                < self.images@.len() by {
                assert(self.cache@[a] == m0.cache[idx[a]]);
            }
            assert(self@ =~= m0.clean_all());
        }
    }

    /// Removes every cached image, also those still referenced.
    pub fn purge_all(&mut self)
        requires
            old(self)@.wf(),
        ensures
            final(self)@.wf(),
            final(self)@ == old(self)@.purge_all(),
    {
        self.clear_proxies(true);
        let ghost m0 = self@;
        let mut i: usize = 0;
        while i < self.cache.len()
            invariant
                self@.wf(),
                m0.wf(),
                self@ == (ImagesModel { strong: self.strong@, ..m0 }),
                i <= m0.cache.len(),
                self.strong@ == ImagesModel::drop_refs(m0.strong, m0.cache.take(i as int)),
            decreases m0.cache.len() - i,
        {
            let e = self.cache[i];
            let ghost d = m0.cache.take(i as int);
            let ghost d2 = m0.cache.take(i + 1);
            proof {
                assert(d2 =~= d.push(e));
                assert forall|k: int| 0 <= k < d.len() implies (#[trigger] d[k]).image.id != e.image.id by {
                    assert(m0.cache[k].image != m0.cache[i as int].image);
                }
            }
            self.release(e.image);
            proof {
                assert(self.strong@ =~= ImagesModel::drop_refs(m0.strong, d2)) by {
                    assert forall|j: int| 0 <= j < self.strong@.len() implies self.strong@[j]
                        == ImagesModel::drop_refs(m0.strong, d2)[j] by {
                        if j == e.image.id as int {
                            assert(d2[d.len() as int] == e);
                        } else {
                            if exists|k: int| 0 <= k < d2.len() && (#[trigger] d2[k]).image.id == j {
                                let k = choose|k: int| 0 <= k < d2.len() && (#[trigger] d2[k]).image.id == j;
                                assert(d[k] == d2[k]);
                            }
                            if exists|k: int| 0 <= k < d.len() && (#[trigger] d[k]).image.id == j {
                                let k = choose|k: int| 0 <= k < d.len() && (#[trigger] d[k]).image.id == j;
                                assert(d2[k] == d[k]);
                            }
                        }
                    }
                }
            }
            i = i + 1;
        }
        proof {
            assert(m0.cache.take(m0.cache.len() as int) =~= m0.cache);
        }
        self.cache = Vec::new();
        proof {
            assert(self@ =~= m0.purge_all());
        }
    }

    /// Replaces the value of an image, returning the old value.
    fn swap_image(&mut self, v: ImageVar, image: Image) -> (r: Image)
        requires
            old(self)@.wf(),
            v.id < old(self).images@.len(),
        ensures
            final(self)@.wf(),
            r == old(self).images@[v.id as int],
            final(self)@ == (ImagesModel { images: old(self).images@.update(v.id as int, image), ..old(self)@ }),
    {
        let mut img = image;
        self.images.set_and_swap(v.id, &mut img);
        img
    }

    /// Flags the cache entry of `cache_key` as failed, if it is cached.
    fn flag_error(&mut self, cache_key: Option<ImageHash>)
        requires
            old(self)@.wf(),
        ensures
            final(self)@.wf(),
            final(self)@ == old(self)@.flag_error(cache_key),
    {
        if let Some(k) = cache_key {
            if let Some(i) = self.find(k) {
                let ghost before = self@;
                let mut e = self.cache[i];
                e.error = true;
                self.cache.set(i, e);
                proof {
                    assert forall|a: int, b: int| 0 <= a < b < self.cache@.len() implies (
                    #[trigger] self.cache@[a]).key != (#[trigger] self.cache@[b]).key && self.cache@[a].image
                        != self.cache@[b].image by {
                        if a != i as int {
                            assert(self.cache@[a] == before.cache[a]);
                        }
                        if b != i as int {
                            assert(self.cache@[b] == before.cache[b]);
                        }
                    }
                }
            }
        }
    }

    /// Returns an image that is not cached (see [`ImagesModel::detach`]).
    pub fn detach(&mut self, image: ImageVar) -> (r: ImageVar)
        requires
            old(self)@.wf(),
            image.id < old(self).images@.len(),
            old(self).images@.len() + 1 < usize::MAX,
        ensures
            final(self)@.wf(),
            final(self)@ == old(self)@.detach(image).0,
            r == old(self)@.detach(image).1,
    {
        let key = match self.images[image.id].cache_key {
            Some(k) => k,
            None => {
                return image;
            },
        };
        let decoded = match &self.images[image.id].view {
            Some(vw) => vw.decoded_len,
            None => 0,
        };
        let mut max_decoded_len = if self.limits.max_decoded_len.0 >= decoded {
            self.limits.max_decoded_len
        } else {
            ByteLength(decoded)
        };
        let mut downscale = None;
        if let Some(i) = self.find(key) {
            max_decoded_len = self.cache[i].max_decoded_len;
            downscale = self.cache[i].downscale;
            if self.strong[image.id] == 2 {
                self.remove_at(i);
            }
        }
        let copy = self.images[image.id].copy_uncached();
        self.release(image);
        let nv = self.new_var(copy, 1);
        self.not_cached.push(NotCachedEntry { image: nv, max_decoded_len, downscale });
        nv
    }

    /// The accepted formats of downloads, computed once: `image/` and each of the formats
    /// the view-process decodes (`decoders`), or `image/*` without a view-process or formats.
    pub fn download_accept(&mut self, decoders: &Vec<String>) -> (r: String)
        ensures
            final(self)@ == (ImagesModel { download_accept: final(self).download_accept@, ..old(self)@ }),
            old(self).download_accept@.len() > 0 ==> final(self).download_accept@ == old(self).download_accept@,
            old(self).download_accept@.len() == 0 ==> final(self).download_accept@ == (if old(self).has_view
                && decoders@.len() > 0 {
                accept_list(decoders@)
            } else {
                "image/*"@
            }),
            r@ == final(self).download_accept@,
    {
        if self.download_accept.as_str().unicode_len() == 0 {
            if self.has_view && decoders.len() > 0 {
                let mut r = String::new();
                r.append("image/");
                r.append(decoders[0].as_str());
                proof {
                    reveal_strlit("image/");
                    assert(decoders@.take(1).drop_last() =~= Seq::<String>::empty());
                    assert(r@ =~= accept_list(decoders@.take(1)));
                }
                let mut i: usize = 1;
                while i < decoders.len()
                    invariant
                        1 <= i <= decoders@.len(),
                        r@ == accept_list(decoders@.take(i as int)),
                    decreases decoders@.len() - i,
                {
                    r.append(",image/");
                    r.append(decoders[i].as_str());
                    proof {
                        assert(decoders@.take(i + 1).drop_last() =~= decoders@.take(i as int));
                        assert(decoders@.take(i + 1).last() == decoders@[i as int]);
                    }
                    i = i + 1;
                }
                proof {
                    assert(decoders@.take(decoders@.len() as int) =~= decoders@);
                }
                self.download_accept = r;
            } else {
                self.download_accept = String::from_str("image/*");
                proof {
                    reveal_strlit("image/*");
                }
            }
        }
        self.download_accept.clone()
    }

    /// If a file of `len` bytes may be read for loading task `i`: it is not larger than the
    /// task's encoded size limit.
    pub fn encoded_len_ok(&self, i: usize, len: u64) -> (r: bool)
        requires
            i < self.loading@.len(),
        ensures
            r == (len <= self.loading@[i as int].limits.max_encoded_len.0),
    {
        len <= self.loading[i].limits.max_encoded_len.0 as u64
    }

    /// Loading task `i` failed (see [`ImagesModel::load_failed`]).
    pub fn load_failed(&mut self, i: usize, error: String)
        requires
            old(self)@.wf(),
            i < old(self).loading@.len(),
        ensures
            final(self)@.wf(),
            final(self)@ == old(self)@.load_failed(i as int, error),
    {
        let t = self.loading.remove(i);
        proof {
            assert forall|a: int| 0 <= a < self.loading@.len() implies (#[trigger] self.loading@[a]).image.id
                < self.images@.len() by {
                let a2 = if a < i { a } else { a + 1 };
                assert(self.loading@[a] == old(self).loading@[a2]);
            }
        }
        let v = t.image;
        let old_img = self.swap_image(v, Image::new_none(None));
        let key = old_img.cache_key;
        self.swap_image(
            v,
            Image { cache_key: key, view: Some(ViewImage::dummy(Some(error))), done: true },
        );
        self.flag_error(key);
        self.release(v);
        proof {
            assert(self.images@ =~= old(self).images@.update(
                v.id as int,
                Image { view: Some(dummy_view(Some(error))), done: true, ..old_img },
            ));
        }
    }

    /// Loading task `i` read its data (see [`ImagesModel::load_succeeded`]); when it returns
    /// `true` the app asks the view-process to decode and reports the view image with
    /// [`IMAGES::decode_started`].
    pub fn load_succeeded(&mut self, i: usize, format: ImageDataFormat) -> (r: bool)
        requires
            old(self)@.wf(),
            i < old(self).loading@.len(),
        ensures
            final(self)@.wf(),
            final(self)@ == old(self)@.load_succeeded(i as int, format).0,
            r == old(self)@.load_succeeded(i as int, format).1,
    {
        let t = self.loading.remove(i);
        proof {
            assert forall|a: int| 0 <= a < self.loading@.len() implies (#[trigger] self.loading@[a]).image.id
                < self.images@.len() by {
                let a2 = if a < i { a } else { a + 1 };
                assert(self.loading@[a] == old(self).loading@[a2]);
            }
        }
        let v = t.image;
        if self.has_view {
            self.decoding.push(ImageDecodingTask { image: v, format });
            true
        } else {
            let old_img = self.swap_image(v, Image::new_none(None));
            self.swap_image(
                v,
                Image {
                    cache_key: old_img.cache_key,
                    view: Some(ViewImage::dummy(None)),
                    done: true,
                },
            );
            self.release(v);
            proof {
                assert(self.images@ =~= old(self).images@.update(
                    v.id as int,
                    Image { view: Some(dummy_view(None)), done: true, ..old_img },
                ));
            }
            false
        }
    }

    /// The view-process accepted to decode the image `v` as the view image `view_id` of the
    /// view-process instance `generation`.
    pub fn decode_started(&mut self, v: ImageVar, view_id: u64, generation: u32)
        requires
            old(self)@.wf(),
            v.id < old(self).images@.len(),
        ensures
            final(self)@.wf(),
            final(self)@ == (ImagesModel {
                images: old(self).images@.update(
                    v.id as int,
                    Image {
                        view: Some(started_view(view_id, generation)),
                        ..old(self).images@[v.id as int]
                    },
                ),
                ..old(self)@
            }),
    {
        let old_img = self.swap_image(v, Image::new_none(None));
        self.swap_image(
            v,
            Image {
                cache_key: old_img.cache_key,
                view: Some(
                    ViewImage {
                        id: Some(view_id),
                        generation,
                        size: PxSize { width: Px(0), height: Px(0) },
                        error: None,
                        decoded_len: 0,
                    },
                ),
                done: old_img.done,
            },
        );
        proof {
            assert(self.images@ =~= old(self).images@.update(
                v.id as int,
                Image { view: Some(started_view(view_id, generation)), ..old_img },
            ));
        }
    }

    /// Position of the first decoding task of a view image.
    fn find_decoding(&self, view_id: u64) -> (r: Option<usize>)
        requires
            self@.wf(),
        ensures
            match r {
                Some(i) => self@.first_decoding(view_id, i as int),
                None => !exists|i: int| self@.first_decoding(view_id, i),
            },
    {
        let mut i: usize = 0;
        while i < self.decoding.len()
            invariant
                self@.wf(),
                i <= self.decoding@.len(),
                forall|j: int| 0 <= j < i ==> !#[trigger] self@.decodes(j, view_id),
            decreases self.decoding@.len() - i,
        {
            let found = match &self.images[self.decoding[i].image.id].view {
                Some(vw) => vw.id == Some(view_id),
                None => false,
            };
            if found {
                return Some(i);
            }
            i = i + 1;
        }
        proof {
            assert forall|k: int| !self@.first_decoding(view_id, k) by {
                if 0 <= k < self.decoding@.len() {
                    assert(!self@.decodes(k, view_id));
                }
            }
        }
        None
    }

    /// Removes decoding task `i`, moving the last task in its place.
    fn take_decoding(&mut self, i: usize) -> (r: ImageDecodingTask)
        requires
            old(self)@.wf(),
            i < old(self).decoding@.len(),
        ensures
            final(self)@.wf(),
            r == old(self).decoding@[i as int],
            final(self)@ == (ImagesModel {
                decoding: old(self).decoding@.update(i as int, old(self).decoding@.last()).drop_last(),
                ..old(self)@
            }),
    {
        let r = self.decoding.swap_remove(i);
        proof {
            assert forall|a: int| 0 <= a < self.decoding@.len() implies (#[trigger] self.decoding@[a]).image.id
                < self.images@.len() by {
                if a == i as int {
                    assert(self.decoding@[a] == old(self).decoding@.last());
                } else {
                    assert(self.decoding@[a] == old(self).decoding@[a]);
                }
            }
        }
        r
    }

    /// The view-process read the metadata of `view_id`: the image of its first decoding task
    /// is the one to notify, if there is one.
    pub fn image_metadata_loaded(&self, view_id: u64) -> (r: Option<ImageVar>)
        requires
            self@.wf(),
        ensures
            r == (if exists|i: int| self@.first_decoding(view_id, i) {
                Some(self.decoding@[choose|i: int| self@.first_decoding(view_id, i)].image)
            } else {
                None
            }),
    {
        match self.find_decoding(view_id) {
            Some(i) => {
                proof {
                    let c = choose|k: int| self@.first_decoding(view_id, k);
                    if c < i {
                        assert(!self@.decodes(c, view_id));
                    } else if i < c {
                        assert(!self@.decodes(i as int, view_id));
                    }
                }
                Some(self.decoding[i].image)
            },
            None => None,
        }
    }

    /// The view-process decoded `view_id` (see [`ImagesModel::image_decoded`]).
    pub fn image_decoded(&mut self, view_id: u64, size: PxSize, decoded_len: usize) -> (r: bool)
        requires
            old(self)@.wf(),
        ensures
            final(self)@.wf(),
            final(self)@ == old(self)@.image_decoded(view_id, size, decoded_len).0,
            r == old(self)@.image_decoded(view_id, size, decoded_len).1,
    {
        match self.find_decoding(view_id) {
            Some(i) => {
                proof {
                    let c = choose|k: int| old(self)@.first_decoding(view_id, k);
                    if c < i {
                        assert(!old(self)@.decodes(c, view_id));
                    } else if i < c {
                        assert(!old(self)@.decodes(i as int, view_id));
                    }
                }
                let t = self.take_decoding(i);
                let v = t.image;
                let old_img = self.swap_image(v, Image::new_none(None));
                let view = match old_img.view {
                    Some(vw) => ViewImage { id: vw.id, generation: vw.generation, size, error: vw.error, decoded_len },
                    None => {
                        proof {
                            assert(false);
                        }
                        ViewImage::dummy(None)
                    },
                };
                self.swap_image(v, Image { cache_key: old_img.cache_key, view: Some(view), done: true });
                self.release(v);
                true
            },
            None => false,
        }
    }

    /// The view-process failed to decode `view_id` (see [`ImagesModel::image_decode_error`]).
    pub fn image_decode_error(&mut self, view_id: u64, error: String) -> (r: bool)
        requires
            old(self)@.wf(),
        ensures
            final(self)@.wf(),
            final(self)@ == old(self)@.image_decode_error(view_id, error).0,
            r == old(self)@.image_decode_error(view_id, error).1,
    {
        match self.find_decoding(view_id) {
            Some(i) => {
                proof {
                    let c = choose|k: int| old(self)@.first_decoding(view_id, k);
                    if c < i {
                        assert(!old(self)@.decodes(c, view_id));
                    } else if i < c {
                        assert(!old(self)@.decodes(i as int, view_id));
                    }
                }
                let t = self.take_decoding(i);
                let v = t.image;
                let old_img = self.swap_image(v, Image::new_none(None));
                let key = old_img.cache_key;
                let view = match old_img.view {
                    Some(vw) => ViewImage {
                        id: vw.id,
                        generation: vw.generation,
                        size: vw.size,
                        error: Some(error),
                        decoded_len: vw.decoded_len,
                    },
                    None => {
                        proof {
                            assert(false);
                        }
                        ViewImage::dummy(Some(error))
                    },
                };
                self.swap_image(v, Image { cache_key: key, view: Some(view), done: true });
                self.flag_error(key);
                self.release(v);
                true
            },
            None => false,
        }
    }

    /// The restarted view-process accepted to decode image `v` again as the view image
    /// `view_id` of `generation`: the image becomes a new, not cached value of that view image.
    pub fn view_recovered(&mut self, v: ImageVar, view_id: u64, generation: u32)
        requires
            old(self)@.wf(),
            v.id < old(self).images@.len(),
        ensures
            final(self)@.wf(),
            final(self)@ == (ImagesModel {
                images: old(self).images@.update(
                    v.id as int,
                    Image { cache_key: None, view: Some(started_view(view_id, generation)), done: false },
                ),
                ..old(self)@
            }),
    {
        let view = ViewImage {
            id: Some(view_id),
            generation,
            size: PxSize { width: Px(0), height: Px(0) },
            error: None,
            decoded_len: 0,
        };
        self.swap_image(v, Image { cache_key: None, view: Some(view), done: false });
    }

    /// If a decoding task of `v` is listed.
    fn has_task(&self, v: ImageVar) -> (r: bool)
        ensures
            r == has_task(self.decoding@, v),
    {
        let mut i: usize = 0;
        while i < self.decoding.len()
            invariant
                i <= self.decoding@.len(),
                forall|j: int| 0 <= j < i ==> (#[trigger] self.decoding@[j]).image != v,
            decreases self.decoding@.len() - i,
        {
            if self.decoding[i].image == v {
                return true;
            }
            i = i + 1;
        }
        false
    }

    /// Position of the first of `tasks` whose image shows the view-process image `id` of
    /// `generation`.
    fn find_shown(&self, tasks: &Vec<ImageDecodingTask>, id: Option<u64>, generation: u32) -> (r: Option<usize>)
        requires
            forall|i: int| 0 <= i < tasks@.len() ==> (#[trigger] tasks@[i]).image.id < self.images@.len(),
        ensures
            match r {
                Some(i) => self@.first_shows(tasks@, id, generation, i as int),
                None => !exists|i: int| self@.first_shows(tasks@, id, generation, i),
            },
    {
        let mut i: usize = 0;
        while i < tasks.len()
            invariant
                i <= tasks@.len(),
                forall|k: int| 0 <= k < tasks@.len() ==> (#[trigger] tasks@[k]).image.id < self.images@.len(),
                forall|j: int| 0 <= j < i ==> !#[trigger] self@.shows(tasks@[j], id, generation),
            decreases tasks@.len() - i,
        {
            let found = match &self.images[tasks[i].image.id].view {
                Some(w) => w.id == id && w.generation == generation,
                None => false,
            };
            if found {
                return Some(i);
            }
            i = i + 1;
        }
        proof {
            assert forall|k: int| !self@.first_shows(tasks@, id, generation, k) by {
                if 0 <= k < tasks@.len() {
                    assert(!self@.shows(tasks@[k], id, generation));
                }
            }
        }
        None
    }

    /// A new decoding task of `v` in `format`, and the request for it.
    fn redecode(&mut self, v: ImageVar, format: ImageDataFormat) -> (r: RespawnRequest)
        requires
            old(self)@.wf(),
            v.id < old(self).images@.len(),
            old(self).strong@[v.id as int] < usize::MAX,
        ensures
            final(self)@.wf(),
            (final(self)@, Some(r)) == old(self)@.redecode(v, format),
    {
        let copy = copy_format(&format);
        self.decoding.push(ImageDecodingTask { image: v, format });
        self.share(v);
        RespawnRequest { image: v, format: copy }
    }

    /// Recovers image `v` after the view-process restarted (see [`ImagesModel::recover`]).
    fn recover(&mut self, interrupted: &Vec<ImageDecodingTask>, generation: u32, v: ImageVar) -> (r: Option<
        RespawnRequest,
    >)
        requires
            old(self)@.wf(),
            v.id < old(self).images@.len(),
            !has_task(old(self).decoding@, v) ==> old(self).strong@[v.id as int] < usize::MAX,
            forall|i: int|
                0 <= i < interrupted@.len() ==> (#[trigger] interrupted@[i]).image.id < old(self).images@.len(),
        ensures
            final(self)@.wf(),
            (final(self)@, r) == old(self)@.recover(interrupted@, generation, v),
            final(self).decoding@ == old(self).decoding@ && final(self).strong@ == old(self).strong@ || ({
                &&& r is Some
                &&& !has_task(old(self).decoding@, v)
                &&& final(self).decoding@ == old(self).decoding@.push(
                    ImageDecodingTask { image: v, format: r->0.format },
                )
                &&& final(self).strong@ == old(self).strong@.update(
                    v.id as int,
                    (old(self).strong@[v.id as int] + 1) as usize,
                )
            }),
    {
        let (view_id, view_generation, size, error) = match &self.images[v.id].view {
            None => {
                return None;
            },
            Some(view) => (
                view.id,
                view.generation,
                view.size,
                match &view.error {
                    Some(e) => Some(e.clone()),
                    None => None,
                },
            ),
        };
        if view_generation == generation || self.has_task(v) {
            return None;
        }
        if error.is_some() {
            let ghost before = self@;
            self.swap_image(v, Image::dummy(error));
            proof {
                assert(self@ == ImagesModel {
                    images: before.images.update(
                        v.id as int,
                        Image { cache_key: None, view: Some(dummy_view(error)), done: true },
                    ),
                    ..before
                });
            }
            return None;
        }
        match self.find_shown(interrupted, view_id, view_generation) {
            Some(i) => {
                proof {
                    let c = choose|k: int| old(self)@.first_shows(interrupted@, view_id, view_generation, k);
                    if c < i {
                        assert(!old(self)@.shows(interrupted@[c], view_id, view_generation));
                    } else if i < c {
                        assert(!old(self)@.shows(interrupted@[i as int], view_id, view_generation));
                    }
                }
                let format = copy_format(&interrupted[i].format);
                Some(self.redecode(v, format))
            },
            None => {
                if view_id.is_none() {
                    None
                } else {
                    Some(self.redecode(v, ImageDataFormat::Bgra8(size)))
                }
            },
        }
    }

    /// The view-process restarted as `generation` (see [`ImagesModel::view_respawned`]); gives
    /// the decodings to ask of it.
    pub fn view_respawned(&mut self, generation: u32) -> (r: Vec<RespawnRequest>)
        requires
            old(self)@.wf(),
            old(self)@.room(0),
        ensures
            final(self)@.wf(),
            final(self)@ == old(self)@.view_respawned(generation).0,
            r@ == old(self)@.view_respawned(generation).1,
    {
        self.cleanup_not_cached(true);
        self.download_accept = String::new();
        let mut interrupted: Vec<ImageDecodingTask> = Vec::new();
        std::mem::swap(&mut interrupted, &mut self.decoding);
        let ghost start = self@;
        let ghost vars = entry_images(self.cache@, self.not_cached@);
        assert(start == ImagesModel {
            download_accept: Seq::empty(),
            decoding: Seq::empty(),
            ..old(self)@.cleanup(true)
        });
        let mut reqs: Vec<RespawnRequest> = Vec::new();
        let mut i: usize = 0;
        while i < self.cache.len()
            invariant
                self@.wf(),
                start.wf(),
                start.room(0),
                i <= self.cache@.len(),
                self.cache@ == start.cache,
                self.not_cached@ == start.not_cached,
                self.images@.len() == start.images.len(),
                vars == entry_images(start.cache, start.not_cached),
                forall|k: int| 0 <= k < interrupted@.len() ==> (#[trigger] interrupted@[k]).image.id < self.images@.len(),
                forall|k: int|
                    0 <= k < self.strong@.len() ==> #[trigger] self.strong@[k] == counted(start.strong, self.decoding@, k),
                (self@, reqs@) == start.recover_all(interrupted@, generation, vars.take(i as int)),
            decreases self.cache@.len() - i,
        {
            let v = self.cache[i].image;
            proof {
                assert(vars[i as int] == v);
                assert(vars.take(i + 1).drop_last() =~= vars.take(i as int));
            }
            self.recover_step(&interrupted, generation, v, &mut reqs, Ghost(start));
            i = i + 1;
        }
        let mut j: usize = 0;
        while j < self.not_cached.len()
            invariant
                self@.wf(),
                start.wf(),
                start.room(0),
                j <= self.not_cached@.len(),
                self.cache@ == start.cache,
                self.not_cached@ == start.not_cached,
                self.images@.len() == start.images.len(),
                vars == entry_images(start.cache, start.not_cached),
                forall|k: int| 0 <= k < interrupted@.len() ==> (#[trigger] interrupted@[k]).image.id < self.images@.len(),
                forall|k: int|
                    0 <= k < self.strong@.len() ==> #[trigger] self.strong@[k] == counted(start.strong, self.decoding@, k),
                (self@, reqs@) == start.recover_all(
                    interrupted@,
                    generation,
                    vars.take(self.cache@.len() + j),
                ),
            decreases self.not_cached@.len() - j,
        {
            let v = self.not_cached[j].image;
            proof {
                assert(vars[self.cache@.len() + j] == v);
                assert(vars.take(self.cache@.len() + j + 1).drop_last() =~= vars.take(self.cache@.len() + j));
            }
            self.recover_step(&interrupted, generation, v, &mut reqs, Ghost(start));
            j = j + 1;
        }
        proof {
            assert(vars.take(self.cache@.len() + j) =~= vars);
        }
        let ghost recovered = self@;
        let mut k: usize = 0;
        while k < interrupted.len()
            invariant
                k <= interrupted@.len(),
                self@.wf(),
                self.images@.len() == recovered.images.len(),
                forall|a: int| 0 <= a < interrupted@.len() ==> (#[trigger] interrupted@[a]).image.id < self.images@.len(),
                self@ == recovered.release_tasks(interrupted@.take(k as int)),
            decreases interrupted@.len() - k,
        {
            proof {
                assert(interrupted@.take(k + 1).drop_last() =~= interrupted@.take(k as int));
            }
            self.release(interrupted[k].image);
            k = k + 1;
        }
        proof {
            assert(interrupted@.take(k as int) =~= interrupted@);
        }
        reqs
    }

    /// One step of the recovery: recovers `v` and lists the request made.
    fn recover_step(
        &mut self,
        interrupted: &Vec<ImageDecodingTask>,
        generation: u32,
        v: ImageVar,
        reqs: &mut Vec<RespawnRequest>,
        Ghost(start): Ghost<ImagesModel>,
    )
        requires
            old(self)@.wf(),
            start.wf(),
            start.room(0),
            v.id < old(self).images@.len(),
            old(self).images@.len() == start.images.len(),
            forall|k: int|
                0 <= k < interrupted@.len() ==> (#[trigger] interrupted@[k]).image.id < old(self).images@.len(),
            forall|k: int|
                0 <= k < old(self).strong@.len() ==> #[trigger] old(self).strong@[k] == counted(start.strong, old(self).decoding@, k),
        ensures
            final(self)@.wf(),
            final(self).cache@ == old(self).cache@,
            final(self).not_cached@ == old(self).not_cached@,
            final(self).images@.len() == old(self).images@.len(),
            forall|k: int|
                0 <= k < final(self).strong@.len() ==> #[trigger] final(self).strong@[k] == counted(start.strong, final(self).decoding@, k),
            ({
                let step = old(self)@.recover(interrupted@, generation, v);
                &&& final(self)@ == step.0
                &&& final(reqs)@ == match step.1 {
                    Some(q) => old(reqs)@.push(q),
                    None => old(reqs)@,
                }
            }),
    {
        proof {
            assert(old(self).strong@[v.id as int] == counted(start.strong, old(self).decoding@, v.id as int));
        }
        let ghost before = self@;
        let r = self.recover(interrupted, generation, v);
        proof {
            assert forall|k: int| 0 <= k < self.strong@.len() implies #[trigger] self.strong@[k] == counted(start.strong, self.decoding@, k) by {
                let kv = ImageVar { id: k as usize };
                if self.decoding@.len() != before.decoding.len() {
                    assert(self.decoding@ == before.decoding.push(ImageDecodingTask { image: v, format: r->0.format }));
                    if kv == v {
                        assert(self.decoding@[before.decoding.len() as int].image == v);
                    } else {
                        if has_task(self.decoding@, kv) {
                            let w = choose|w: int| 0 <= w < self.decoding@.len() && (#[trigger] self.decoding@[w]).image == kv;
                            assert(before.decoding[w].image == kv);
                        }
                        if has_task(before.decoding, kv) {
                            let w = choose|w: int| 0 <= w < before.decoding.len() && (#[trigger] before.decoding[w]).image == kv;
                            assert(self.decoding@[w].image == kv);
                        }
                    }
                }
            }
        }
        match r {
            Some(q) => reqs.push(q),
            None => {},
        }
    }
}

/// The cache key of a source, `None` for an image variable.
fn key_of(source: &ImageSource) -> (r: Option<ImageHash>)
    ensures
        r == source_key(*source),
{
    match source {
        ImageSource::Read(k, _) => Some(*k),
        ImageSource::Download(k, _, _) => Some(*k),
        ImageSource::Static(k, _, _) => Some(*k),
        ImageSource::Data(k, _, _) => Some(*k),
        ImageSource::Image(_) => None,
    }
}

/// The image variable of an image variable source.
fn image_of(source: &ImageSource) -> (r: ImageVar)
    requires
        source is Image,
    ensures
        *source == ImageSource::Image(r),
{
    match source {
        ImageSource::Image(v) => *v,
        _ => ImageVar { id: 0 },
    }
}

/// An equal copy of a data format.
fn copy_format(f: &ImageDataFormat) -> (r: ImageDataFormat)
    ensures
        r == *f,
{
    match f {
        ImageDataFormat::Bgra8(s) => ImageDataFormat::Bgra8(*s),
        ImageDataFormat::FileExtension(e) => ImageDataFormat::FileExtension(e.clone()),
        ImageDataFormat::MimeType(m) => ImageDataFormat::MimeType(m.clone()),
        ImageDataFormat::Unknown => ImageDataFormat::Unknown,
    }
}

/// A view-process event about images.
pub enum ImageViewEvent {
    /// The metadata of the view image was read.
    MetadataLoaded(u64),
    /// The view image was decoded, with its pixel size and decoded byte length.
    Loaded(u64, PxSize, usize),
    /// The view image could not be decoded.
    LoadError(u64, String),
    /// The view-process started as a generation; `true` when it restarted.
    Inited(u32, bool),
}

/// What the app does after the image manager handled an event.
pub enum ImageEventResponse {
    /// Notify the image, if one matched.
    Notify(Option<ImageVar>),
    /// A decoding finished, if one matched.
    Finished(bool),
    /// Ask the restarted view-process to decode these again.
    Redecode(Vec<RespawnRequest>),
    /// Nothing to do.
    Nothing,
}

/// Key of the image manager extension.
pub const IMAGE_MANAGER_ID: u64 = 0x1A6E_u64;

/// App extension that provides the image cache [`IMAGES`].
pub struct ImageManager {}

impl AppExtension for ImageManager {
    fn id(&self) -> u64 {
        IMAGE_MANAGER_ID
    }
}

impl ImageManager {
    /// The extension.
    pub fn new() -> (r: ImageManager) {
        ImageManager {}
    }

    /// Connects the cache to the view-process, when one is available.
    pub fn init(&mut self, images: &mut IMAGES, has_view: bool)
        ensures
            final(images)@ == (ImagesModel { has_view, ..old(images)@ }),
    {
        images.init(has_view);
    }

    /// Handles a view-process event: the image whose decoding read its metadata is
    /// notified; a decoded or failed view image finishes its decoding; a restarted
    /// view-process recovers the images; a first start asks nothing.
    pub fn event_preview(&mut self, images: &mut IMAGES, event: ImageViewEvent) -> (r: ImageEventResponse)
        requires
            old(images)@.wf(),
            event matches ImageViewEvent::Inited(_, true) ==> old(images)@.room(0),
        ensures
            final(images)@.wf(),
            match event {
                ImageViewEvent::MetadataLoaded(id) => {
                    &&& final(images)@ == old(images)@
                    &&& r == ImageEventResponse::Notify(
                        if exists|i: int| old(images)@.first_decoding(id, i) {
                            Some(old(images).decoding@[choose|i: int| old(images)@.first_decoding(id, i)].image)
                        } else {
                            None
                        },
                    )
                },
                ImageViewEvent::Loaded(id, size, len) => {
                    &&& final(images)@ == old(images)@.image_decoded(id, size, len).0
                    &&& r == ImageEventResponse::Finished(old(images)@.image_decoded(id, size, len).1)
                },
                ImageViewEvent::LoadError(id, error) => {
                    &&& final(images)@ == old(images)@.image_decode_error(id, error).0
                    &&& r == ImageEventResponse::Finished(old(images)@.image_decode_error(id, error).1)
                },
                ImageViewEvent::Inited(generation, is_respawn) => if is_respawn {
                    &&& final(images)@ == old(images)@.view_respawned(generation).0
                    &&& r matches ImageEventResponse::Redecode(reqs) && reqs@ == old(images)@.view_respawned(
                        generation,
                    ).1
                } else {
                    &&& final(images)@ == old(images)@
                    &&& r == ImageEventResponse::Nothing
                },
            },
    {
        match event {
            ImageViewEvent::MetadataLoaded(id) => ImageEventResponse::Notify(images.image_metadata_loaded(id)),
            ImageViewEvent::Loaded(id, size, len) => ImageEventResponse::Finished(images.image_decoded(id, size, len)),
            ImageViewEvent::LoadError(id, error) => ImageEventResponse::Finished(images.image_decode_error(id, error)),
            ImageViewEvent::Inited(generation, is_respawn) => if is_respawn {
                ImageEventResponse::Redecode(images.view_respawned(generation))
            } else {
                ImageEventResponse::Nothing
            },
        }
    }
}

/// After inserting an entry its key is cached with that entry, the keys stay unique, and
/// other keys keep their entries.
proof fn lemma_insert_entry(m: ImagesModel, e: CacheEntry)
    requires
        keys_unique(m.cache),
    ensures
        keys_unique(m.insert_entry(e).cache),
        m.insert_entry(e).cached(e.key),
        m.insert_entry(e).entry(e.key) == e,
        m.insert_entry(e).images == m.images,
{
    let r = m.insert_entry(e);
    if m.cached(e.key) {
        let p = key_pos(m.cache, e.key);
        assert(m.cache[p].key == e.key);
        let c = m.cache.update(p, e);
        assert(r.cache == c);
        assert forall|i: int, j: int| 0 <= i < j < c.len() implies (#[trigger] c[i]).key != (#[trigger] c[j]).key by {
            if i != p {
                assert(c[i] == m.cache[i]);
            }
            if j != p {
                assert(c[j] == m.cache[j]);
            }
            if i != p && j != p {
                assert(m.cache[i].key != m.cache[j].key);
            } else if i == p {
                assert(m.cache[p].key != m.cache[j].key);
            } else {
                assert(m.cache[i].key != m.cache[p].key);
            }
        }
        lemma_key_pos(c, p);
    } else {
        let c = m.cache.push(e);
        assert forall|i: int, j: int| 0 <= i < j < c.len() implies (#[trigger] c[i]).key != (#[trigger] c[j]).key by {
            if j == c.len() - 1 {
                assert(c[i] == m.cache[i]);
            }
        }
        lemma_key_pos(c, m.cache.len() as int);
    }
}

/// A cached image is found again: after a request in `Cache` mode the key is cached, and the
/// next request in `Cache` mode for that key, from any source, gets the same image.
pub proof fn law_cache_read_back(
    m: ImagesModel,
    key: ImageHash,
    source: ImageSource,
    limits: ImageLimits,
    downscale: Option<ImageDownscale>,
    source2: ImageSource,
    limits2: ImageLimits,
    downscale2: Option<ImageDownscale>,
)
    requires
        m.wf(),
    ensures
        m.proxied_get(key, source, ImageCacheMode::Cache, limits, downscale).0.cached(key),
        m.proxied_get(key, source, ImageCacheMode::Cache, limits, downscale).0.proxied_get(
            key,
            source2,
            ImageCacheMode::Cache,
            limits2,
            downscale2,
        ).1 == m.proxied_get(key, source, ImageCacheMode::Cache, limits, downscale).1,
{
    let (m1, v) = m.proxied_get(key, source, ImageCacheMode::Cache, limits, downscale);
    if m.cached(key) {
        assert(m1.cache == m.cache);
    } else if !m.has_view && !m.load_in_headless {
        let e = CacheEntry { key, image: m.next_var(), error: false, max_decoded_len: limits.max_decoded_len, downscale };
        lemma_insert_entry(m.push_image(loaded_dummy(), 2), e);
    } else {
        let c = m.cleanup(false);
        let e = CacheEntry {
            key,
            image: c.next_var(),
            error: false,
            max_decoded_len: limits.max_decoded_len,
            downscale,
        };
        lemma_insert_entry(c.push_image(Image { cache_key: Some(key), view: None, done: false }, 2), e);
    }
}

/// A purge leaves the key not cached, and tells if it was cached.
pub proof fn law_purge_uncaches(m: ImagesModel, key: ImageHash)
    requires
        m.wf(),
    ensures
        !m.proxied_remove(key, true).0.cached(key),
        m.proxied_remove(key, true).1 == m.cached(key),
{
    if m.cached(key) {
        let p = key_pos(m.cache, key);
        assert(m.cache[p].key == key);
        let c = m.cache.remove(p);
        assert(m.proxied_remove(key, true).0.cache == c);
        if has_key(c, key) {
            let i = choose|i: int| 0 <= i < c.len() && (#[trigger] c[i]).key == key;
            let i2 = if i < p { i } else { i + 1 };
            assert(c[i] == m.cache[i2]);
            if i2 < p {
                assert(m.cache[i2].key != m.cache[p].key);
            } else {
                assert(m.cache[p].key != m.cache[i2].key);
            }
        }
    }
}

/// A clean removes a cached image only when nothing but the cache references it; an image
/// referenced elsewhere stays cached.
pub proof fn law_clean_keeps_referenced(m: ImagesModel, key: ImageHash)
    requires
        m.wf(),
    ensures
        m.proxied_remove(key, false).1 <==> (m.cached(key) && m.strong[m.entry(key).image.id as int] <= 1),
        m.cached(key) && m.strong[m.entry(key).image.id as int] > 1 ==> m.proxied_remove(key, false).0 == m,
        m.proxied_remove(key, false).1 ==> !m.proxied_remove(key, false).0.cached(key),
{
    law_purge_uncaches(m, key);
}

/// After a clean of all, every cached image is referenced outside the cache; after a purge
/// of all, nothing is cached.
pub proof fn law_clean_all_purge_all(m: ImagesModel, key: ImageHash)
    requires
        m.wf(),
    ensures
        forall|i: int|
            0 <= i < m.clean_all().cache.len() ==> m.strong[(#[trigger] m.clean_all().cache[i]).image.id as int] > 1,
        !m.purge_all().cached(key),
{
    broadcast use vstd::seq_lib::group_filter_ensures;

    assert forall|i: int| 0 <= i < m.clean_all().cache.len() implies m.strong[(
    #[trigger] m.clean_all().cache[i]).image.id as int] > 1 by {
        m.cache.lemma_filter_pred(referenced(m.strong), i);
    }
}

/// Detaching gives an image that is not cached and shows the same view as the given one: an
/// image without a cache key is returned as it is; otherwise the copy has no cache key, and
/// when only the cache and the given handle held the image its key leaves the cache.
pub proof fn law_detach_uncached(m: ImagesModel, v: ImageVar)
    requires
        m.wf(),
        v.id < m.images.len(),
    ensures
        m.detach(v).1.id < m.detach(v).0.images.len(),
        m.detach(v).0.images[m.detach(v).1.id as int].cache_key is None,
        m.detach(v).0.cache_key(m.detach(v).0.images[m.detach(v).1.id as int]) is None,
        m.images[v.id as int].cache_key is None ==> m.detach(v) == (m, v),
        m.images[v.id as int].cache_key is Some ==> m.detach(v).0.images[m.detach(v).1.id as int] == (Image {
            cache_key: None,
            ..m.images[v.id as int]
        }),
        match m.images[v.id as int].cache_key {
            Some(k) => m.cached(k) && m.strong[v.id as int] == 2 ==> !m.detach(v).0.cached(k),
            None => true,
        },
{
    let img = m.images[v.id as int];
    if img.cache_key is Some {
        let key = img.cache_key->0;
        let m1 = if m.cached(key) && m.strong[v.id as int] == 2 {
            m.remove_entry(key)
        } else {
            m
        };
        if m.cached(key) && m.strong[v.id as int] == 2 {
            law_purge_uncaches(m, key);
            assert(m.proxied_remove(key, true).0 == m1);
        }
        assert(m1.images == m.images);
        let m2 = m1.release(v).push_image(Image { cache_key: None, ..img }, 1);
        assert(m2.images == m.images.push(Image { cache_key: None, ..img }));
        assert(m.detach(v).0.images == m2.images);
        assert(m.detach(v).0.cache == m1.cache);
        assert(m.detach(v).1 == m1.next_var());
    }
}

/// Setting entry `e` in a cache with unique keys: the keys stay unique, `e` is the entry of its
/// key, and every other key keeps its entry or its absence.
proof fn lemma_set_entry(c: Seq<CacheEntry>, e: CacheEntry)
    requires
        keys_unique(c),
    ensures
        ({
            let n = if has_key(c, e.key) { c.update(key_pos(c, e.key), e) } else { c.push(e) };
            &&& keys_unique(n)
            &&& has_key(n, e.key)
            &&& n[key_pos(n, e.key)] == e
            &&& forall|k: ImageHash|
                k != e.key ==> (has_key(n, k) == has_key(c, k) && (has_key(c, k) ==> n[key_pos(n, k)] == c[key_pos(
                    c,
                    k,
                )]))
        }),
{
    let m = ImagesModel {
        load_in_headless: false,
        limits: ImageLimits { max_encoded_len: ByteLength(0), max_decoded_len: ByteLength(0) },
        has_view: false,
        download_accept: Seq::empty(),
        images: Seq::empty(),
        strong: Seq::empty(),
        loading: Seq::empty(),
        decoding: Seq::empty(),
        cache: c,
        not_cached: Seq::empty(),
    };
    lemma_insert_entry(m, e);
    let n = if has_key(c, e.key) { c.update(key_pos(c, e.key), e) } else { c.push(e) };
    if has_key(c, e.key) {
        assert(m.insert_entry(e).cache == n);
    } else {
        assert(m.insert_entry(e).cache == n);
    }
    assert forall|k: ImageHash| k != e.key implies (has_key(n, k) == has_key(c, k) && (has_key(c, k) ==> n[key_pos(
        n,
        k,
    )] == c[key_pos(c, k)])) by {
        if has_key(c, k) {
            let p = key_pos(c, k);
            lemma_key_pos(c, p);
            assert(n[p] == c[p]);
            lemma_key_pos(n, p);
        }
        if has_key(n, k) {
            let q = choose|q: int| 0 <= q < n.len() && (#[trigger] n[q]).key == k;
            assert(n[q] == c[q]);
            assert(has_key(c, k));
        }
    }
}

/// Registering a view image under a key: the image that was cached under the key is handed
/// back, if any; afterwards the key is cached with a new image that shows the view image, and
/// every other key keeps its entry.
pub proof fn law_register_replaces(
    m: ImagesModel,
    key: ImageHash,
    view: ViewImage,
    downscale: Option<ImageDownscale>,
)
    requires
        m.wf(),
    ensures
        ({
            let (n, r) = m.register(key, view, downscale);
            &&& r is Some == m.cached(key)
            &&& r matches Some(old_image) ==> old_image == m.entry(key).image
            &&& n.cached(key)
            &&& n.entry(key).image == m.next_var()
            &&& n.images[m.images.len() as int] == (Image { cache_key: None, view: Some(view), done: true })
            &&& forall|k: ImageHash|
                k != key ==> (n.cached(k) == m.cached(k) && (m.cached(k) ==> n.entry(k) == m.entry(k)))
        }),
{
    let v = m.next_var();
    let max_decoded_len = if m.limits.max_decoded_len.0 >= view.decoded_len {
        m.limits.max_decoded_len
    } else {
        ByteLength(view.decoded_len)
    };
    let e = CacheEntry { key, image: v, error: view.error is Some, max_decoded_len, downscale };
    lemma_set_entry(m.cache, e);
    let (n, r) = m.register(key, view, downscale);
    assert(n.cache == (if has_key(m.cache, key) { m.cache.update(key_pos(m.cache, key), e) } else { m.cache.push(e) }));
}

/// Without a view-process and with loading in headless mode off, a request that misses the
/// cache gets a loaded dummy image, and nothing is loaded.
pub proof fn law_headless_dummy(
    m: ImagesModel,
    key: ImageHash,
    source: ImageSource,
    mode: ImageCacheMode,
    limits: ImageLimits,
    downscale: Option<ImageDownscale>,
)
    requires
        m.wf(),
        !m.has_view,
        !m.load_in_headless,
        !m.cached(key),
    ensures
        m.proxied_get(key, source, mode, limits, downscale).0.images[m.proxied_get(
            key,
            source,
            mode,
            limits,
            downscale,
        ).1.id as int] == loaded_dummy(),
        m.proxied_get(key, source, mode, limits, downscale).0.loading == m.loading,
{
    let v = m.next_var();
    let e = CacheEntry { key, image: v, error: false, max_decoded_len: limits.max_decoded_len, downscale };
    let m1 = m.push_image(loaded_dummy(), 2);
    lemma_insert_entry(m1, e);
    assert(m1.images == m.images.push(loaded_dummy()));
    assert(m.proxied_get(key, source, mode, limits, downscale).0 == m1.insert_entry(e));
    assert(m.proxied_get(key, source, mode, limits, downscale).1 == v);
}

/// A retry loads again an image whose cached copy failed: it does not get the failed image.
pub proof fn law_retry_reloads_failed(
    m: ImagesModel,
    key: ImageHash,
    source: ImageSource,
    limits: ImageLimits,
    downscale: Option<ImageDownscale>,
)
    requires
        m.wf(),
        m.cached(key),
        m.entry(key).error,
    ensures
        m.proxied_get(key, source, ImageCacheMode::Retry, limits, downscale).1 != m.entry(key).image,
{
    let p = key_pos(m.cache, key);
    assert(0 <= p < m.cache.len() && m.cache[p].key == key);
    assert(m.cache[p].image.id < m.images.len());
    let r = m.proxied_get(key, source, ImageCacheMode::Retry, limits, downscale);
    if !m.has_view && !m.load_in_headless {
        assert(r.1 == m.next_var());
    } else {
        let c = m.cleanup(false);
        assert(c.images == m.images);
        let n = m.new_cache_image(key, ImageCacheMode::Retry, limits.max_decoded_len, downscale);
        assert(n.1 == c.next_var());
        assert(m.load_task(key, ImageCacheMode::Retry, limits, downscale, source).1 == n.1);
        assert(r.1 == n.1);
    }
}

/// The decodings after recovering `vars` pair one for one with the requests made, when none
/// was listed before.
proof fn lemma_recover_all_pairs(
    m: ImagesModel,
    interrupted: Seq<ImageDecodingTask>,
    generation: u32,
    vars: Seq<ImageVar>,
)
    requires
        m.decoding.len() == 0,
    ensures
        ({
            let r = m.recover_all(interrupted, generation, vars);
            &&& r.0.decoding.len() == r.1.len()
            &&& forall|i: int|
                0 <= i < r.1.len() ==> (#[trigger] r.0.decoding[i]).image == r.1[i].image && r.0.decoding[i].format
                    == r.1[i].format
        }),
    decreases vars.len(),
{
    if vars.len() > 0 {
        lemma_recover_all_pairs(m, interrupted, generation, vars.drop_last());
        let before = m.recover_all(interrupted, generation, vars.drop_last());
        let step = before.0.recover(interrupted, generation, vars.last());
        let r = m.recover_all(interrupted, generation, vars);
        assert(r.0 == step.0);
        if step.1 is Some {
            assert(step.0.decoding == before.0.decoding.push(
                ImageDecodingTask { image: vars.last(), format: step.1->0.format },
            ));
            assert(r.1 == before.1.push(step.1->0));
        } else {
            assert(step.0.decoding == before.0.decoding);
        }
    }
}

/// Releasing the references of tasks changes nothing but strong counts.
proof fn lemma_release_tasks_counts_only(m: ImagesModel, tasks: Seq<ImageDecodingTask>)
    ensures
        m.release_tasks(tasks) == (ImagesModel { strong: m.release_tasks(tasks).strong, ..m }),
    decreases tasks.len(),
{
    if tasks.len() > 0 {
        lemma_release_tasks_counts_only(m, tasks.drop_last());
    }
}

/// After the view-process restarted, the decodings the cache waits for are exactly the
/// decodings asked of the new view-process, in the same order: no decoding of the old one
/// is left.
pub proof fn law_respawn_waits_only_on_requests(m: ImagesModel, generation: u32)
    ensures
        ({
            let (after, reqs) = m.view_respawned(generation);
            &&& after.decoding.len() == reqs.len()
            &&& forall|i: int|
                0 <= i < reqs.len() ==> (#[trigger] after.decoding[i]).image == reqs[i].image
                    && after.decoding[i].format == reqs[i].format
        }),
{
    let c = m.cleanup(true);
    let start = ImagesModel { download_accept: Seq::empty(), decoding: Seq::empty(), ..c };
    let vars = entry_images(c.cache, c.not_cached);
    lemma_recover_all_pairs(start, c.decoding, generation, vars);
    let r = start.recover_all(c.decoding, generation, vars);
    lemma_release_tasks_counts_only(r.0, c.decoding);
}

} // verus!
