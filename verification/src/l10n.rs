//! Localization state: the available languages and their loading status, the system and app
//! languages, message keys and lang resource handles.
//!
//! Languages are kept as their canonical BCP-47 text, as `unic_langid` parses and prints them.
use vstd::prelude::*;

use crate::app::AppExtension;

verus! {

/// The canonical text of a language identifier, `None` if the text is not one; named after
/// parsing with `unic_langid::LanguageIdentifier::from_str` and printing the result.
pub uninterp spec fn lang_canonical(text: Seq<char>) -> Option<Seq<char>>;

/// Parses a language identifier with `unic_langid::LanguageIdentifier::from_str` and returns
/// its canonical text (its `Display`); the result is named [`lang_canonical`].
#[verifier::external_body]
fn parse_lang(text: &str) -> (r: Option<String>)
    ensures
        match r {
            Some(c) => lang_canonical(text@) == Some(c@),
            None => lang_canonical(text@) is None,
        },
{
    text.parse::<unic_langid::LanguageIdentifier>().ok().map(|l| l.to_string())
}

/// A language, by its canonical identifier text.
pub struct Lang {
    pub tag: String,
}

impl Lang {
    /// Parses a language identifier; `None` if the text is not one.
    pub fn from_str(text: &str) -> (r: Option<Lang>)
        ensures
            match r {
                Some(l) => lang_canonical(text@) == Some(l.tag@),
                None => lang_canonical(text@) is None,
            },
    {
        match parse_lang(text) {
            Some(tag) => Some(Lang { tag }),
            None => None,
        }
    }

    /// A copy of the language.
    pub fn copy(&self) -> (r: Lang)
        ensures
            r.tag@ == self.tag@,
    {
        Lang { tag: self.tag.clone() }
    }
}

/// Languages in order of preference.
pub struct Langs(pub Vec<Lang>);

/// The tags of a list of languages.
pub open spec fn tags(langs: Seq<Lang>) -> Seq<Seq<char>> {
    langs.map_values(|l: Lang| l.tag@)
}

/// The values of the `Some` items, in order.
pub open spec fn somes(s: Seq<Option<Seq<char>>>) -> Seq<Seq<char>>
    decreases s.len(),
{
    if s.len() == 0 {
        Seq::empty()
    } else {
        match s.last() {
            Some(c) => somes(s.drop_last()).push(c),
            None => somes(s.drop_last()),
        }
    }
}

/// The tags of a list of parse results.
pub open spec fn opt_tags(s: Seq<Option<Lang>>) -> Seq<Option<Seq<char>>> {
    s.map_values(
        |o: Option<Lang>|
            match o {
                Some(l) => Some(l.tag@),
                None => None,
            },
    )
}

/// The canonical tags of the texts that are language identifiers, in order.
pub open spec fn parsed_langs(texts: Seq<Seq<char>>) -> Seq<Seq<char>> {
    somes(texts.map_values(|t: Seq<char>| lang_canonical(t)))
}

impl Langs {
    /// The languages of a list of parse results: the ones that parsed, in order.
    pub fn from_parsed(parsed: Vec<Option<Lang>>) -> (r: Langs)
        ensures
            tags(r.0@) == somes(opt_tags(parsed@)),
    {
        let ghost orig = opt_tags(parsed@);
        let ghost all = parsed@;
        let mut rest = parsed;
        let mut langs: Vec<Lang> = Vec::new();
        let total = rest.len();
        let mut k: usize = 0;
        while rest.len() > 0
            invariant
                all.len() == total,
                k + rest@.len() == total,
                rest@ == all.skip(k as int),
                orig == opt_tags(all),
                tags(langs@) == somes(orig.take(k as int)),
            decreases rest@.len(),
        {
            let x = rest.remove(0);
            let ghost before = langs@;
            proof {
                assert(all[k as int] == x);
                assert(rest@ =~= all.skip(k + 1));
                assert(orig.take(k + 1).drop_last() =~= orig.take(k as int));
                assert(orig.take(k + 1).last() == orig[k as int]);
            }
            match x {
                Some(l) => {
                    langs.push(l);
                    proof {
                        assert(tags(langs@) =~= tags(before).push(langs@.last().tag@));
                    }
                },
                None => {},
            }
            k = k + 1;
        }
        proof {
            assert(orig.take(total as int) =~= orig);
        }
        Langs(langs)
    }

    /// The languages of a system locale config: each text that is a language identifier, in
    /// order; the others are dropped.
    pub fn from_config(config: &Vec<String>) -> (r: Langs)
        ensures
            tags(r.0@) == parsed_langs(config@.map_values(|s: String| s@)),
    {
        let ghost texts = config@.map_values(|s: String| s@);
        let mut parsed: Vec<Option<Lang>> = Vec::new();
        let mut i: usize = 0;
        while i < config.len()
            invariant
                i <= config@.len(),
                texts == config@.map_values(|s: String| s@),
                parsed@.len() == i,
                forall|j: int| 0 <= j < i ==> #[trigger] opt_tags(parsed@)[j] == lang_canonical(texts[j]),
            decreases config@.len() - i,
        {
            let p = Lang::from_str(config[i].as_str());
            let ghost before = parsed@;
            parsed.push(p);
            proof {
                assert forall|j: int| 0 <= j < i + 1 implies #[trigger] opt_tags(parsed@)[j] == lang_canonical(texts[j]) by {
                    if j < i {
                        assert(parsed@[j] == before[j]);
                        assert(opt_tags(before)[j] == lang_canonical(texts[j]));
                    }
                }
            }
            i = i + 1;
        }
        proof {
            assert(opt_tags(parsed@) =~= texts.map_values(|t: Seq<char>| lang_canonical(t)));
        }
        Self::from_parsed(parsed)
    }

    /// A copy of the list.
    pub fn copy(&self) -> (r: Langs)
        ensures
            tags(r.0@) == tags(self.0@),
    {
        let mut v: Vec<Lang> = Vec::new();
        let mut i: usize = 0;
        while i < self.0.len()
            invariant
                i <= self.0@.len(),
                v@.len() == i,
                tags(v@) == tags(self.0@.take(i as int)),
            decreases self.0@.len() - i,
        {
            let ghost before = v@;
            v.push(self.0[i].copy());
            proof {
                assert forall|j: int| 0 <= j < v@.len() implies #[trigger] tags(v@)[j] == tags(self.0@.take(i + 1))[j] by {
                    if j < i {
                        assert(tags(before)[j] == tags(self.0@.take(i as int))[j]);
                    }
                }
                assert(tags(v@) =~= tags(self.0@.take(i + 1)));
            }
            i = i + 1;
        }
        proof {
            assert(self.0@.take(self.0@.len() as int) =~= self.0@);
        }
        Langs(v)
    }
}

/// An ASCII letter.
pub open spec fn is_letter(c: char) -> bool {
    ('a' <= c && c <= 'z') || ('A' <= c && c <= 'Z')
}

/// An ASCII letter or digit, `_` or `-`.
pub open spec fn is_id_char(c: char) -> bool {
    is_letter(c) || ('0' <= c && c <= '9') || c == '_' || c == '-'
}

/// A message identifier: `[a-zA-Z][a-zA-Z0-9_-]*`.
pub open spec fn valid_id(s: Seq<char>) -> bool {
    s.len() > 0 && is_letter(s[0]) && forall|i: int| 1 <= i < s.len() ==> is_id_char(#[trigger] s[i])
}

/// A resource file name: empty, or a single file name with no path separator.
pub open spec fn valid_file(s: Seq<char>) -> bool {
    forall|i: int| 0 <= i < s.len() ==> #[trigger] s[i] != '/' && s[i] != '\\'
}

fn char_is_letter(c: char) -> (r: bool)
    ensures
        r == is_letter(c),
{
    ('a' <= c && c <= 'z') || ('A' <= c && c <= 'Z')
}

/// If the text is a valid message identifier.
pub fn is_valid_id(s: &str) -> (r: bool)
    ensures
        r == valid_id(s@),
{
    let n = s.unicode_len();
    if n == 0 {
        return false;
    }
    if !char_is_letter(s.get_char(0)) {
        return false;
    }
    let mut i: usize = 1;
    while i < n
        invariant
            n == s@.len(),
            1 <= i <= n,
            forall|j: int| 1 <= j < i ==> is_id_char(#[trigger] s@[j]),
        decreases n - i,
    {
        let c = s.get_char(i);
        if !(char_is_letter(c) || ('0' <= c && c <= '9') || c == '_' || c == '-') {
            return false;
        }
        i = i + 1;
    }
    true
}

/// If the text is a valid resource file name.
pub fn is_valid_file(s: &str) -> (r: bool)
    ensures
        r == valid_file(s@),
{
    let n = s.unicode_len();
    let mut i: usize = 0;
    while i < n
        invariant
            n == s@.len(),
            i <= n,
            forall|j: int| 0 <= j < i ==> #[trigger] s@[j] != '/' && s@[j] != '\\',
        decreases n - i,
    {
        let c = s.get_char(i);
        if c == '/' || c == '\\' {
            return false;
        }
        i = i + 1;
    }
    true
}

/// Status of a localization resource.
pub enum LangResourceStatus {
    /// Nothing to load.
    NotAvailable,
    /// Loading.
    Loading,
    /// Loaded.
    Loaded,
    /// Loading failed, with the error messages.
    Errors(Vec<String>),
}

/// A message request: the key, the fallback text and the named arguments.
pub struct L10nMessageBuilder {
    pub file: String,
    pub id: String,
    pub attribute: String,
    pub fallback: String,
    pub args: Vec<(String, String)>,
}

impl L10nMessageBuilder {
    /// Adds a named format argument.
    pub fn arg(self, name: String, value: String) -> (r: L10nMessageBuilder)
        ensures
            r.file == self.file && r.id == self.id && r.attribute == self.attribute && r.fallback == self.fallback,
            r.args@ == self.args@.push((name, value)),
    {
        let mut s = self;
        s.args.push((name, value));
        s
    }
}

/// A lang resource and how many handles keep it loaded.
pub struct LangResource {
    pub lang: Lang,
    pub file: String,
    pub handles: usize,
    pub status: LangResourceStatus,
}

/// Keeps a lang resource loaded while it lives; give it back with [`L10N::drop_resource`].
pub struct LangResourceHandle {
    pub index: usize,
}

/// Localization state.
pub struct L10N {
    /// Directory of the localization files, once set.
    pub dir: Option<String>,
    /// Each available lang with its files (name and path).
    pub available_langs: Vec<(Lang, Vec<(String, String)>)>,
    /// Status of the available langs list.
    pub available_langs_status: LangResourceStatus,
    /// The system languages.
    pub sys_lang: Langs,
    /// The app languages.
    pub app_lang: Langs,
    /// The app languages follow the system languages until they are set directly.
    pub app_lang_is_sys: bool,
    /// Lang resources with live handles.
    pub resources: Vec<LangResource>,
}

impl L10N {
    /// No localization directory, no languages.
    pub fn new() -> (r: L10N)
        ensures
            r.dir is None,
            r.available_langs@.len() == 0,
            r.available_langs_status is NotAvailable,
            r.sys_lang.0@.len() == 0,
            r.app_lang.0@.len() == 0,
            r.app_lang_is_sys,
            r.resources@.len() == 0,
    {
        L10N {
            dir: None,
            available_langs: Vec::new(),
            available_langs_status: LangResourceStatus::NotAvailable,
            sys_lang: Langs(Vec::new()),
            app_lang: Langs(Vec::new()),
            app_lang_is_sys: true,
            resources: Vec::new(),
        }
    }

    /// Starts watching `dir` for localization files: the available langs are loading.
    pub fn load_dir(&mut self, dir: String)
        ensures
            final(self).dir == Some(dir),
            final(self).available_langs_status is Loading,
            final(self).available_langs == old(self).available_langs,
            final(self).sys_lang == old(self).sys_lang,
            final(self).app_lang == old(self).app_lang,
            final(self).app_lang_is_sys == old(self).app_lang_is_sys,
            final(self).resources == old(self).resources,
    {
        self.dir = Some(dir);
        self.available_langs_status = LangResourceStatus::Loading;
    }

    /// The directory was read: the available langs and their files.
    pub fn available_langs_loaded(&mut self, langs: Vec<(Lang, Vec<(String, String)>)>)
        ensures
            final(self).available_langs == langs,
            final(self).available_langs_status is Loaded,
            final(self).dir == old(self).dir,
            final(self).sys_lang == old(self).sys_lang,
            final(self).app_lang == old(self).app_lang,
            final(self).app_lang_is_sys == old(self).app_lang_is_sys,
            final(self).resources == old(self).resources,
    {
        self.available_langs = langs;
        self.available_langs_status = LangResourceStatus::Loaded;
    }

    /// The directory could not be read.
    pub fn available_langs_failed(&mut self, errors: Vec<String>)
        ensures
            final(self).available_langs_status == LangResourceStatus::Errors(errors),
            final(self).available_langs == old(self).available_langs,
            final(self).dir == old(self).dir,
            final(self).sys_lang == old(self).sys_lang,
            final(self).app_lang == old(self).app_lang,
            final(self).app_lang_is_sys == old(self).app_lang_is_sys,
            final(self).resources == old(self).resources,
    {
        self.available_langs_status = LangResourceStatus::Errors(errors);
    }

    /// The available localization files, by lang.
    pub fn available_langs(&self) -> (r: &Vec<(Lang, Vec<(String, String)>)>)
        ensures
            *r == self.available_langs,
    {
        &self.available_langs
    }

    /// Status of the available langs: not available before [`L10N::load_dir`], then loading,
    /// then loaded or the errors.
    pub fn available_langs_status(&self) -> (r: &LangResourceStatus)
        ensures
            *r == self.available_langs_status,
    {
        &self.available_langs_status
    }

    /// The system languages.
    pub fn sys_lang(&self) -> (r: &Langs)
        ensures
            *r == self.sys_lang,
    {
        &self.sys_lang
    }

    /// The app languages: the system languages until they are set directly.
    pub fn app_lang(&self) -> (r: &Langs)
        ensures
            *r == self.app_lang,
    {
        &self.app_lang
    }

    /// Sets the app languages; they stop following the system languages.
    pub fn set_app_lang(&mut self, langs: Langs)
        ensures
            final(self).app_lang == langs,
            !final(self).app_lang_is_sys,
            final(self).sys_lang == old(self).sys_lang,
            final(self).dir == old(self).dir,
            final(self).available_langs == old(self).available_langs,
            final(self).available_langs_status == old(self).available_langs_status,
            final(self).resources == old(self).resources,
    {
        self.app_lang = langs;
        self.app_lang_is_sys = false;
    }

    /// The system locale config changed to `config`: the system languages are its valid
    /// language identifiers, and the app languages follow them unless set directly.
    pub fn sys_lang_changed(&mut self, config: &Vec<String>)
        ensures
            tags(final(self).sys_lang.0@) == parsed_langs(config@.map_values(|s: String| s@)),
            final(self).app_lang_is_sys == old(self).app_lang_is_sys,
            old(self).app_lang_is_sys ==> tags(final(self).app_lang.0@) == tags(final(self).sys_lang.0@),
            !old(self).app_lang_is_sys ==> final(self).app_lang == old(self).app_lang,
            final(self).dir == old(self).dir,
            final(self).available_langs == old(self).available_langs,
            final(self).available_langs_status == old(self).available_langs_status,
            final(self).resources == old(self).resources,
    {
        let langs = Langs::from_config(config);
        if self.app_lang_is_sys {
            self.app_lang = langs.copy();
        }
        self.sys_lang = langs;
    }

    /// A message request by key, validated: the file must be a single file name, the id an
    /// identifier, and the attribute empty or an identifier.
    pub fn message(&self, file: String, id: String, attribute: String, fallback: String) -> (r: L10nMessageBuilder)
        requires
            valid_file(file@),
            valid_id(id@),
            attribute@.len() == 0 || valid_id(attribute@),
        ensures
            r.file == file && r.id == id && r.attribute == attribute && r.fallback == fallback,
            r.args@.len() == 0,
    {
        L10nMessageBuilder { file, id, attribute, fallback, args: Vec::new() }
    }

    /// A message request by a key that was validated at compile time.
    pub fn l10n_message(&self, file: &str, id: &str, attribute: &str, fallback: &str) -> (r: L10nMessageBuilder)
        ensures
            r.file@ == file@ && r.id@ == id@ && r.attribute@ == attribute@ && r.fallback@ == fallback@,
            r.args@.len() == 0,
    {
        L10nMessageBuilder {
            file: String::from_str(file),
            id: String::from_str(id),
            attribute: String::from_str(attribute),
            fallback: String::from_str(fallback),
            args: Vec::new(),
        }
    }

    /// If `file` of `lang` is among the available files.
    pub open spec fn file_available(&self, lang: Seq<char>, file: Seq<char>) -> bool {
        exists|i: int, j: int|
            0 <= i < self.available_langs@.len() && 0 <= j < self.available_langs@[i].1@.len()
                && (#[trigger] self.available_langs@[i]).0.tag@ == lang && (#[trigger] self.available_langs@[i].1@[j]).0@ == file
    }

    fn is_available(&self, lang: &Lang, file: &str) -> (r: bool)
        ensures
            r == self.file_available(lang.tag@, file@),
    {
        let mut i: usize = 0;
        while i < self.available_langs.len()
            invariant
                i <= self.available_langs@.len(),
                forall|a: int, b: int|
                    0 <= a < i && 0 <= b < self.available_langs@[a].1@.len() ==> !((#[trigger] self.available_langs@[a]).0.tag@
                        == lang.tag@ && (#[trigger] self.available_langs@[a].1@[b]).0@ == file@),
            decreases self.available_langs@.len() - i,
        {
            if crate::property::str_eq(self.available_langs[i].0.tag.as_str(), lang.tag.as_str()) {
                let files = &self.available_langs[i].1;
                let mut j: usize = 0;
                while j < files.len()
                    invariant
                        j <= files@.len(),
                        i < self.available_langs@.len(),
                        *files == self.available_langs@[i as int].1,
                        self.available_langs@[i as int].0.tag@ == lang.tag@,
                        forall|b: int| 0 <= b < j ==> (#[trigger] files@[b]).0@ != file@,
                    decreases files@.len() - j,
                {
                    if crate::property::str_eq(files[j].0.as_str(), file) {
                        assert(self.available_langs@[i as int].1@[j as int] == files@[j as int]);
                        return true;
                    }
                    j = j + 1;
                }
            }
            i = i + 1;
        }
        false
    }

    /// If resource `i` is `file` of `lang`.
    pub open spec fn is_resource(&self, i: int, lang: Seq<char>, file: Seq<char>) -> bool {
        self.resources@[i].lang.tag@ == lang && self.resources@[i].file@ == file
    }

    /// A handle that keeps `file` of `lang` loaded. The first resource of that file gets one
    /// more handle (and starts loading again if it was unloaded); a new resource is loading
    /// if the file is available, else not available.
    pub fn lang_resource(&mut self, lang: Lang, file: String) -> (r: LangResourceHandle)
        requires
            valid_file(file@),
            old(self).resources@.len() < usize::MAX,
            forall|i: int| 0 <= i < old(self).resources@.len() ==> (#[trigger] old(self).resources@[i]).handles < usize::MAX,
        ensures
            r.index < final(self).resources@.len(),
            final(self).is_resource(r.index as int, lang.tag@, file@),
            final(self).resources@[r.index as int].handles >= 1,
            forall|j: int| 0 <= j < r.index ==> !#[trigger] old(self).is_resource(j, lang.tag@, file@),
            r.index < old(self).resources@.len() ==> {
                &&& old(self).is_resource(r.index as int, lang.tag@, file@)
                &&& final(self).resources@[r.index as int].handles == old(self).resources@[r.index as int].handles + 1
                &&& final(self).resources@.len() == old(self).resources@.len()
                &&& forall|j: int| 0 <= j < old(self).resources@.len() && j != r.index ==> #[trigger] final(self).resources@[j]
                    == old(self).resources@[j]
            },
            r.index == old(self).resources@.len() ==> {
                &&& final(self).resources@.len() == old(self).resources@.len() + 1
                &&& final(self).resources@[r.index as int].handles == 1
                &&& (if old(self).file_available(lang.tag@, file@) {
                    final(self).resources@[r.index as int].status is Loading
                } else {
                    final(self).resources@[r.index as int].status is NotAvailable
                })
                &&& forall|j: int| 0 <= j < old(self).resources@.len() ==> #[trigger] final(self).resources@[j]
                    == old(self).resources@[j]
            },
            r.index <= old(self).resources@.len(),
            final(self).dir == old(self).dir,
            final(self).available_langs == old(self).available_langs,
            final(self).available_langs_status == old(self).available_langs_status,
            final(self).sys_lang == old(self).sys_lang,
            final(self).app_lang == old(self).app_lang,
            final(self).app_lang_is_sys == old(self).app_lang_is_sys,
    {
        let mut i: usize = 0;
        while i < self.resources.len()
            invariant
                i <= self.resources@.len(),
                *self == *old(self),
                forall|j: int| 0 <= j < old(self).resources@.len() ==> (#[trigger] old(self).resources@[j]).handles < usize::MAX,
                forall|j: int| 0 <= j < i ==> !#[trigger] self.is_resource(j, lang.tag@, file@),
            decreases self.resources@.len() - i,
        {
            if crate::property::str_eq(self.resources[i].lang.tag.as_str(), lang.tag.as_str())
                && crate::property::str_eq(self.resources[i].file.as_str(), file.as_str()) {
                let available = self.is_available(&lang, file.as_str());
                let mut res = LangResource {
                    lang: Lang { tag: String::new() },
                    file: String::new(),
                    handles: 0,
                    status: LangResourceStatus::NotAvailable,
                };
                self.resources.set_and_swap(i, &mut res);
                if res.handles == 0 {
                    res.status = if available {
                        LangResourceStatus::Loading
                    } else {
                        LangResourceStatus::NotAvailable
                    };
                }
                res.handles = res.handles + 1;
                self.resources.set_and_swap(i, &mut res);
                return LangResourceHandle { index: i };
            }
            i = i + 1;
        }
        let status = if self.is_available(&lang, file.as_str()) {
            LangResourceStatus::Loading
        } else {
            LangResourceStatus::NotAvailable
        };
        let index = self.resources.len();
        self.resources.push(LangResource { lang, file, handles: 1, status });
        LangResourceHandle { index }
    }

    /// Gives back a handle: the resource is unloaded when its last handle is dropped.
    pub fn drop_resource(&mut self, handle: LangResourceHandle)
        requires
            handle.index < old(self).resources@.len(),
        ensures
            final(self).resources@.len() == old(self).resources@.len(),
            forall|j: int| 0 <= j < old(self).resources@.len() && j != handle.index ==> #[trigger] final(self).resources@[j]
                == old(self).resources@[j],
            final(self).is_resource(
                handle.index as int,
                old(self).resources@[handle.index as int].lang.tag@,
                old(self).resources@[handle.index as int].file@,
            ),
            final(self).resources@[handle.index as int].handles == if old(self).resources@[handle.index as int].handles > 0 {
                old(self).resources@[handle.index as int].handles - 1
            } else {
                0
            },
            final(self).resources@[handle.index as int].handles == 0 ==> final(self).resources@[handle.index as int].status is NotAvailable,
            final(self).resources@[handle.index as int].handles > 0 ==> final(self).resources@[handle.index as int].status
                == old(self).resources@[handle.index as int].status,
            final(self).dir == old(self).dir,
            final(self).available_langs == old(self).available_langs,
            final(self).available_langs_status == old(self).available_langs_status,
            final(self).sys_lang == old(self).sys_lang,
            final(self).app_lang == old(self).app_lang,
            final(self).app_lang_is_sys == old(self).app_lang_is_sys,
    {
        let i = handle.index;
        let mut res = LangResource {
            lang: Lang { tag: String::new() },
            file: String::new(),
            handles: 0,
            status: LangResourceStatus::NotAvailable,
        };
        self.resources.set_and_swap(i, &mut res);
        if res.handles > 0 {
            res.handles = res.handles - 1;
        }
        if res.handles == 0 {
            res.status = LangResourceStatus::NotAvailable;
        }
        self.resources.set_and_swap(i, &mut res);
    }

    /// The resource at `index` finished loading, or failed with errors.
    pub fn resource_loaded(&mut self, index: usize, result: Result<(), Vec<String>>)
        requires
            index < old(self).resources@.len(),
        ensures
            final(self).resources@.len() == old(self).resources@.len(),
            forall|j: int| 0 <= j < old(self).resources@.len() && j != index ==> #[trigger] final(self).resources@[j]
                == old(self).resources@[j],
            final(self).resources@[index as int].lang == old(self).resources@[index as int].lang,
            final(self).resources@[index as int].file == old(self).resources@[index as int].file,
            final(self).resources@[index as int].handles == old(self).resources@[index as int].handles,
            old(self).resources@[index as int].handles == 0 ==> final(self).resources@[index as int].status == old(
                self,
            ).resources@[index as int].status,
            old(self).resources@[index as int].handles > 0 ==> final(self).resources@[index as int].status == (match result {
                Ok(()) => LangResourceStatus::Loaded,
                Err(e) => LangResourceStatus::Errors(e),
            }),
            final(self).dir == old(self).dir,
            final(self).available_langs == old(self).available_langs,
            final(self).available_langs_status == old(self).available_langs_status,
            final(self).sys_lang == old(self).sys_lang,
            final(self).app_lang == old(self).app_lang,
            final(self).app_lang_is_sys == old(self).app_lang_is_sys,
    {
        let mut res = LangResource {
            lang: Lang { tag: String::new() },
            file: String::new(),
            handles: 0,
            status: LangResourceStatus::NotAvailable,
        };
        self.resources.set_and_swap(index, &mut res);
        if res.handles > 0 {
            res.status = match result {
                Ok(()) => LangResourceStatus::Loaded,
                Err(e) => LangResourceStatus::Errors(e),
            };
        }
        self.resources.set_and_swap(index, &mut res);
    }
}

/// If `name` is a localization file name: it ends with the `.ftl` extension after at least
/// one other char.
pub open spec fn is_ftl_name(name: Seq<char>) -> bool {
    name.len() > 4 && name.subrange(name.len() - 4, name.len() as int) == ".ftl"@
}

/// The stem of a localization file name, `None` if the name is not one.
pub fn ftl_stem(name: &str) -> (r: Option<String>)
    ensures
        match r {
            Some(s) => is_ftl_name(name@) && s@ == name@.subrange(0, name@.len() - 4),
            None => !is_ftl_name(name@),
        },
{
    proof {
        reveal_strlit(".ftl");
    }
    let n = name.unicode_len();
    if n <= 4 {
        return None;
    }
    let ext = name.substring_char(n - 4, n);
    if crate::property::str_eq(ext, ".ftl") {
        Some(String::from_str(name.substring_char(0, n - 4)))
    } else {
        None
    }
}

/// An entry of the localization directory.
pub enum LangDirEntry {
    /// A directory named by a language: it holds that language's files.
    Dir(Lang),
    /// A `{lang}.ftl` file: the language's only file.
    File(Lang),
    /// Anything else, ignored.
    Other,
}

/// What a localization directory entry named `name` is: a directory whose name is a language,
/// a file `{lang}.ftl`, or something to ignore.
pub fn lang_dir_entry(name: &str, is_dir: bool) -> (r: LangDirEntry)
    ensures
        is_dir ==> match r {
            LangDirEntry::Dir(l) => lang_canonical(name@) == Some(l.tag@),
            LangDirEntry::Other => lang_canonical(name@) is None,
            LangDirEntry::File(_) => false,
        },
        !is_dir ==> match r {
            LangDirEntry::File(l) => is_ftl_name(name@) && lang_canonical(name@.subrange(0, name@.len() - 4)) == Some(
                l.tag@,
            ),
            LangDirEntry::Other => !is_ftl_name(name@) || lang_canonical(name@.subrange(0, name@.len() - 4)) is None,
            LangDirEntry::Dir(_) => false,
        },
{
    if is_dir {
        match Lang::from_str(name) {
            Some(l) => LangDirEntry::Dir(l),
            None => LangDirEntry::Other,
        }
    } else {
        match ftl_stem(name) {
            Some(stem) => match Lang::from_str(stem.as_str()) {
                Some(l) => LangDirEntry::File(l),
                None => LangDirEntry::Other,
            },
            None => LangDirEntry::Other,
        }
    }
}

/// Key of the localization manager extension.
pub const L10N_MANAGER_ID: u64 = 0x110E_u64;

/// App extension that provides the localization state [`L10N`].
pub struct L10nManager {}

impl AppExtension for L10nManager {
    fn id(&self) -> u64 {
        L10N_MANAGER_ID
    }
}

impl L10nManager {
    /// The extension.
    pub fn new() -> (r: L10nManager) {
        L10nManager {}
    }

    /// The view-process reported its locale config, because it changed or because the
    /// view-process started: the system languages are its valid language identifiers (see
    /// [`L10N::sys_lang_changed`]).
    pub fn event_preview(&mut self, l10n: &mut L10N, config: &Vec<String>)
        ensures
            tags(final(l10n).sys_lang.0@) == parsed_langs(config@.map_values(|s: String| s@)),
            final(l10n).app_lang_is_sys == old(l10n).app_lang_is_sys,
            old(l10n).app_lang_is_sys ==> tags(final(l10n).app_lang.0@) == tags(final(l10n).sys_lang.0@),
            !old(l10n).app_lang_is_sys ==> final(l10n).app_lang == old(l10n).app_lang,
            final(l10n).dir == old(l10n).dir,
            final(l10n).available_langs == old(l10n).available_langs,
            final(l10n).available_langs_status == old(l10n).available_langs_status,
            final(l10n).resources == old(l10n).resources,
    {
        l10n.sys_lang_changed(config);
    }
}

} // verus!
