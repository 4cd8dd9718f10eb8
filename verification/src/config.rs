//! The settings, the addresses they lead to, and what the environment overrides.

use crate::text::{
    blank, only_trailing_characters_go, trim, trim_end_char, trimmed, trimming_takes_white_space_only,
    without_trailing,
};
use vstd::prelude::*;
use vstd::string::*;

verus! {

#[derive(Debug, Clone)]
pub struct Config {
    /// The API key of the open platform (`id.secret`).
    pub api_key: String,
    /// `https://open.bigmodel.cn` or `https://api.z.ai`.
    pub base_url: String,
    /// The model that the activating request names.
    pub model: String,
    /// The `max_tokens` of the activating request.
    pub max_tokens: u32,
    /// Seconds between two refreshes.
    pub interval_secs: u64,
    /// The template of the text in the tray.
    pub tray_title: String,
    /// Whether windows are activated without being asked.
    pub auto_activate: bool,
    /// The time of day (`HH:MM`) from which refreshes are counted.
    pub refresh_align: Option<String>,
    /// The times of day (`HH:MM`) at which a window is activated.
    pub activate_at: Vec<String>,
}

impl Default for Config {
    fn default() -> (cfg: Self)
        ensures
            cfg.api_key@ == ""@,
            cfg.base_url@ == "https://open.bigmodel.cn"@,
            cfg.rest_is_default(),
    {
        Config {
            api_key: "".to_owned(),
            base_url: "https://open.bigmodel.cn".to_owned(),
            model: "glm-5.2".to_owned(),
            max_tokens: 8,
            interval_secs: 300,
            tray_title: "".to_owned(),
            auto_activate: false,
            refresh_align: None,
            activate_at: Vec::new(),
        }
    }
}

/// An address below the base address, with any slashes at the end of the base left out.
pub open spec fn url_at(base: Seq<char>, path: Seq<char>) -> Seq<char> {
    without_trailing(base, '/') + path
}

impl Config {
    /// Everything but the key and the base address is as it is without a file.
    pub open spec fn rest_is_default(self) -> bool {
        &&& self.model@ == "glm-5.2"@
        &&& self.max_tokens == 8
        &&& self.interval_secs == 300
        &&& self.tray_title@ == ""@
        &&& !self.auto_activate
        &&& self.refresh_align is None
        &&& self.activate_at@.len() == 0
    }

    /// The key without the white space around it.
    pub open spec fn key_text(self) -> Seq<char> {
        trimmed(self.api_key@)
    }

    /// There is a key.
    pub open spec fn has_key(self) -> bool {
        self.key_text().len() > 0
    }

    fn url(&self, path: &str) -> (r: String)
        ensures
            r@ == url_at(self.base_url@, path@),
    {
        let mut url = trim_end_char(self.base_url.as_str(), '/');
        url.append(path);
        url
    }

    /// Where the quota is asked for.
    pub fn monitor_url(&self) -> (r: String)
        ensures
            r@ == url_at(self.base_url@, "/api/monitor/usage/quota/limit"@),
    {
        self.url("/api/monitor/usage/quota/limit")
    }

    /// Where the activating request goes.
    pub fn chat_url(&self) -> (r: String)
        ensures
            r@ == url_at(self.base_url@, "/api/coding/paas/v4/chat/completions"@),
    {
        self.url("/api/coding/paas/v4/chat/completions")
    }

    /// Where the reset cards are listed.
    pub fn reset_list_url(&self) -> (r: String)
        ensures
            r@ == url_at(
                self.base_url@,
                "/api/biz/customer-package-reset/list?targetType=PERSONAL"@,
            ),
    {
        self.url("/api/biz/customer-package-reset/list?targetType=PERSONAL")
    }

    /// Where a reset card is used.
    pub fn reset_use_url(&self) -> (r: String)
        ensures
            r@ == url_at(self.base_url@, "/api/biz/customer-package-reset/use"@),
    {
        self.url("/api/biz/customer-package-reset/use")
    }

    /// The key that requests carry.
    pub fn bearer_key(&self) -> (r: String)
        ensures
            r@ == self.key_text(),
    {
        trim(self.api_key.as_str())
    }

    /// Whether there is a key.
    pub fn configured(&self) -> (r: bool)
        ensures
            r == self.has_key(),
    {
        !self.bearer_key().as_str().is_empty()
    }

    /// Whether an override says anything.
    pub open spec fn overrides(value: Option<String>) -> bool {
        value is Some && trimmed(value->0@).len() > 0
    }

    /// The settings in force: those of the file, or the defaults where there is no file that could
    /// be read, with the key and the base address of the environment in place of the file's where
    /// the environment gives more than white space.
    pub fn in_force(file: Option<Config>, api_key: Option<String>, base_url: Option<String>) -> (r:
        Config)
        ensures
            Config::overrides(api_key) ==> r.api_key@ == trimmed(api_key->0@),
            Config::overrides(base_url) ==> r.base_url@ == trimmed(base_url->0@),
            file matches Some(f) ==> {
                &&& !Config::overrides(api_key) ==> r.api_key == f.api_key
                &&& !Config::overrides(base_url) ==> r.base_url == f.base_url
                &&& r == (Config { api_key: r.api_key, base_url: r.base_url, ..f })
            },
            file is None ==> {
                &&& !Config::overrides(api_key) ==> r.api_key@ == ""@
                &&& !Config::overrides(base_url) ==> r.base_url@ == "https://open.bigmodel.cn"@
                &&& r.rest_is_default()
            },
    {
        let mut cfg = match file {
            Some(f) => f,
            None => Config::default(),
        };
        if let Some(k) = api_key {
            let k = trim(k.as_str());
            if !k.as_str().is_empty() {
                cfg.api_key = k;
            }
        }
        if let Some(u) = base_url {
            let u = trim(u.as_str());
            if !u.as_str().is_empty() {
                cfg.base_url = u;
            }
        }
        cfg
    }
}

/// Slashes at the end of the base address do not matter.
pub proof fn slashes_at_the_end_do_not_matter(base: Seq<char>, path: Seq<char>)
    ensures
        url_at(base.push('/'), path) == url_at(base, path),
{
    assert(base.push('/').drop_last() =~= base);
}

/// An address is the base up to its last character that is no slash, with the path behind it.
pub proof fn addresses_stand_below_the_base(base: Seq<char>, path: Seq<char>) -> (n: int)
    ensures
        0 <= n <= base.len(),
        url_at(base, path) == base.subrange(0, n) + path,
        forall|i: int| n <= i < base.len() ==> #[trigger] base[i] == '/',
        n > 0 ==> base[n - 1] != '/',
{
    let n = only_trailing_characters_go(base, '/');
    assert(base.take(n) =~= base.subrange(0, n));
    n
}

/// There is a key exactly where something else than white space was given as one. A key that has no
/// white space at its ends is carried as it is.
pub proof fn a_key_is_more_than_white_space(cfg: Config)
    ensures
        cfg.has_key() <==> exists|i: int|
            0 <= i < cfg.api_key@.len() && !blank(#[trigger] cfg.api_key@[i]),
        cfg.api_key@.len() > 0 && !blank(cfg.api_key@[0]) && !blank(cfg.api_key@.last())
            ==> cfg.key_text() == cfg.api_key@,
{
    let s = cfg.api_key@;
    let (from, to) = trimming_takes_white_space_only(s);
    if cfg.has_key() {
        assert(!blank(s[from]));
    }
    if s.len() > 0 && !blank(s[0]) && !blank(s.last()) {
        assert(from == 0);
        assert(to == s.len());
        assert(s.subrange(from, to) =~= s);
    }
}

/// The environment overrides a setting exactly where it gives something else than white space.
pub proof fn white_space_overrides_nothing(value: Option<String>)
    ensures
        Config::overrides(value) <==> value is Some && exists|i: int|
            0 <= i < value->0@.len() && !blank(#[trigger] value->0@[i]),
{
    if let Some(text) = value {
        let (from, to) = trimming_takes_white_space_only(text@);
        if from < to {
            assert(!blank(text@[from]));
        }
    }
}

/// Where nothing else is given, the quota is refreshed every five minutes, an activating request
/// allows eight tokens, and nothing is activated without being asked for.
pub proof fn settings_that_are_not_given(cfg: Config)
    requires
        cfg.rest_is_default(),
    ensures
        cfg.interval_secs == 5 * 60,
        cfg.max_tokens == 8,
        cfg.model@ == "glm-5.2"@,
        cfg.tray_title@ == ""@,
        cfg.auto_activate == false,
        cfg.refresh_align == None::<String>,
        cfg.activate_at@ == Seq::<String>::empty(),
{
    assert(cfg.activate_at@ =~= Seq::<String>::empty());
}

} // verus!
