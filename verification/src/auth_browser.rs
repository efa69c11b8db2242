//! The embedded browser used for OAuth logins: its configuration, the record
//! of open windows, the watch over its navigation, and the autofill script.
//!
//! Opening, focusing and closing windows is the application's work; here are
//! the decisions it follows.

use vstd::prelude::*;

use crate::crypto::{is_uuid_v4_text, new_uuid_v4};
use crate::keyed::{find_key, index_of_first, key_views, lemma_contains_push, lemma_index_of_first_spec};
use crate::text::{concat, contains_str, contains_text, occurs_at, owned, str_eq};
use crate::vscode_copilot_config::string_views;

verus! {

/// Prefix of the labels of browser windows.
pub const AUTH_BROWSER_LABEL_PREFIX: &'static str = "auth-browser-";

/// Chrome user agent presented on macOS.
pub const CHROME_USER_AGENT: &'static str = "Mozilla/5.0 (Macintosh; Intel Mac OS X 10_15_7) AppleWebKit/537.36 (KHTML, like Gecko) Chrome/131.0.0.0 Safari/537.36";

/// Chrome user agent presented on Windows.
pub const CHROME_USER_AGENT_WINDOWS: &'static str = "Mozilla/5.0 (Windows NT 10.0; Win64; x64) AppleWebKit/537.36 (KHTML, like Gecko) Chrome/131.0.0.0 Safari/537.36";

/// Chrome user agent presented on Linux.
pub const CHROME_USER_AGENT_LINUX: &'static str = "Mozilla/5.0 (X11; Linux x86_64) AppleWebKit/537.36 (KHTML, like Gecko) Chrome/131.0.0.0 Safari/537.36";

/// URL fragment that GitHub's device flow shows once it is authorized.
pub const GITHUB_DEVICE_SUCCESS_PATTERN: &'static str = "github.com/login/device/success";

/// How many times the navigation is checked (every 500 ms, so five minutes).
pub const MAX_NAVIGATION_CHECKS: u32 = 600;

/// Configuration of a login browser window.
#[derive(Debug, Clone)]
pub struct AuthBrowserConfig {
    /// Initial URL.
    pub url: String,
    /// Window title.
    pub title: String,
    /// Provider the login is for (used to find saved credentials).
    pub provider: String,
    /// Part of the URL that shows the login succeeded.
    pub success_url_pattern: Option<String>,
    /// Whether saved credentials are filled in.
    pub enable_autofill: bool,
    /// User name to fill in.
    pub prefill_username: Option<String>,
    /// Password to fill in.
    pub prefill_password: Option<String>,
}

/// State of a login browser window.
#[derive(Debug)]
pub struct AuthBrowserStatus {
    pub label: String,
    pub current_url: String,
    pub is_authorized: bool,
    pub auth_code: Option<String>,
}

/// Events sent to the front end about a login browser.
#[derive(Debug)]
pub enum AuthBrowserEvent {
    /// The window's URL changed.
    UrlChanged { url: String },
    /// The login succeeded, with the authorization code when the URL had one.
    AuthCompleted { code: Option<String> },
    /// The window was closed.
    Closed,
    /// Something failed.
    Error { message: String },
}

/// The view of an optional string.
pub open spec fn opt_text(s: Option<String>) -> Option<Seq<char>> {
    match s {
        Some(t) => Some(t@),
        None => None,
    }
}

impl AuthBrowserConfig {
    /// Configuration for GitHub's OAuth device login at `device_url`.
    pub fn github_oauth(device_url: &str) -> (r: Self)
        ensures
            r.url@ == device_url@,
            r.title@ == "GitHub 登录"@,
            r.provider@ == "github"@,
            opt_text(r.success_url_pattern) == Some(GITHUB_DEVICE_SUCCESS_PATTERN@),
            r.enable_autofill,
            r.prefill_username is None,
            r.prefill_password is None,
    {
        AuthBrowserConfig {
            url: owned(device_url),
            title: owned("GitHub 登录"),
            provider: owned("github"),
            success_url_pattern: Some(owned(GITHUB_DEVICE_SUCCESS_PATTERN)),
            enable_autofill: true,
            prefill_username: None,
            prefill_password: None,
        }
    }

    /// Configuration for authorizing GitHub Copilot at `verification_url`.
    pub fn github_copilot(verification_url: &str) -> (r: Self)
        ensures
            r.url@ == verification_url@,
            r.title@ == "GitHub Copilot 授权"@,
            r.provider@ == "github_copilot"@,
            opt_text(r.success_url_pattern) == Some(GITHUB_DEVICE_SUCCESS_PATTERN@),
            r.enable_autofill,
            r.prefill_username is None,
            r.prefill_password is None,
    {
        AuthBrowserConfig {
            url: owned(verification_url),
            title: owned("GitHub Copilot 授权"),
            provider: owned("github_copilot"),
            success_url_pattern: Some(owned(GITHUB_DEVICE_SUCCESS_PATTERN)),
            enable_autofill: true,
            prefill_username: None,
            prefill_password: None,
        }
    }

    /// The same configuration with the given credentials to fill in.
    pub fn with_credentials(self, username: Option<String>, password: Option<String>) -> (r: Self)
        ensures
            r.url == self.url,
            r.title == self.title,
            r.provider == self.provider,
            r.success_url_pattern == self.success_url_pattern,
            r.enable_autofill == self.enable_autofill,
            r.prefill_username == username,
            r.prefill_password == password,
    {
        let mut config = self;
        config.prefill_username = username;
        config.prefill_password = password;
        config
    }
}

/// The platforms the application is built for.
#[derive(Debug, PartialEq, Eq, Structural, Clone, Copy)]
pub enum TargetOs {
    Windows,
    Linux,
    MacOs,
}

/// The user agent presented on a platform: Chrome's for that platform.
pub fn user_agent_for(os: TargetOs) -> (r: &'static str)
    ensures
        os == TargetOs::Windows ==> r@ == CHROME_USER_AGENT_WINDOWS@,
        os == TargetOs::Linux ==> r@ == CHROME_USER_AGENT_LINUX@,
        os == TargetOs::MacOs ==> r@ == CHROME_USER_AGENT@,
{
    match os {
        TargetOs::Windows => CHROME_USER_AGENT_WINDOWS,
        TargetOs::Linux => CHROME_USER_AGENT_LINUX,
        TargetOs::MacOs => CHROME_USER_AGENT,
    }
}

/// A label for a new window: the prefix and a fresh random UUID in its
/// hyphenated lowercase form.
pub fn new_window_label() -> (r: String)
    ensures
        r@.len() == AUTH_BROWSER_LABEL_PREFIX@.len() + 36,
        r@.take(AUTH_BROWSER_LABEL_PREFIX@.len() as int) == AUTH_BROWSER_LABEL_PREFIX@,
        is_uuid_v4_text(r@.skip(AUTH_BROWSER_LABEL_PREFIX@.len() as int)),
{
    let id = new_uuid_v4();
    let r = concat(AUTH_BROWSER_LABEL_PREFIX, id.as_str());
    assert((AUTH_BROWSER_LABEL_PREFIX@ + id@).take(AUTH_BROWSER_LABEL_PREFIX@.len() as int) =~= AUTH_BROWSER_LABEL_PREFIX@);
    assert((AUTH_BROWSER_LABEL_PREFIX@ + id@).skip(AUTH_BROWSER_LABEL_PREFIX@.len() as int) =~= id@);
    r
}

/// The autofill script, around the user name (twice) and the password
/// (twice): first piece of the autofill script.
pub const AUTOFILL_SCRIPT_PIECE_0: &'static str = "\n                    (function() {\n                        // GitHub 登录页面自动填充\n                        const usernameInput = document.querySelector('input[name=\"login\"], input#login_field');\n                        const passwordInput = document.querySelector('input[name=\"password\"], input#password');\n                        \n                        if (usernameInput && '";

/// Second piece of the autofill script.
pub const AUTOFILL_SCRIPT_PIECE_1: &'static str = "' !== '') {\n                            usernameInput.value = '";

/// Third piece of the autofill script.
pub const AUTOFILL_SCRIPT_PIECE_2: &'static str = "';\n                            usernameInput.dispatchEvent(new Event('input', { bubbles: true }));\n                        }\n                        \n                        if (passwordInput && '";

/// Fourth piece of the autofill script.
pub const AUTOFILL_SCRIPT_PIECE_3: &'static str = "' !== '') {\n                            passwordInput.value = '";

/// Last piece of the autofill script.
pub const AUTOFILL_SCRIPT_PIECE_4: &'static str = "';\n                            passwordInput.dispatchEvent(new Event('input', { bubbles: true }));\n                        }\n                    })();\n                    ";


/// The script that fills `username` and `password` into GitHub's login form.
pub open spec fn spec_autofill_script(username: Seq<char>, password: Seq<char>) -> Seq<char> {
    AUTOFILL_SCRIPT_PIECE_0@ + username + AUTOFILL_SCRIPT_PIECE_1@ + username + AUTOFILL_SCRIPT_PIECE_2@
        + password + AUTOFILL_SCRIPT_PIECE_3@ + password + AUTOFILL_SCRIPT_PIECE_4@
}

/// The script that fills `username` and `password` into GitHub's login form
/// (each is inserted as it is, between single quotes).
pub fn autofill_script(username: &str, password: &str) -> (r: String)
    ensures
        r@ == spec_autofill_script(username@, password@),
{
    let mut s = concat(AUTOFILL_SCRIPT_PIECE_0, username);
    s.append(AUTOFILL_SCRIPT_PIECE_1);
    s.append(username);
    s.append(AUTOFILL_SCRIPT_PIECE_2);
    s.append(password);
    s.append(AUTOFILL_SCRIPT_PIECE_3);
    s.append(password);
    s.append(AUTOFILL_SCRIPT_PIECE_4);
    s
}

/// The credentials to fill in: only when autofill is on and a user name or a
/// password is given; a missing one is filled as empty.
pub open spec fn spec_autofill_credentials(config: AuthBrowserConfig) -> Option<(Seq<char>, Seq<char>)> {
    if config.enable_autofill && (config.prefill_username is Some || config.prefill_password is Some) {
        Some(
            (
                match opt_text(config.prefill_username) {
                    Some(u) => u,
                    None => Seq::empty(),
                },
                match opt_text(config.prefill_password) {
                    Some(p) => p,
                    None => Seq::empty(),
                },
            ),
        )
    } else {
        None
    }
}

/// The user name and password to fill into the opened window, if any.
pub fn autofill_credentials(config: &AuthBrowserConfig) -> (r: Option<(String, String)>)
    ensures
        match r {
            Some((u, p)) => spec_autofill_credentials(*config) == Some((u@, p@)),
            None => spec_autofill_credentials(*config) is None,
        },
{
    if config.enable_autofill && (config.prefill_username.is_some() || config.prefill_password.is_some()) {
        let username = match &config.prefill_username {
            Some(u) => u.clone(),
            None => String::new(),
        };
        let password = match &config.prefill_password {
            Some(p) => p.clone(),
            None => String::new(),
        };
        Some((username, password))
    } else {
        None
    }
}


/// The open login windows: each label once, with the configuration the window
/// was opened with.
pub struct AuthWindows {
    windows: Vec<(String, AuthBrowserConfig)>,
}

impl AuthWindows {
    #[verifier::type_invariant]
    spec fn labels_unique(&self) -> bool {
        key_views(self.windows@).no_duplicates()
    }
}

impl View for AuthWindows {
    type V = Map<Seq<char>, AuthBrowserConfig>;

    closed spec fn view(&self) -> Map<Seq<char>, AuthBrowserConfig> {
        Map::new(
            |l: Seq<char>| key_views(self.windows@).contains(l),
            |l: Seq<char>| self.windows@[position_of(self.windows@, l)].1,
        )
    }
}

/// The window `l` is open and, when a provider is given, is for that provider.
pub open spec fn window_wanted(
    m: Map<Seq<char>, AuthBrowserConfig>,
    provider: Option<Seq<char>>,
    l: Seq<char>,
) -> bool {
    m.contains_key(l) && match provider {
        Some(p) => m[l].provider@ == p,
        None => true,
    }
}

/// The labels in a list of strings are pairwise distinct and are exactly those
/// for which `present` holds.
pub open spec fn lists_exactly(labels: Seq<String>, present: spec_fn(Seq<char>) -> bool) -> bool {
    &&& string_views(labels).no_duplicates()
    &&& forall|l: Seq<char>| #[trigger] string_views(labels).contains(l) <==> present(l)
}

/// Where the window `l` is recorded.
spec fn position_of(ws: Seq<(String, AuthBrowserConfig)>, l: Seq<char>) -> int {
    choose|j: int| 0 <= j < ws.len() && ws[j].0@ == l
}

proof fn lemma_unique_position(ws: Seq<(String, AuthBrowserConfig)>, j: int, l: Seq<char>)
    requires
        key_views(ws).no_duplicates(),
        0 <= j < ws.len(),
        ws[j].0@ == l,
    ensures
        position_of(ws, l) == j,
{
    let k = position_of(ws, l);
    assert(key_views(ws)[k] == key_views(ws)[j]);
}

impl AuthWindows {
    /// No open windows.
    pub fn new() -> (r: Self)
        ensures
            r@ == Map::<Seq<char>, AuthBrowserConfig>::empty(),
    {
        let r = AuthWindows { windows: Vec::new() };
        assert(r@ =~= Map::<Seq<char>, AuthBrowserConfig>::empty());
        r
    }

    /// Records the window `label` with its configuration (replacing an earlier
    /// record of that label).
    pub fn insert(&mut self, label: String, config: AuthBrowserConfig)
        ensures
            final(self)@ == old(self)@.insert(label@, config),
    {
        proof {
            use_type_invariant(&*self);
        }
        let ghost old_map = self@;
        let mut ws: Vec<(String, AuthBrowserConfig)> = Vec::new();
        std::mem::swap(&mut ws, &mut self.windows);
        let ghost old_ws = ws@;
        let ghost l = label@;
        let ghost mut pos: int = 0;
        match find_key(&ws, label.as_str()) {
            Some(i) => {
                let (key, _previous) = ws.remove(i);
                ws.insert(i, (key, config));
                proof {
                    lemma_index_of_first_spec(key_views(old_ws), l);
                    assert(key_views(ws@) =~= key_views(old_ws));
                    pos = i as int;
                    assert(ws@ == old_ws.update(pos, ws@[pos]));
                }
            },
            None => {
                proof {
                    lemma_index_of_first_spec(key_views(old_ws), l);
                    assert(key_views(ws@) =~= key_views(old_ws));
                }
                ws.push((label, config));
                proof {
                    pos = old_ws.len() as int;
                    assert(ws@ == old_ws.push(ws@[pos]));
                    assert(key_views(ws@) =~= key_views(old_ws).push(l));
                    assert forall|a: int, b: int|
                        0 <= a < key_views(ws@).len() && 0 <= b < key_views(ws@).len() && a != b implies key_views(ws@)[a]
                            != key_views(ws@)[b] by {
                        if a == old_ws.len() {
                            assert(key_views(old_ws).contains(key_views(ws@)[b]));
                        } else if b == old_ws.len() {
                            assert(key_views(old_ws).contains(key_views(ws@)[a]));
                        }
                    }
                }
            },
        }
        self.windows = ws;
        proof {
            let new_ws = self.windows@;
            assert(0 <= pos < new_ws.len() && new_ws[pos].0@ == l && new_ws[pos].1 == config);
            assert(forall|j: int| 0 <= j < new_ws.len() && j != pos ==> j < old_ws.len() && new_ws[j] == old_ws[j]);
            assert forall|k: Seq<char>| #[trigger] self@.contains_key(k) <==> old_map.insert(l, config).contains_key(k) by {
                lemma_contains_push(key_views(old_ws), l, k);
                if key_views(new_ws).contains(k) {
                    let j = choose|j: int| 0 <= j < key_views(new_ws).len() && key_views(new_ws)[j] == k;
                    if j < old_ws.len() && k != l {
                        assert(key_views(old_ws)[j] == k);
                    }
                }
                if key_views(old_ws).contains(k) {
                    let j = choose|j: int| 0 <= j < key_views(old_ws).len() && key_views(old_ws)[j] == k;
                    assert(key_views(new_ws)[j] == k);
                }
            }
            assert forall|k: Seq<char>| #[trigger] self@.contains_key(k) implies self@[k] == old_map.insert(l, config)[k] by {
                let j = choose|j: int| 0 <= j < new_ws.len() && new_ws[j].0@ == k;
                lemma_unique_position(new_ws, j, k);
                lemma_unique_position(new_ws, pos, l);
                if k != l {
                    assert(j < old_ws.len());
                    assert(old_ws[j] == new_ws[j]);
                    lemma_unique_position(old_ws, j, k);
                }
            }
            assert(self@ =~= old_map.insert(l, config));
        }
    }

    /// Forgets the window `label`, returning its configuration if it was
    /// recorded.
    pub fn remove(&mut self, label: &str) -> (r: Option<AuthBrowserConfig>)
        ensures
            final(self)@ == old(self)@.remove(label@),
            r == (if old(self)@.contains_key(label@) {
                Some(old(self)@[label@])
            } else {
                None
            }),
    {
        proof {
            use_type_invariant(&*self);
        }
        let ghost old_map = self@;
        let mut ws: Vec<(String, AuthBrowserConfig)> = Vec::new();
        std::mem::swap(&mut ws, &mut self.windows);
        let ghost old_ws = ws@;
        let ghost l = label@;
        proof {
            lemma_index_of_first_spec(key_views(old_ws), l);
        }
        let r = match find_key(&ws, label) {
            Some(i) => {
                let (_key, config) = ws.remove(i);
                proof {
                    lemma_unique_position(old_ws, i as int, l);
                    assert(key_views(ws@) =~= key_views(old_ws).remove(i as int));
                    assert forall|a: int, b: int|
                        0 <= a < key_views(ws@).len() && 0 <= b < key_views(ws@).len() && a != b implies key_views(ws@)[a]
                            != key_views(ws@)[b] by {
                        let a0 = if a < i { a } else { a + 1 };
                        let b0 = if b < i { b } else { b + 1 };
                        assert(key_views(ws@)[a] == key_views(old_ws)[a0]);
                        assert(key_views(ws@)[b] == key_views(old_ws)[b0]);
                    }
                }
                Some(config)
            },
            None => None,
        };
        self.windows = ws;
        proof {
            let new_ws = self.windows@;
            assert forall|k: Seq<char>| #[trigger] self@.contains_key(k) <==> old_map.remove(l).contains_key(k) by {
                if key_views(new_ws).contains(k) {
                    let j = choose|j: int| 0 <= j < key_views(new_ws).len() && key_views(new_ws)[j] == k;
                    if r is Some {
                        let i = choose|i: int| 0 <= i < old_ws.len() && old_ws[i].0@ == l;
                        assert(new_ws[j] == old_ws[j] || new_ws[j] == old_ws[j + 1]);
                        if new_ws[j] == old_ws[j] {
                            assert(key_views(old_ws)[j] == k);
                        } else {
                            assert(key_views(old_ws)[j + 1] == k);
                        }
                        assert(key_views(new_ws)[j] != l);
                    } else {
                        assert(key_views(old_ws)[j] == k);
                    }
                }
                if key_views(old_ws).contains(k) && k != l {
                    let j = choose|j: int| 0 <= j < key_views(old_ws).len() && key_views(old_ws)[j] == k;
                    if r is Some {
                        let i = choose|i: int| 0 <= i < old_ws.len() && old_ws[i].0@ == l;
                        lemma_unique_position(old_ws, i, l);
                        if j < i {
                            assert(key_views(new_ws)[j] == k);
                        } else {
                            assert(j != i);
                            assert(key_views(new_ws)[j - 1] == k);
                        }
                    } else {
                        assert(key_views(new_ws)[j] == k);
                    }
                }
            }
            assert forall|k: Seq<char>| #[trigger] self@.contains_key(k) implies self@[k] == old_map.remove(l)[k] by {
                let j = choose|j: int| 0 <= j < new_ws.len() && new_ws[j].0@ == k;
                lemma_unique_position(new_ws, j, k);
                if new_ws[j] == old_ws[j] {
                    lemma_unique_position(old_ws, j, k);
                } else {
                    assert(new_ws[j] == old_ws[j + 1]);
                    lemma_unique_position(old_ws, j + 1, k);
                }
            }
            assert(self@ =~= old_map.remove(l));
            if r is Some {
                let i = choose|i: int| 0 <= i < old_ws.len() && old_ws[i].0@ == l;
                lemma_unique_position(old_ws, i, l);
            }
        }
        r
    }

    /// The configuration of window `label`, if it is recorded.
    pub fn get(&self, label: &str) -> (r: Option<&AuthBrowserConfig>)
        ensures
            match r {
                Some(c) => self@.contains_key(label@) && *c == self@[label@],
                None => !self@.contains_key(label@),
            },
    {
        proof {
            use_type_invariant(self);
            lemma_index_of_first_spec(key_views(self.windows@), label@);
        }
        match find_key(&self.windows, label) {
            Some(i) => {
                proof {
                    lemma_unique_position(self.windows@, i as int, label@);
                }
                Some(&self.windows[i].1)
            },
            None => None,
        }
    }

    /// The labels of the open windows whose provider is `provider`.
    pub fn labels_for_provider(&self, provider: &str) -> (r: Vec<String>)
        ensures
            lists_exactly(
                r@,
                |l: Seq<char>| self@.contains_key(l) && self@[l].provider@ == provider@,
            ),
    {
        let r = self.labels_where(Some(provider));
        assert forall|l: Seq<char>| #[trigger] string_views(r@).contains(l) <==> (self@.contains_key(l) && self@[l].provider@ == provider@) by {
            assert(window_wanted(self@, Some(provider@), l) == (self@.contains_key(l) && self@[l].provider@ == provider@));
        }
        r
    }

    /// The labels of all open windows.
    pub fn labels(&self) -> (r: Vec<String>)
        ensures
            lists_exactly(r@, |l: Seq<char>| self@.contains_key(l)),
    {
        let r = self.labels_where(None);
        assert forall|l: Seq<char>| #[trigger] string_views(r@).contains(l) <==> self@.contains_key(l) by {
            assert(window_wanted(self@, None, l) == self@.contains_key(l));
        }
        r
    }

    /// The labels of the windows for `provider` (of all windows when `None`), in
    /// the order they were recorded.
    fn labels_where(&self, provider: Option<&str>) -> (r: Vec<String>)
        ensures
            lists_exactly(
                r@,
                |l: Seq<char>|
                    window_wanted(
                        self@,
                        match provider {
                            Some(p) => Some(p@),
                            None => None,
                        },
                        l,
                    ),
            ),
    {
        proof {
            use_type_invariant(self);
        }
        let ghost ws = self.windows@;
        let ghost pv = match provider {
            Some(p) => Some(p@),
            None => None,
        };
        let mut out: Vec<String> = Vec::new();
        let mut i: usize = 0;
        while i < self.windows.len()
            invariant
                i <= ws.len(),
                ws == self.windows@,
                pv == match provider {
                    Some(p) => Some(p@),
                    None => None::<Seq<char>>,
                },
                key_views(ws).no_duplicates(),
                string_views(out@).no_duplicates(),
                forall|l: Seq<char>|
                    #[trigger] string_views(out@).contains(l) <==> (exists|j: int|
                        0 <= j < i && ws[j].0@ == l && window_wanted(self@, pv, l)),
            decreases ws.len() - i,
        {
            let keep = match provider {
                Some(p) => str_eq(self.windows[i].1.provider.as_str(), p),
                None => true,
            };
            proof {
                lemma_unique_position(ws, i as int, ws[i as int].0@);
            }
            proof {
                let k = ws[i as int].0@;
                assert(key_views(ws)[i as int] == k);
                assert(self@.contains_key(k));
                assert(self@[k] == ws[i as int].1);
            }
            if keep {
                let ghost before = string_views(out@);
                let ghost k = ws[i as int].0@;
                out.push(self.windows[i].0.clone());
                proof {
                    assert(string_views(out@) =~= before.push(k));
                    assert(!before.contains(k)) by {
                        if before.contains(k) {
                            let j = choose|j: int| 0 <= j < i && ws[j].0@ == k && window_wanted(self@, pv, k);
                            assert(key_views(ws)[j] == key_views(ws)[i as int]);
                        }
                    }
                    assert forall|a: int, b: int|
                        0 <= a < string_views(out@).len() && 0 <= b < string_views(out@).len() && a != b implies string_views(out@)[a]
                            != string_views(out@)[b] by {
                        if a == before.len() {
                            assert(before.contains(string_views(out@)[b]));
                        } else if b == before.len() {
                            assert(before.contains(string_views(out@)[a]));
                        }
                    }
                    assert forall|l: Seq<char>|
                        #[trigger] string_views(out@).contains(l) <==> (exists|j: int|
                            0 <= j < i + 1 && ws[j].0@ == l && window_wanted(self@, pv, l)) by {
                        lemma_contains_push(before, k, l);
                        if l == k {
                            assert(key_views(ws).contains(k)) by {
                                assert(key_views(ws)[i as int] == k);
                            }
                            assert(window_wanted(self@, pv, k));
                        }
                    }
                }
            } else {
                proof {
                    let k = ws[i as int].0@;
                    assert(key_views(ws)[i as int] == k);
                    assert(!window_wanted(self@, pv, k));
                    assert forall|l: Seq<char>|
                        #[trigger] string_views(out@).contains(l) <==> (exists|j: int|
                            0 <= j < i + 1 && ws[j].0@ == l && window_wanted(self@, pv, l)) by {
                        if exists|j: int| 0 <= j < i + 1 && ws[j].0@ == l && window_wanted(self@, pv, l) {
                            let j = choose|j: int| 0 <= j < i + 1 && ws[j].0@ == l && window_wanted(self@, pv, l);
                            if j == i {
                                assert(false);
                            }
                        }
                    }
                }
            }
            i = i + 1;
        }
        proof {
            assert forall|l: Seq<char>| #[trigger] string_views(out@).contains(l) <==> window_wanted(self@, pv, l) by {
                if window_wanted(self@, pv, l) {
                    let j = choose|j: int| 0 <= j < key_views(ws).len() && key_views(ws)[j] == l;
                    assert(ws[j].0@ == l);
                }
            }
        }
        out
    }
}


/// The `(name, value)` pairs of the query of `url` (decoded as
/// `application/x-www-form-urlencoded`), as the `url` crate parses it; `None`
/// where the text is not a URL.
pub uninterp spec fn url_query_pairs_of(url: Seq<char>) -> Option<Seq<(Seq<char>, Seq<char>)>>;

/// `url::Url::parse` followed by `Url::query_pairs`: the decoded query pairs
/// of `url`, or `None` when it does not parse.
#[verifier::external_body]
fn url_query_pairs(url: &str) -> (r: Option<Vec<(String, String)>>)
    ensures
        match r {
            Some(v) => url_query_pairs_of(url@) == Some(
                v@.map_values(|p: (String, String)| (p.0@, p.1@)),
            ),
            None => url_query_pairs_of(url@) is None,
        },
{
    url::Url::parse(url).ok().map(
        |u| u.query_pairs().map(|(k, v)| (k.into_owned(), v.into_owned())).collect(),
    )
}

/// Whether `url` parses as a URL (the login window can only open one that does).
pub fn url_is_valid(url: &str) -> (r: bool)
    ensures
        r == (url_query_pairs_of(url@) is Some),
{
    url_query_pairs(url).is_some()
}

/// The value of the first query pair named `name`.
pub open spec fn first_pair_value(pairs: Seq<(Seq<char>, Seq<char>)>, name: Seq<char>) -> Option<Seq<char>> {
    match index_of_first(pairs.map_values(|p: (Seq<char>, Seq<char>)| p.0), name) {
        Some(i) => Some(pairs[i].1),
        None => None,
    }
}

/// The authorization code in a URL: the value of its first `code` query pair.
pub open spec fn spec_auth_code(url: Seq<char>) -> Option<Seq<char>> {
    match url_query_pairs_of(url) {
        Some(pairs) => first_pair_value(pairs, "code"@),
        None => None,
    }
}

/// The authorization code that a URL carries, if any.
pub fn auth_code_from_url(url: &str) -> (r: Option<String>)
    ensures
        opt_text(r) == spec_auth_code(url@),
{
    let pairs = match url_query_pairs(url) {
        Some(p) => p,
        None => {
            return None;
        },
    };
    let ghost views = pairs@.map_values(|p: (String, String)| (p.0@, p.1@));
    assert(key_views(pairs@) =~= views.map_values(|p: (Seq<char>, Seq<char>)| p.0));
    match find_key(&pairs, "code") {
        Some(i) => Some(pairs[i].1.clone()),
        None => None,
    }
}

/// What the application sees when it checks the window.
pub enum NavigationObservation {
    /// The window no longer exists.
    WindowGone,
    /// The window's URL could not be read.
    UrlUnavailable,
    /// The window shows this URL.
    Url(String),
}

/// What the application does after a check.
#[derive(Debug)]
pub enum NavigationStep {
    /// Stop watching: the window was closed.
    WindowClosed,
    /// Nothing new; keep watching.
    Unchanged,
    /// Report the new URL and keep watching.
    UrlChanged { url: String },
    /// Report the new URL, report the login as completed with the code, close
    /// the window, forget it and stop watching.
    Completed { url: String, code: Option<String> },
}

/// The watch over a login window's navigation: the URL last seen, how many
/// checks were made, and the URL part that shows success.
pub struct NavigationWatch {
    last_url: String,
    check_count: u32,
    success_pattern: String,
}

impl NavigationWatch {
    #[verifier::type_invariant]
    spec fn checks_bounded(&self) -> bool {
        self.check_count <= MAX_NAVIGATION_CHECKS + 1
    }

    /// The URL last seen.
    pub closed spec fn last_url(&self) -> Seq<char> {
        self.last_url@
    }

    /// How many checks were counted.
    pub closed spec fn checks(&self) -> u32 {
        self.check_count
    }

    /// The URL part that shows success.
    pub closed spec fn pattern(&self) -> Seq<char> {
        self.success_pattern@
    }

    /// A watch that has seen no URL and made no check.
    pub fn new(success_pattern: String) -> (r: Self)
        ensures
            r.last_url() == Seq::<char>::empty(),
            r.checks() == 0,
            r.pattern() == success_pattern@,
    {
        NavigationWatch { last_url: String::new(), check_count: 0, success_pattern }
    }

    /// Counts a check (one every 500 ms). False once the checks are used up:
    /// the 601st call, when the watch gives up.
    pub fn tick(&mut self) -> (r: bool)
        ensures
            r == (old(self).checks() < MAX_NAVIGATION_CHECKS),
            final(self).checks() == if old(self).checks() <= MAX_NAVIGATION_CHECKS {
                old(self).checks() + 1
            } else {
                old(self).checks() as int
            },
            final(self).last_url() == old(self).last_url(),
            final(self).pattern() == old(self).pattern(),
    {
        proof {
            use_type_invariant(&*self);
        }
        if self.check_count > MAX_NAVIGATION_CHECKS {
            return false;
        }
        self.check_count = self.check_count + 1;
        self.check_count <= MAX_NAVIGATION_CHECKS
    }

    /// Decides what to do with what a check saw: stop when the window is gone,
    /// skip an unreadable or unchanged URL, and otherwise remember the new URL
    /// and report it, as completed when it contains the success pattern.
    pub fn observe(&mut self, observation: NavigationObservation) -> (r: NavigationStep)
        ensures
            final(self).checks() == old(self).checks(),
            final(self).pattern() == old(self).pattern(),
            match observation {
                NavigationObservation::WindowGone => r is WindowClosed && final(self).last_url()
                    == old(self).last_url(),
                NavigationObservation::UrlUnavailable => r is Unchanged && final(self).last_url()
                    == old(self).last_url(),
                NavigationObservation::Url(u) => if u@ == old(self).last_url() {
                    r is Unchanged && final(self).last_url() == old(self).last_url()
                } else {
                    &&& final(self).last_url() == u@
                    &&& if contains_text(u@, old(self).pattern()) {
                        r matches NavigationStep::Completed { url, code } && url@ == u@ && opt_text(
                            code,
                        ) == spec_auth_code(u@)
                    } else {
                        r matches NavigationStep::UrlChanged { url } && url@ == u@
                    }
                },
            },
    {
        proof {
            use_type_invariant(&*self);
        }
        match observation {
            NavigationObservation::WindowGone => NavigationStep::WindowClosed,
            NavigationObservation::UrlUnavailable => NavigationStep::Unchanged,
            NavigationObservation::Url(current_url) => {
                if str_eq(current_url.as_str(), self.last_url.as_str()) {
                    return NavigationStep::Unchanged;
                }
                self.last_url = current_url.clone();
                if contains_str(&current_url, &self.success_pattern) {
                    let code = auth_code_from_url(current_url.as_str());
                    NavigationStep::Completed { url: current_url, code }
                } else {
                    NavigationStep::UrlChanged { url: current_url }
                }
            },
        }
    }
}


/// What the record of open windows promises across calls: a recorded window is
/// found with the configuration it was recorded with, recording another window
/// leaves it alone, and forgetting a window that was just recorded restores the
/// record as it was.
pub proof fn law_window_record(
    m: Map<Seq<char>, AuthBrowserConfig>,
    label: Seq<char>,
    config: AuthBrowserConfig,
    other: Seq<char>,
)
    requires
        other != label,
    ensures
        m.insert(label, config).contains_key(label),
        m.insert(label, config)[label] == config,
        m.insert(label, config).contains_key(other) == m.contains_key(other),
        m.contains_key(other) ==> m.insert(label, config)[other] == m[other],
        !m.insert(label, config).remove(label).contains_key(label),
        !m.contains_key(label) ==> m.insert(label, config).remove(label) == m,
{
    if !m.contains_key(label) {
        assert(m.insert(label, config).remove(label) =~= m);
    }
}

/// `needle` occurs in `a + x + b + r` across the joins when it is a suffix of
/// `a`, then `x`, then a prefix of `b`.
proof fn lemma_occurs_across(a: Seq<char>, x: Seq<char>, b: Seq<char>, r: Seq<char>, suf: Seq<char>, pre: Seq<char>)
    requires
        suf.len() <= a.len(),
        a.subrange(a.len() - suf.len(), a.len() as int) == suf,
        pre.len() <= b.len(),
        b.take(pre.len() as int) == pre,
    ensures
        contains_text(a + x + b + r, suf + x + pre),
{
    let s = a + x + b + r;
    let i = a.len() - suf.len();
    assert(s.subrange(i, i + (suf + x + pre).len()) =~= suf + x + pre);
    assert(occurs_at(s, suf + x + pre, i));
}

/// The autofill script fills each field with its own value, and only after
/// checking that same value: it holds `usernameInput && '<username>' !== ''`
/// and `usernameInput.value = '<username>';`, and likewise for the password
/// field with the password, whatever the two values are.
pub proof fn law_autofill_fills_each_field_with_its_own_value(username: Seq<char>, password: Seq<char>)
    ensures
        contains_text(
            spec_autofill_script(username, password),
            "usernameInput && '"@ + username + "' !== ''"@,
        ),
        contains_text(
            spec_autofill_script(username, password),
            "usernameInput.value = '"@ + username + "';"@,
        ),
        contains_text(
            spec_autofill_script(username, password),
            "passwordInput && '"@ + password + "' !== ''"@,
        ),
        contains_text(
            spec_autofill_script(username, password),
            "passwordInput.value = '"@ + password + "';"@,
        ),
{
    reveal_strlit("\n                    (function() {\n                        // GitHub 登录页面自动填充\n                        const usernameInput = document.querySelector('input[name=\"login\"], input#login_field');\n                        const passwordInput = document.querySelector('input[name=\"password\"], input#password');\n                        \n                        if (usernameInput && '");
    reveal_strlit("' !== '') {\n                            usernameInput.value = '");
    reveal_strlit("';\n                            usernameInput.dispatchEvent(new Event('input', { bubbles: true }));\n                        }\n                        \n                        if (passwordInput && '");
    reveal_strlit("' !== '') {\n                            passwordInput.value = '");
    reveal_strlit("';\n                            passwordInput.dispatchEvent(new Event('input', { bubbles: true }));\n                        }\n                    })();\n                    ");
    reveal_strlit("usernameInput && '");
    reveal_strlit("usernameInput.value = '");
    reveal_strlit("passwordInput && '");
    reveal_strlit("passwordInput.value = '");
    reveal_strlit("' !== ''");
    reveal_strlit("';");
    let p0 = AUTOFILL_SCRIPT_PIECE_0@;
    let p1 = AUTOFILL_SCRIPT_PIECE_1@;
    let p2 = AUTOFILL_SCRIPT_PIECE_2@;
    let p3 = AUTOFILL_SCRIPT_PIECE_3@;
    let p4 = AUTOFILL_SCRIPT_PIECE_4@;
    let u = username;
    let w = password;
    let s = spec_autofill_script(u, w);
    let ug = "usernameInput && '"@;
    let uv = "usernameInput.value = '"@;
    let pg = "passwordInput && '"@;
    let pv = "passwordInput.value = '"@;
    let close_guard = "' !== ''"@;
    let close_value = "';"@;
    assert(p0.subrange(p0.len() - ug.len(), p0.len() as int) =~= ug);
    assert(p1.take(close_guard.len() as int) =~= close_guard);
    assert(p1.subrange(p1.len() - uv.len(), p1.len() as int) =~= uv);
    assert(p2.take(close_value.len() as int) =~= close_value);
    assert(p2.subrange(p2.len() - pg.len(), p2.len() as int) =~= pg);
    assert(p3.take(close_guard.len() as int) =~= close_guard);
    assert(p3.subrange(p3.len() - pv.len(), p3.len() as int) =~= pv);
    assert(p4.take(close_value.len() as int) =~= close_value);

    assert(s =~= p0 + u + p1 + (u + p2 + w + p3 + w + p4));
    lemma_occurs_across(p0, u, p1, u + p2 + w + p3 + w + p4, ug, close_guard);

    let a1 = p0 + u + p1;
    assert(a1.subrange(a1.len() - uv.len(), a1.len() as int) =~= p1.subrange(p1.len() - uv.len(), p1.len() as int));
    assert(s =~= a1 + u + p2 + (w + p3 + w + p4));
    lemma_occurs_across(a1, u, p2, w + p3 + w + p4, uv, close_value);

    let a2 = p0 + u + p1 + u + p2;
    assert(a2.subrange(a2.len() - pg.len(), a2.len() as int) =~= p2.subrange(p2.len() - pg.len(), p2.len() as int));
    assert(s =~= a2 + w + p3 + (w + p4));
    lemma_occurs_across(a2, w, p3, w + p4, pg, close_guard);

    let a3 = p0 + u + p1 + u + p2 + w + p3;
    assert(a3.subrange(a3.len() - pv.len(), a3.len() as int) =~= p3.subrange(p3.len() - pv.len(), p3.len() as int));
    assert(s =~= a3 + w + p4 + Seq::<char>::empty());
    lemma_occurs_across(a3, w, p4, Seq::<char>::empty(), pv, close_value);
}

} // verus!
