//! Web pages, rendered by a browser engine that runs as a second fullscreen
//! client over the player's window.
//!
//! The controller decides what may be shown, how the engine is started and
//! when it has to go. At most one engine is up: the one on screen is taken
//! down and reaped before another is started, because all of them share one
//! profile.

use vstd::prelude::*;
use vstd::string::*;

use crate::paths;
use crate::text;

verus! {

/// Milliseconds that the engine is given to exit before it is killed.
pub const TERM_GRACE_MS: u64 = 3_000;

/// Milliseconds that the kill is given to take effect.
pub const KILL_GRACE_MS: u64 = 2_000;

/// Size of a Unix socket address's path, with its terminating zero.
pub const SOCKET_PATH_BYTES: usize = 108;

/// Bytes that the engine's singleton socket adds to the directory it is made
/// in: `/org.chromium.Chromium.`, six random characters and
/// `/SingletonSocket`.
pub const SINGLETON_SOCKET_BYTES: usize = 45;

/// How to launch the browser engine.
#[derive(Debug)]
pub struct Browser {
    pub program: String,
    /// The engine's directory for temporary files, above its profile.
    pub root: String,
    /// The engine's profile.
    pub profile_dir: String,
}

/// Why a page is not displayed.
#[derive(Debug)]
pub enum PageError {
    /// The URL is none that a page may have.
    Scheme(String),
    /// The engine's directory has too long a name for the engine's socket.
    NoRoom(String),
}

impl PageError {
    /// The text of the error.
    pub open spec fn text(self) -> Seq<char> {
        match self {
            PageError::Scheme(url) => "refusing to display "@ + text::debug_quoted(url@)
                + ": a web page must be an http://, https:// or file:// URL"@,
            PageError::NoRoom(root) => "the browser directory "@ + text::debug_quoted(root@)
                + " leaves no room for the engine's socket; set CASTOFF_BROWSER_PROFILE_DIR to a shorter path"@,
        }
    }

    /// What went wrong, in words.
    pub fn message(&self) -> (r: String)
        ensures
            r@ == self.text(),
    {
        match self {
            PageError::Scheme(url) => {
                let mut r: String = "refusing to display ".to_string();
                r.append(text::quoted(url.as_str()).as_str());
                r.append(": a web page must be an http://, https:// or file:// URL");
                r
            },
            PageError::NoRoom(root) => {
                let mut r: String = "the browser directory ".to_string();
                r.append(text::quoted(root.as_str()).as_str());
                r.append(
                    " leaves no room for the engine's socket; set CASTOFF_BROWSER_PROFILE_DIR to a shorter path",
                );
                r
            },
        }
    }
}

/// Whether `url` has a scheme that a page may have.
pub open spec fn valid_url(url: Seq<char>) -> bool {
    text::begins(url, "http://"@) || text::begins(url, "https://"@) || text::begins(
        url,
        "file://"@,
    )
}

/// Refuses every URL but `http://`, `https://` and `file://` ones.
pub fn validate_url(url: &str) -> (r: Result<(), PageError>)
    ensures
        match r {
            Ok(_) => valid_url(url@),
            Err(PageError::Scheme(u)) => !valid_url(url@) && u@ == url@,
            Err(PageError::NoRoom(_)) => false,
        },
{
    let v: Vec<char> = text::chars_of(url);
    if text::begins_with(&v, "http://") || text::begins_with(&v, "https://") || text::begins_with(
        &v,
        "file://",
    ) {
        Ok(())
    } else {
        Err(PageError::Scheme(url.to_string()))
    }
}

/// The name of the profile directory of the `seq`th browser of process `pid`.
pub open spec fn profile_name(pid: nat, seq: nat) -> Seq<char> {
    "castoff-browser-"@ + text::decimal(pid) + "-"@ + text::decimal(seq)
}

/// The engine's arguments for `url`, with its profile in `profile`.
pub open spec fn arguments(url: Seq<char>, profile: Seq<char>) -> Seq<Seq<char>> {
    seq![
        "--ozone-platform=wayland"@,
        "--kiosk"@,
        "--app="@ + url,
        "--no-first-run"@,
        "--no-default-browser-check"@,
        "--force-color-profile=srgb"@,
        "--user-data-dir="@ + profile,
    ]
}

/// The files in a profile by which an engine claims it.
pub open spec fn singleton_files(profile: Seq<char>) -> Seq<Seq<char>> {
    seq![
        paths::join(profile, "SingletonLock"@),
        paths::join(profile, "SingletonSocket"@),
        paths::join(profile, "SingletonCookie"@),
    ]
}

/// The text that stands for a missing setting.
pub open spec fn setting_or(setting: Option<String>, default: Seq<char>) -> Seq<char> {
    match setting {
        Some(s) => s@,
        None => default,
    }
}

impl Browser {
    /// Whether the path of the engine's socket, and the zero behind it, fit
    /// into an address.
    pub open spec fn has_room(self) -> bool {
        vstd::utf8::encode_utf8(self.root@).len() + SINGLETON_SOCKET_BYTES < SOCKET_PATH_BYTES
    }

    /// The browser that the settings ask for: `program` and `root` are
    /// `CASTOFF_BROWSER` and `CASTOFF_BROWSER_PROFILE_DIR` where they are set.
    pub fn from_settings(
        program: Option<String>,
        root: Option<String>,
        pid: u32,
        seq: u64,
    ) -> (r: Browser)
        ensures
            r.program@ == setting_or(program, "chromium"@),
            r.root@ == setting_or(root, "/tmp"@),
            r.profile_dir@ == paths::join(r.root@, profile_name(pid as nat, seq as nat)),
    {
        let program: String = match program {
            Some(p) => p,
            None => "chromium".to_string(),
        };
        let root: String = match root {
            Some(d) => d,
            None => "/tmp".to_string(),
        };
        let mut name: String = "castoff-browser-".to_string();
        name.append(text::decimal_text(pid as u128).as_str());
        name.append("-");
        name.append(text::decimal_text(seq as u128).as_str());
        let profile_dir: String = paths::join_text(root.as_str(), name.as_str());
        Browser { program, root, profile_dir }
    }

    /// The engine's arguments for `url`.
    pub fn args(&self, url: &str) -> (r: Vec<String>)
        ensures
            text::texts(r@) == arguments(url@, self.profile_dir@),
    {
        let mut r: Vec<String> = Vec::new();
        r.push("--ozone-platform=wayland".to_string());
        r.push("--kiosk".to_string());
        r.push(text::joined("--app=", url));
        r.push("--no-first-run".to_string());
        r.push("--no-default-browser-check".to_string());
        r.push("--force-color-profile=srgb".to_string());
        r.push(text::joined("--user-data-dir=", self.profile_dir.as_str()));
        assert(text::texts(r@) =~= arguments(url@, self.profile_dir@));
        r
    }

    /// The files that an engine taken down by a signal can leave behind, which
    /// are removed before the next one is started.
    pub fn singleton_artifacts(&self) -> (r: Vec<String>)
        ensures
            text::texts(r@) == singleton_files(self.profile_dir@),
    {
        let mut r: Vec<String> = Vec::new();
        r.push(paths::join_text(self.profile_dir.as_str(), "SingletonLock"));
        r.push(paths::join_text(self.profile_dir.as_str(), "SingletonSocket"));
        r.push(paths::join_text(self.profile_dir.as_str(), "SingletonCookie"));
        assert(text::texts(r@) =~= singleton_files(self.profile_dir@));
        r
    }
}

/// How one engine is started.
#[derive(Debug)]
pub struct Launch {
    /// The process of the page on screen, taken down and reaped first.
    pub terminate: Option<i32>,
    /// Files removed before the start.
    pub stale: Vec<String>,
    pub program: String,
    pub args: Vec<String>,
    /// The engine's directory for temporary files.
    pub tmp_dir: String,
}

/// A step in taking an engine down.
#[derive(Debug, Clone, Copy, PartialEq, Eq, Structural)]
pub enum Signal {
    /// Ask the engine to exit.
    Term,
    /// Kill it.
    Kill,
}

impl Signal {
    /// How long to wait for the engine to be gone after this signal, in
    /// milliseconds.
    pub fn grace(self) -> (r: u64)
        ensures
            r == (match self {
                Signal::Term => TERM_GRACE_MS,
                Signal::Kill => KILL_GRACE_MS,
            }),
    {
        match self {
            Signal::Term => TERM_GRACE_MS,
            Signal::Kill => KILL_GRACE_MS,
        }
    }

    /// The signal after this one: only an engine that outlived its request to
    /// exit is killed, and nothing comes after that.
    pub fn escalate(self, timed_out: bool) -> (r: Option<Signal>)
        ensures
            r == if self == Signal::Term && timed_out {
                Some(Signal::Kill)
            } else {
                None
            },
    {
        match self {
            Signal::Term => if timed_out {
                Some(Signal::Kill)
            } else {
                None
            },
            Signal::Kill => None,
        }
    }
}

/// The engine on screen, if any.
#[derive(Debug)]
pub struct WebpageController {
    pub browser: Browser,
    /// The process of the engine on screen.
    pub current: Option<i32>,
    /// Moved on whenever `current` is replaced or cleared on purpose, so that
    /// the reaper of an engine taken down on purpose is seen to be stale.
    pub generation: u64,
}

impl WebpageController {
    /// Whether there is a next generation.
    pub open spec fn has_next(self) -> bool {
        self.generation < u64::MAX
    }

    /// Whether `url` can be displayed.
    pub open spec fn can_show(self, url: Seq<char>) -> bool {
        valid_url(url) && self.browser.has_room()
    }

    /// The same controller with another engine, one generation on.
    pub open spec fn moved_to(self, current: Option<i32>, other: WebpageController) -> bool {
        &&& other.browser == self.browser
        &&& other.current == current
        &&& other.generation == self.generation + 1
    }

    /// A controller with no page on screen.
    pub fn with_browser(browser: Browser) -> (r: WebpageController)
        ensures
            r == (WebpageController { browser, current: None, generation: 0 }),
    {
        WebpageController { browser, current: None, generation: 0 }
    }

    /// Whether a page is on screen.
    pub fn is_active(&self) -> (r: bool)
        ensures
            r == self.current is Some,
    {
        self.current.is_some()
    }

    /// Refuses a URL that cannot be displayed, and says why.
    pub fn check(&self, url: &str) -> (r: Result<(), PageError>)
        ensures
            match r {
                Ok(_) => self.can_show(url@),
                Err(PageError::Scheme(u)) => !valid_url(url@) && u@ == url@,
                Err(PageError::NoRoom(root)) => valid_url(url@) && !self.browser.has_room() && root@
                    == self.browser.root@,
            },
    {
        if let Err(e) = validate_url(url) {
            return Err(e);
        }
        let used: usize = self.browser.root.as_str().as_bytes().len();
        if used >= SOCKET_PATH_BYTES - SINGLETON_SOCKET_BYTES {
            return Err(PageError::NoRoom(self.browser.root.clone()));
        }
        Ok(())
    }

    /// Display `url` in place of the page on screen: what is to be done,
    /// in order. A URL that is refused changes nothing.
    pub fn show(&mut self, url: &str) -> (r: Result<Launch, PageError>)
        requires
            old(self).can_show(url@) ==> old(self).has_next(),
        ensures
            match r {
                Ok(launch) => {
                    &&& old(self).can_show(url@)
                    &&& old(self).moved_to(None, *final(self))
                    &&& launch.terminate == old(self).current
                    &&& text::texts(launch.stale@) == singleton_files(
                        old(self).browser.profile_dir@,
                    )
                    &&& launch.program@ == old(self).browser.program@
                    &&& text::texts(launch.args@) == arguments(
                        url@,
                        old(self).browser.profile_dir@,
                    )
                    &&& launch.tmp_dir@ == old(self).browser.root@
                },
                Err(e) => {
                    &&& !old(self).can_show(url@)
                    &&& *final(self) == *old(self)
                    &&& match e {
                        PageError::Scheme(u) => !valid_url(url@) && u@ == url@,
                        PageError::NoRoom(root) => valid_url(url@) && root@ == old(
                            self,
                        ).browser.root@,
                    }
                },
            },
    {
        if let Err(e) = self.check(url) {
            return Err(e);
        }
        self.generation = self.generation + 1;
        let terminate: Option<i32> = self.current;
        self.current = None;
        Ok(
            Launch {
                terminate,
                stale: self.browser.singleton_artifacts(),
                program: self.browser.program.clone(),
                args: self.browser.args(url),
                tmp_dir: self.browser.root.clone(),
            },
        )
    }

    /// The engine runs as process `pid`. Returns the generation by which its
    /// reaper reports that it has exited.
    pub fn engine_started(&mut self, pid: i32) -> (generation: u64)
        requires
            old(self).has_next(),
        ensures
            old(self).moved_to(Some(pid), *final(self)),
            generation == final(self).generation,
    {
        self.generation = self.generation + 1;
        self.current = Some(pid);
        self.generation
    }

    /// The engine of this generation has exited. Says whether it did so by
    /// itself: then no page is on screen any more, and this is an error to
    /// report. An engine that was taken down on purpose changes nothing.
    pub fn engine_exited(&mut self, generation: u64) -> (r: bool)
        ensures
            r == (old(self).generation == generation),
            final(self).browser == old(self).browser,
            final(self).generation == old(self).generation,
            final(self).current == if r {
                None
            } else {
                old(self).current
            },
    {
        if self.generation == generation {
            self.current = None;
            true
        } else {
            false
        }
    }

    /// Stop displaying the page. Returns the process to take down, if any.
    pub fn take_down(&mut self) -> (r: Option<i32>)
        requires
            old(self).has_next(),
        ensures
            r == old(self).current,
            old(self).moved_to(None, *final(self)),
    {
        self.generation = self.generation + 1;
        let r: Option<i32> = self.current;
        self.current = None;
        r
    }
}

// ---------------------------------------------------------------------------
// Laws
// ---------------------------------------------------------------------------

/// A URL that can be displayed is never an argument of its own, where the
/// engine could read it as a flag.
pub proof fn lemma_the_url_is_never_a_flag(url: Seq<char>, profile: Seq<char>, i: int)
    requires
        valid_url(url),
        0 <= i < arguments(url, profile).len(),
    ensures
        arguments(url, profile)[i] != url,
{
    reveal_strlit("http://");
    reveal_strlit("https://");
    reveal_strlit("file://");
    reveal_strlit("--ozone-platform=wayland");
    reveal_strlit("--kiosk");
    reveal_strlit("--app=");
    reveal_strlit("--no-first-run");
    reveal_strlit("--no-default-browser-check");
    reveal_strlit("--force-color-profile=srgb");
    reveal_strlit("--user-data-dir=");
    if text::begins(url, "http://"@) {
        assert(url.take("http://"@.len() as int)[0] == 'h');
    } else if text::begins(url, "https://"@) {
        assert(url.take("https://"@.len() as int)[0] == 'h');
    } else {
        assert(url.take("file://"@.len() as int)[0] == 'f');
    }
    assert(url[0] != '-');
    assert(arguments(url, profile)[i][0] == '-');
}

/// An engine that was replaced or taken down is never again taken for the one
/// on screen: its reaper's generation stays stale.
pub proof fn lemma_a_replaced_engine_stays_quiet(
    before: WebpageController,
    current: Option<i32>,
    later: WebpageController,
    generation: u64,
)
    requires
        generation <= before.generation,
        before.moved_to(current, later),
    ensures
        generation < later.generation,
{
}

/// The file names of a profile are those of that profile alone.
pub proof fn lemma_singleton_files_are_in_the_profile(profile: Seq<char>, i: int)
    requires
        0 <= i < singleton_files(profile).len(),
    ensures
        text::begins(singleton_files(profile)[i], profile),
{
    reveal_strlit("SingletonLock");
    reveal_strlit("SingletonSocket");
    reveal_strlit("SingletonCookie");
    paths::lemma_join_stays_inside(profile, "SingletonLock"@);
    paths::lemma_join_stays_inside(profile, "SingletonSocket"@);
    paths::lemma_join_stays_inside(profile, "SingletonCookie"@);
}

/// A page may be displayed from a URL that begins with `http://`, `https://` or
/// `file://`, and from no other.
pub proof fn lemma_which_urls_are_displayed(url: Seq<char>)
    ensures
        valid_url(url) <==> ((url.len() >= 7 && url.take(7) == "http://"@) || (url.len() >= 8
            && url.take(8) == "https://"@) || (url.len() >= 7 && url.take(7) == "file://"@)),
{
    reveal_strlit("http://");
    reveal_strlit("https://");
    reveal_strlit("file://");
}

/// The engine's socket fits under a directory whose name is at most 62 bytes
/// long: with 45 bytes of its own and the zero behind it, it fills an address.
pub proof fn lemma_how_long_a_directory_may_be(browser: Browser, page: WebpageController, url: Seq<char>)
    ensures
        browser.has_room() <==> vstd::utf8::encode_utf8(browser.root@).len() <= 62,
        page.can_show(url) <==> valid_url(url) && page.browser.has_room(),
{
}

/// The engine is started fullscreen on the page and on its own profile: these
/// are its arguments, and there is no other.
pub proof fn lemma_how_the_engine_is_started(url: Seq<char>, profile: Seq<char>)
    ensures
        arguments(url, profile).len() == 7,
        arguments(url, profile).contains("--kiosk"@),
        arguments(url, profile).contains("--app="@ + url),
        arguments(url, profile).contains("--user-data-dir="@ + profile),
        arguments(url, profile).contains("--ozone-platform=wayland"@),
        arguments(url, profile).contains("--no-first-run"@),
        arguments(url, profile).contains("--no-default-browser-check"@),
        arguments(url, profile).contains("--force-color-profile=srgb"@),
{
    let a = arguments(url, profile);
    assert(a[0] == "--ozone-platform=wayland"@ && a[1] == "--kiosk"@ && a[2] == "--app="@ + url);
    assert(a[3] == "--no-first-run"@ && a[4] == "--no-default-browser-check"@);
    assert(a[5] == "--force-color-profile=srgb"@ && a[6] == "--user-data-dir="@ + profile);
}

/// The files that an engine leaves behind in its profile are its lock, its
/// socket and its cookie.
pub proof fn lemma_what_an_engine_leaves_behind(profile: Seq<char>)
    ensures
        singleton_files(profile) == seq![
            paths::join(profile, "SingletonLock"@),
            paths::join(profile, "SingletonSocket"@),
            paths::join(profile, "SingletonCookie"@),
        ],
{
}

/// Two browsers have two profiles: a profile is named after the process and the
/// browser's number in it.
pub proof fn lemma_how_profiles_are_named(pid: nat, seq: nat, setting: Option<String>)
    ensures
        profile_name(pid, seq) == "castoff-browser-"@ + text::decimal(pid) + "-"@ + text::decimal(
            seq,
        ),
        setting matches Some(s) ==> setting_or(setting, "chromium"@) == s@ && setting_or(
            setting,
            "/tmp"@,
        ) == s@,
        setting is None ==> setting_or(setting, "chromium"@) == "chromium"@ && setting_or(
            setting,
            "/tmp"@,
        ) == "/tmp"@,
{
}

/// An engine has three seconds to exit before it is killed, and the kill two to
/// take effect.
pub proof fn lemma_how_long_an_engine_has()
    ensures
        TERM_GRACE_MS == 3000,
        KILL_GRACE_MS == 2000,
{
}

/// What is said of a page that is refused names what it is about.
pub proof fn lemma_what_is_said_of_a_page(url: String, root: String)
    ensures
        PageError::Scheme(url).text() == "refusing to display "@ + text::debug_quoted(url@)
            + ": a web page must be an http://, https:// or file:// URL"@,
        PageError::NoRoom(root).text() == "the browser directory "@ + text::debug_quoted(root@)
            + " leaves no room for the engine's socket; set CASTOFF_BROWSER_PROFILE_DIR to a shorter path"@,
{
}

/// A controller that moved on has the same browser, the engine it moved to, and
/// the next generation.
pub proof fn lemma_what_moving_on_is(
    before: WebpageController,
    current: Option<i32>,
    after: WebpageController,
)
    requires
        before.moved_to(current, after),
    ensures
        after.browser == before.browser,
        after.current == current,
        after.generation == before.generation + 1,
{
}

} // verus!
