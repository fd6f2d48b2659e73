//! Which terminal window shows which session.
//!
//! The tracker keeps one window per session and decides what a registration,
//! a focus request and a sweep over the live sessions come to. Listing the
//! windows on screen, waiting between searches and running a script are the
//! caller's part.

use vstd::prelude::*;
use vstd::string::*;
use crate::registry::Registry;
use crate::text::{chars_of, contains_chars, has_substring, str_eq};

verus! {

/// Where a window lies on screen. Each field holds the bits of an IEEE 754
/// double; the tracker carries them and never computes with them.
#[derive(Debug, Clone, Copy, PartialEq, Eq)]
pub struct WindowBounds {
    pub x: u64,
    pub y: u64,
    pub width: u64,
    pub height: u64,
}

/// A terminal window and the session that it shows.
#[derive(Debug, Clone)]
pub struct WindowInfo {
    pub window_id: u32,
    pub owner_pid: u32,
    pub terminal_app: String,
    pub session_id: String,
    pub created_at: String,
    pub tab_reference: Option<String>,
    pub tab_id: Option<String>,
    pub bounds: Option<WindowBounds>,
    pub title: Option<String>,
}

/// The operating system that the tracker runs on.
#[derive(Debug, Clone, Copy, PartialEq, Eq)]
pub enum Platform {
    MacOs,
    Windows,
    Linux,
    Other,
}

/// Why a window could not be brought to the front.
#[derive(Debug, PartialEq, Eq)]
pub enum FocusError {
    /// No window is registered for the session, whose identifier this is.
    NotRegistered(String),
    /// Focusing is not written for this platform.
    NotImplemented(Platform),
    /// The script could not be started; the text says why.
    ScriptNotRun(String),
    /// The script ran and failed; the text is what it printed as its error.
    ScriptFailed(String),
}

/// Whether the window's title holds `session_id`.
pub open spec fn title_mentions(window: WindowInfo, session_id: Seq<char>) -> bool {
    window.title matches Some(title) && has_substring(title@, session_id)
}

/// Whether the window belongs to `terminal_app` and its title holds
/// `session_id`.
pub open spec fn shows_session(
    window: WindowInfo,
    terminal_app: Seq<char>,
    session_id: Seq<char>,
) -> bool {
    window.terminal_app@ == terminal_app && title_mentions(window, session_id)
}

/// The first of `windows` that `wanted` holds of.
pub open spec fn first_window(windows: Seq<WindowInfo>, wanted: spec_fn(WindowInfo) -> bool)
    -> Option<WindowInfo>
    decreases windows.len(),
{
    if windows.len() == 0 {
        None
    } else if wanted(windows[0]) {
        Some(windows[0])
    } else {
        first_window(windows.skip(1), wanted)
    }
}

/// The window of `terminal_app` that shows `session_id`: the first whose
/// title holds the identifier.
pub open spec fn window_of_app(
    windows: Seq<WindowInfo>,
    terminal_app: Seq<char>,
    session_id: Seq<char>,
) -> Option<WindowInfo> {
    first_window(windows, |w: WindowInfo| shows_session(w, terminal_app, session_id))
}

/// The window that shows `session_id`, whatever the application: the first
/// whose title holds the identifier.
pub open spec fn window_of_session(windows: Seq<WindowInfo>, session_id: Seq<char>) -> Option<
    WindowInfo,
> {
    first_window(windows, |w: WindowInfo| title_mentions(w, session_id))
}

/// Whether the terminal named its window or tab itself, so that a single
/// search after a short wait settles the registration.
pub open spec fn names_its_window(
    terminal_app: Seq<char>,
    tab_reference: Option<String>,
    tab_id: Option<String>,
) -> bool {
    (terminal_app == "Terminal"@ && tab_reference is Some) || (terminal_app == "iTerm2"@ && tab_id
        is Some)
}

/// How long to wait before each search for a session's window, in
/// milliseconds: once half a second where the terminal named its window,
/// else four times with growing waits.
pub open spec fn search_delays(explicit: bool) -> Seq<u64> {
    if explicit {
        seq![500u64]
    } else {
        seq![500u64, 1000u64, 2000u64, 3000u64]
    }
}

/// The text of the missing-registration error.
pub open spec fn not_registered_text(session_id: Seq<char>) -> Seq<char> {
    "No window registered for session: "@ + session_id
}

/// The script that brings `terminal_app` to the front.
pub open spec fn activation_script(terminal_app: Seq<char>) -> Seq<char> {
    "tell application \""@ + terminal_app + "\" to activate"@
}

impl Platform {
    /// The platform's name, as the messages spell it.
    pub open spec fn name(self) -> Seq<char> {
        match self {
            Platform::MacOs => "macOS"@,
            Platform::Windows => "Windows"@,
            Platform::Linux => "Linux"@,
            Platform::Other => "this platform"@,
        }
    }

    /// The platform's name, as the messages spell it.
    pub fn label(&self) -> (text: &'static str)
        ensures
            text@ == self.name(),
    {
        match self {
            Platform::MacOs => "macOS",
            Platform::Windows => "Windows",
            Platform::Linux => "Linux",
            Platform::Other => "this platform",
        }
    }
}

impl FocusError {
    /// The text that a caller is shown for this error.
    pub open spec fn text(&self) -> Seq<char> {
        match self {
            FocusError::NotRegistered(session_id) => not_registered_text(session_id@),
            FocusError::NotImplemented(platform) => match platform {
                Platform::Other => "Window focusing not supported on "@ + platform.name(),
                _ => "Window focusing not implemented for "@ + platform.name(),
            },
            FocusError::ScriptNotRun(detail) => "Failed to run AppleScript: "@ + detail@,
            FocusError::ScriptFailed(detail) => "AppleScript failed: "@ + detail@,
        }
    }

    /// The text that a caller is shown for this error.
    pub fn message(&self) -> (message: String)
        ensures
            message@ == self.text(),
    {
        match self {
            FocusError::NotRegistered(session_id) => {
                let mut message = "No window registered for session: ".to_owned();
                message.append(session_id.as_str());
                message
            },
            FocusError::NotImplemented(platform) => {
                let mut message = match platform {
                    Platform::Other => "Window focusing not supported on ".to_owned(),
                    _ => "Window focusing not implemented for ".to_owned(),
                };
                message.append(platform.label());
                message
            },
            FocusError::ScriptNotRun(detail) => {
                let mut message = "Failed to run AppleScript: ".to_owned();
                message.append(detail.as_str());
                message
            },
            FocusError::ScriptFailed(detail) => {
                let mut message = "AppleScript failed: ".to_owned();
                message.append(detail.as_str());
                message
            },
        }
    }
}

/// A copy of an optional text.
fn copy_text(text: &Option<String>) -> (copy: Option<String>)
    ensures
        copy == *text,
{
    match text {
        Some(t) => Some(t.clone()),
        None => None,
    }
}

impl WindowInfo {
    /// A copy of this record.
    pub fn duplicate(&self) -> (copy: WindowInfo)
        ensures
            copy == *self,
    {
        WindowInfo {
            window_id: self.window_id,
            owner_pid: self.owner_pid,
            terminal_app: self.terminal_app.clone(),
            session_id: self.session_id.clone(),
            created_at: self.created_at.clone(),
            tab_reference: copy_text(&self.tab_reference),
            tab_id: copy_text(&self.tab_id),
            bounds: self.bounds,
            title: copy_text(&self.title),
        }
    }

    /// Whether the window's title holds `session_id`.
    pub fn mentions(&self, session_id: &str) -> (found: bool)
        ensures
            found == title_mentions(*self, session_id@),
    {
        match &self.title {
            Some(title) => {
                let haystack = chars_of(title.as_str());
                let needle = chars_of(session_id);
                contains_chars(&haystack, &needle)
            },
            None => false,
        }
    }
}

/// How long to wait before each search for the window of a session that is
/// being registered, in milliseconds.
pub fn registration_delays(
    terminal_app: &str,
    tab_reference: &Option<String>,
    tab_id: &Option<String>,
) -> (delays: Vec<u64>)
    ensures
        delays@ == search_delays(names_its_window(terminal_app@, *tab_reference, *tab_id)),
{
    let explicit = (str_eq(terminal_app, "Terminal") && tab_reference.is_some()) || (str_eq(
        terminal_app,
        "iTerm2",
    ) && tab_id.is_some());
    let mut delays: Vec<u64> = Vec::new();
    delays.push(500);
    if !explicit {
        delays.push(1000);
        delays.push(2000);
        delays.push(3000);
    }
    assert(delays@ =~= search_delays(explicit));
    delays
}

/// Searches the windows on screen for the one of `terminal_app` that shows
/// `session_id`.
pub fn find_window(windows: &Vec<WindowInfo>, terminal_app: &str, session_id: &str) -> (found:
    Option<WindowInfo>)
    ensures
        found == window_of_app(windows@, terminal_app@, session_id@),
{
    let ghost wanted = |w: WindowInfo| shows_session(w, terminal_app@, session_id@);
    let mut i: usize = 0;
    assert(windows@.skip(0) =~= windows@);
    while i < windows.len()
        invariant
            i <= windows@.len(),
            wanted == |w: WindowInfo| shows_session(w, terminal_app@, session_id@),
            first_window(windows@, wanted) == first_window(windows@.skip(i as int), wanted),
        decreases windows@.len() - i,
    {
        let window = &windows[i];
        if str_eq(window.terminal_app.as_str(), terminal_app) && window.mentions(session_id) {
            assert(wanted(windows@.skip(i as int)[0]));
            return Some(window.duplicate());
        }
        assert(!wanted(windows@.skip(i as int)[0]));
        assert(windows@.skip(i as int).skip(1) =~= windows@.skip(i + 1));
        i += 1;
    }
    None
}

/// Searches the windows on screen for one that shows `session_id`.
pub fn find_window_for_session(windows: &Vec<WindowInfo>, session_id: &str) -> (found: Option<
    WindowInfo,
>)
    ensures
        found == window_of_session(windows@, session_id@),
{
    let ghost wanted = |w: WindowInfo| title_mentions(w, session_id@);
    let mut i: usize = 0;
    assert(windows@.skip(0) =~= windows@);
    while i < windows.len()
        invariant
            i <= windows@.len(),
            wanted == |w: WindowInfo| title_mentions(w, session_id@),
            first_window(windows@, wanted) == first_window(windows@.skip(i as int), wanted),
        decreases windows@.len() - i,
    {
        let window = &windows[i];
        if window.mentions(session_id) {
            assert(wanted(windows@.skip(i as int)[0]));
            return Some(window.duplicate());
        }
        assert(!wanted(windows@.skip(i as int)[0]));
        assert(windows@.skip(i as int).skip(1) =~= windows@.skip(i + 1));
        i += 1;
    }
    None
}

/// The texts of `names`.
pub open spec fn names_of(names: Seq<String>) -> Seq<Seq<char>> {
    Seq::new(names.len(), |i: int| names[i]@)
}

/// The tracked windows after a sweep. A session stays tracked where it is
/// still live; a live session that was not tracked gets the first window on
/// screen whose title holds its identifier, where there is one.
pub open spec fn swept(
    known: Map<Seq<char>, WindowInfo>,
    live: Seq<Seq<char>>,
    windows: Seq<WindowInfo>,
) -> Map<Seq<char>, WindowInfo> {
    Map::new(
        |id: Seq<char>|
            live.contains(id) && (known.contains_key(id) || window_of_session(windows, id)
                is Some),
        |id: Seq<char>|
            if known.contains_key(id) {
                known[id]
            } else {
                window_of_session(windows, id)->0
            },
    )
}

/// After a sweep only live sessions have a window, a live session that had
/// one keeps it, and a second sweep over the same sessions and windows
/// changes nothing.
pub proof fn law_sweep(
    known: Map<Seq<char>, WindowInfo>,
    live: Seq<Seq<char>>,
    windows: Seq<WindowInfo>,
)
    ensures
        forall|id: Seq<char>| #[trigger]
            swept(known, live, windows).contains_key(id) ==> live.contains(id),
        forall|id: Seq<char>|
            known.contains_key(id) && live.contains(id) ==> #[trigger] swept(
                known,
                live,
                windows,
            ).contains_key(id) && swept(known, live, windows)[id] == known[id],
        swept(swept(known, live, windows), live, windows) == swept(known, live, windows),
{
    assert(swept(swept(known, live, windows), live, windows) =~= swept(known, live, windows));
}

/// What a focus request comes to: the script to run, or the error.
pub open spec fn focus_plan(
    known: Map<Seq<char>, WindowInfo>,
    session_id: Seq<char>,
    platform: Platform,
) -> Result<Seq<char>, Seq<char>> {
    if platform == Platform::Other {
        Err(FocusError::NotImplemented(platform).text())
    } else if !known.contains_key(session_id) {
        Err(not_registered_text(session_id))
    } else if platform == Platform::MacOs {
        Ok(activation_script(known[session_id].terminal_app@))
    } else {
        Err(FocusError::NotImplemented(platform).text())
    }
}

/// Whether `names` holds the text `wanted`.
fn holds_name(names: &Vec<String>, wanted: &str) -> (found: bool)
    ensures
        found == names_of(names@).contains(wanted@),
{
    let mut i: usize = 0;
    while i < names.len()
        invariant
            i <= names@.len(),
            forall|j: int| 0 <= j < i ==> names_of(names@)[j] != wanted@,
        decreases names@.len() - i,
    {
        if str_eq(names[i].as_str(), wanted) {
            assert(names_of(names@)[i as int] == wanted@);
            return true;
        }
        i += 1;
    }
    false
}

/// The windows that show the sessions, one for each session at most.
///
/// The view is the map from session identifier to window.
pub struct WindowTracker {
    session_window_map: Registry<WindowInfo>,
}

impl View for WindowTracker {
    type V = Map<Seq<char>, WindowInfo>;

    closed spec fn view(&self) -> Map<Seq<char>, WindowInfo> {
        self.session_window_map@
    }
}

impl WindowTracker {
    /// The representation invariant.
    pub closed spec fn wf(&self) -> bool {
        self.session_window_map.wf()
    }

    /// The tracked sessions in the order in which `all_tracked_windows`
    /// lists their windows: each tracked session once.
    pub closed spec fn order(&self) -> Seq<Seq<char>> {
        self.session_window_map.order()
    }

    /// `order` lists the tracked sessions, each once.
    pub proof fn lemma_order(&self)
        requires
            self.wf(),
        ensures
            self.order().no_duplicates(),
            self@.dom().finite(),
            self@.len() == self.order().len(),
            forall|id: Seq<char>| self@.contains_key(id) <==> self.order().contains(id),
    {
        self.session_window_map.lemma_order();
    }

    /// A tracker that tracks nothing.
    pub fn new() -> (tracker: Self)
        ensures
            tracker.wf(),
            tracker@ == Map::<Seq<char>, WindowInfo>::empty(),
    {
        WindowTracker { session_window_map: Registry::new() }
    }

    /// One search for the window of a session that is being registered.
    ///
    /// `windows` are the terminal windows on screen. Where one of
    /// `terminal_app` shows the session, it is registered for the session,
    /// replacing an earlier one, and the result is `true`: the registration
    /// is done. Else nothing changes.
    pub fn register_window(
        &mut self,
        session_id: String,
        terminal_app: &str,
        windows: &Vec<WindowInfo>,
    ) -> (registered: bool)
        requires
            old(self).wf(),
        ensures
            final(self).wf(),
            match window_of_app(windows@, terminal_app@, session_id@) {
                Some(window) => registered && final(self)@ == old(self)@.insert(
                    session_id@,
                    window,
                ),
                None => !registered && final(self)@ == old(self)@,
            },
    {
        match find_window(windows, terminal_app, session_id.as_str()) {
            Some(window) => {
                self.session_window_map.insert(session_id, window);
                true
            },
            None => false,
        }
    }

    /// Forgets the window of a session. The result says whether there was
    /// one.
    pub fn unregister_window(&mut self, session_id: &str) -> (removed: bool)
        requires
            old(self).wf(),
        ensures
            final(self).wf(),
            final(self)@ == old(self)@.remove(session_id@),
            removed == old(self)@.contains_key(session_id@),
    {
        self.session_window_map.remove(session_id).is_some()
    }

    /// The window registered for a session.
    pub fn window_info(&self, session_id: &str) -> (info: Option<WindowInfo>)
        requires
            self.wf(),
        ensures
            info == if self@.contains_key(session_id@) {
                Some(self@[session_id@])
            } else {
                None
            },
    {
        match self.session_window_map.get(session_id) {
            Some(window) => Some(window.duplicate()),
            None => None,
        }
    }

    /// The registered windows, one for each session in `order`.
    pub fn all_tracked_windows(&self) -> (windows: Vec<WindowInfo>)
        requires
            self.wf(),
        ensures
            windows@.len() == self.order().len(),
            forall|i: int|
                #![trigger self.order()[i]]
                0 <= i < windows@.len() ==> {
                    &&& self@.contains_key(self.order()[i])
                    &&& windows@[i] == self@[self.order()[i]]
                },
    {
        let mut windows: Vec<WindowInfo> = Vec::new();
        let n = self.session_window_map.len();
        let mut i: usize = 0;
        while i < n
            invariant
                self.wf(),
                n == self.order().len(),
                i <= n,
                windows@.len() == i,
                forall|j: int|
                    #![trigger self.order()[j]]
                    0 <= j < i ==> {
                        &&& self@.contains_key(self.order()[j])
                        &&& windows@[j] == self@[self.order()[j]]
                    },
            decreases n - i,
        {
            let window = self.session_window_map.value_at(i).duplicate();
            windows.push(window);
            i += 1;
        }
        windows
    }

    /// Brings the tracker in line with the live sessions.
    ///
    /// `sessions` are the identifiers of the live sessions and `windows` the
    /// terminal windows on screen. Windows of sessions that are no longer
    /// live are dropped; a live session without a window gets the first
    /// window whose title holds its identifier, where there is one.
    pub fn update_from_sessions(&mut self, sessions: &Vec<String>, windows: &Vec<WindowInfo>)
        requires
            old(self).wf(),
        ensures
            final(self).wf(),
            final(self)@ == swept(old(self)@, names_of(sessions@), windows@),
    {
        let ghost live = names_of(sessions@);
        let mut i: usize = 0;
        while i < self.session_window_map.len()
            invariant
                self.wf(),
                live == names_of(sessions@),
                i <= self.order().len(),
                forall|id: Seq<char>| #[trigger]
                    self@.contains_key(id) ==> old(self)@.contains_key(id) && self@[id] == old(
                        self,
                    )@[id],
                forall|id: Seq<char>|
                    old(self)@.contains_key(id) && live.contains(id) ==> #[trigger] self@.contains_key(
                        id,
                    ),
                forall|j: int| 0 <= j < i ==> live.contains(#[trigger] self.order()[j]),
            decreases self.order().len() - i,
        {
            let key = self.session_window_map.key_at(i).clone();
            if holds_name(sessions, key.as_str()) {
                i += 1;
            } else {
                let ghost before = self.order();
                let ghost prior = self@;
                proof {
                    self.session_window_map.lemma_order();
                    before.index_of_first_ensures(key@);
                }
                let _ = self.session_window_map.remove(key.as_str());
                proof {
                    assert(self.order() == before.remove(i as int));
                    assert(self@ == prior.remove(key@));
                    assert(!live.contains(key@));
                }
            }
        }
        let ghost pruned = self@;
        proof {
            self.session_window_map.lemma_order();
            assert forall|id: Seq<char>| pruned.contains_key(id) implies live.contains(id) by {
                let j = self.order().index_of(id);
                assert(live.contains(self.order()[j]));
            }
        }
        let mut j: usize = 0;
        while j < sessions.len()
            invariant
                self.wf(),
                live == names_of(sessions@),
                j <= sessions@.len(),
                forall|id: Seq<char>| #[trigger]
                    self@.contains_key(id) <==> pruned.contains_key(id) || (live.take(
                        j as int,
                    ).contains(id) && window_of_session(windows@, id) is Some),
                forall|id: Seq<char>| #[trigger]
                    self@.contains_key(id) ==> self@[id] == if pruned.contains_key(id) {
                        pruned[id]
                    } else {
                        window_of_session(windows@, id)->0
                    },
            decreases sessions@.len() - j,
        {
            let id = &sessions[j];
            let ghost earlier = live.take(j as int);
            let ghost now = live.take(j + 1);
            proof {
                assert(now =~= earlier.push(id@));
                assert forall|k: Seq<char>| now.contains(k) <==> earlier.contains(k) || k
                    == id@ by {
                    if earlier.contains(k) {
                        let at = earlier.index_of(k);
                        assert(now[at] == k);
                    }
                    if k == id@ {
                        assert(now[j as int] == k);
                    }
                    if now.contains(k) {
                        let at = now.index_of(k);
                        if at < j {
                            assert(earlier[at] == k);
                        }
                    }
                }
            }
            let ghost prior = self@;
            if !self.session_window_map.contains_key(id.as_str()) {
                match find_window_for_session(windows, id.as_str()) {
                    Some(window) => {
                        self.session_window_map.insert(id.clone(), window);
                    },
                    None => {},
                }
            }
            proof {
                let found = window_of_session(windows@, id@);
                assert(self@ == if !prior.contains_key(id@) && found is Some {
                    prior.insert(id@, found->0)
                } else {
                    prior
                });
                assert forall|k: Seq<char>| #[trigger]
                    self@.contains_key(k) <==> pruned.contains_key(k) || (now.contains(k)
                        && window_of_session(windows@, k) is Some) by {
                    assert(prior.contains_key(k) <==> pruned.contains_key(k) || (earlier.contains(
                        k,
                    ) && window_of_session(windows@, k) is Some));
                    assert(now.contains(k) <==> earlier.contains(k) || k == id@);
                }
                assert forall|k: Seq<char>| #[trigger] self@.contains_key(k) implies self@[k]
                    == if pruned.contains_key(k) {
                    pruned[k]
                } else {
                    window_of_session(windows@, k)->0
                } by {
                    assert(prior.contains_key(k) <==> pruned.contains_key(k) || (earlier.contains(
                        k,
                    ) && window_of_session(windows@, k) is Some));
                    if prior.contains_key(k) {
                        assert(prior[k] == if pruned.contains_key(k) {
                            pruned[k]
                        } else {
                            window_of_session(windows@, k)->0
                        });
                    }
                }
            }
            j += 1;
        }
        proof {
            assert(live.take(j as int) =~= live);
            assert(self@ =~= swept(old(self)@, live, windows@));
        }
    }

    /// What to do to bring a session's window to the front.
    ///
    /// Returns the script that the caller is to run to bring the window's
    /// application to the front. Only macOS has one; on Windows and Linux a
    /// registered window earns `NotImplemented`, and elsewhere every request
    /// does.
    pub fn focus_window(&self, session_id: &str, platform: Platform) -> (plan: Result<
        String,
        FocusError,
    >)
        requires
            self.wf(),
        ensures
            match plan {
                Ok(script) => focus_plan(self@, session_id@, platform) == Ok::<
                    Seq<char>,
                    Seq<char>,
                >(script@),
                Err(error) => focus_plan(self@, session_id@, platform) == Err::<
                    Seq<char>,
                    Seq<char>,
                >(error.text()),
            },
    {
        match platform {
            Platform::Other => Err(FocusError::NotImplemented(platform)),
            _ => match self.session_window_map.get(session_id) {
                None => Err(FocusError::NotRegistered(session_id.to_owned())),
                Some(window) => match platform {
                    Platform::MacOs => {
                        let mut script = "tell application \"".to_owned();
                        script.append(window.terminal_app.as_str());
                        script.append("\" to activate");
                        Ok(script)
                    },
                    _ => Err(FocusError::NotImplemented(platform)),
                },
            },
        }
    }
}

/// What running the activation script came to. `run` is the failure to
/// start it, or whether it succeeded and what it printed as its error.
pub fn script_reply(run: Result<(bool, String), String>) -> (reply: Result<(), FocusError>)
    ensures
        match run {
            Ok((true, _)) => reply is Ok,
            Ok((false, printed)) => reply == Err::<(), FocusError>(
                FocusError::ScriptFailed(printed),
            ),
            Err(detail) => reply == Err::<(), FocusError>(FocusError::ScriptNotRun(detail)),
        },
{
    match run {
        Ok((succeeded, printed)) => {
            if succeeded {
                Ok(())
            } else {
                Err(FocusError::ScriptFailed(printed))
            }
        },
        Err(detail) => Err(FocusError::ScriptNotRun(detail)),
    }
}

} // verus!
